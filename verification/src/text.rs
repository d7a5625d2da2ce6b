use vstd::prelude::*;
use vstd::string::StrSliceExecFns;

verus! {

/// `pattern` occurs in `s` starting at position `i`.
pub open spec fn occurs_at(s: Seq<char>, pattern: Seq<char>, i: int) -> bool {
    &&& 0 <= i
    &&& i + pattern.len() <= s.len()
    &&& s.subrange(i, i + pattern.len()) == pattern
}

/// `pattern` occurs in `s` somewhere.
pub open spec fn occurs_in(s: Seq<char>, pattern: Seq<char>) -> bool {
    exists|i: int| occurs_at(s, pattern, i)
}

/// `i` is the first position in `s` at which `pattern` occurs.
pub open spec fn first_occurrence(s: Seq<char>, pattern: Seq<char>, i: int) -> bool {
    &&& occurs_at(s, pattern, i)
    &&& forall|j: int| 0 <= j < i ==> !occurs_at(s, pattern, j)
}

/// Whether `pattern` occurs in `s` at position `i`.
fn matches_at(s: &str, pattern: &str, i: usize, n: usize, m: usize) -> (r: bool)
    requires
        n == s@.len(),
        m == pattern@.len(),
        i + m <= n,
    ensures
        r == occurs_at(s@, pattern@, i as int),
{
    let mut k: usize = 0;
    while k < m
        invariant
            n == s@.len(),
            m == pattern@.len(),
            i + m <= n,
            k <= m,
            forall|l: int| 0 <= l < k ==> s@[i + l] == pattern@[l],
        decreases m - k,
    {
        if s.get_char(i + k) != pattern.get_char(k) {
            assert(s@.subrange(i as int, i + m)[k as int] != pattern@[k as int]);
            return false;
        }
        k = k + 1;
    }
    assert(s@.subrange(i as int, i + m) =~= pattern@);
    true
}

/// The first position at which `pattern` occurs in `s`, if it does.
pub fn find(s: &str, pattern: &str) -> (r: Option<usize>)
    ensures
        r matches Some(i) ==> first_occurrence(s@, pattern@, i as int),
        r is None ==> !occurs_in(s@, pattern@),
{
    let n = s.unicode_len();
    let m = pattern.unicode_len();
    if m > n {
        return None;
    }
    let last = n - m;
    let mut i: usize = 0;
    loop
        invariant
            n == s@.len(),
            m == pattern@.len(),
            last == n - m,
            i <= last,
            forall|j: int| 0 <= j < i ==> !occurs_at(s@, pattern@, j),
        ensures
            forall|j: int| 0 <= j <= last ==> !occurs_at(s@, pattern@, j),
        decreases last - i,
    {
        if matches_at(s, pattern, i, n, m) {
            return Some(i);
        }
        if i == last {
            break;
        }
        i = i + 1;
    }
    assert forall|j: int| !occurs_at(s@, pattern@, j) by {
        if 0 <= j <= last {
        }
    }
    None
}

/// Whether `pattern` occurs in `s`.
pub fn contains(s: &str, pattern: &str) -> (r: bool)
    ensures
        r == occurs_in(s@, pattern@),
{
    match find(s, pattern) {
        Some(_) => true,
        None => false,
    }
}

/// Splits `s` at the first occurrence of `delimiter`: the part before it and
/// the part after it; `None` when `delimiter` does not occur.
pub fn split_once<'a>(s: &'a str, delimiter: &str) -> (r: Option<(&'a str, &'a str)>)
    ensures
        r is None <==> !occurs_in(s@, delimiter@),
        r matches Some(parts) ==> exists|i: int|
            first_occurrence(s@, delimiter@, i) && parts.0@ == s@.subrange(0, i) && parts.1@
                == s@.subrange(i + delimiter@.len(), s@.len() as int),
{
    match find(s, delimiter) {
        Some(i) => {
            let n = s.unicode_len();
            let m = delimiter.unicode_len();
            let before = s.substring_char(0, i);
            let after = s.substring_char(i + m, n);
            assert(first_occurrence(s@, delimiter@, i as int));
            Some((before, after))
        },
        None => None,
    }
}

} // verus!
