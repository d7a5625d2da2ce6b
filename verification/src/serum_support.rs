use crate::common::CurrencyPair;
use crate::serum_market::SerumError;
use crate::symbol::Symbol;
use crate::text::{contains, occurs_in};
use vstd::prelude::*;
use vstd::string::StringExecFns;

verus! {

/// The map that the pairs describe: each unified pair to its specific pair, a
/// later pair overriding an earlier one with the same unified pair.
pub open spec fn pairs_map(pairs: Seq<(Seq<char>, Seq<char>)>) -> Map<Seq<char>, Seq<char>>
    decreases pairs.len(),
{
    if pairs.len() == 0 {
        Map::empty()
    } else {
        pairs_map(pairs.drop_last()).insert(pairs.last().0, pairs.last().1)
    }
}

/// No unified pair occurs twice.
pub open spec fn distinct_keys(pairs: Seq<(Seq<char>, Seq<char>)>) -> bool {
    forall|i: int, j: int| 0 <= i < j < pairs.len() ==> pairs[i].0 != pairs[j].0
}

proof fn lemma_pairs_map_contains(pairs: Seq<(Seq<char>, Seq<char>)>, key: Seq<char>)
    ensures
        pairs_map(pairs).contains_key(key) <==> exists|i: int|
            0 <= i < pairs.len() && #[trigger] pairs[i].0 == key,
    decreases pairs.len(),
{
    if pairs.len() > 0 {
        lemma_pairs_map_contains(pairs.drop_last(), key);
        if pairs_map(pairs).contains_key(key) && pairs.last().0 != key {
            let i = choose|i: int| 0 <= i < pairs.drop_last().len() && #[trigger] pairs.drop_last()[i].0 == key;
            assert(pairs[i].0 == key);
        }
        if exists|i: int| 0 <= i < pairs.len() && #[trigger] pairs[i].0 == key {
            let i = choose|i: int| 0 <= i < pairs.len() && #[trigger] pairs[i].0 == key;
            if i < pairs.len() - 1 {
                assert(pairs.drop_last()[i].0 == key);
            }
        }
    }
}

proof fn lemma_pairs_map_at(pairs: Seq<(Seq<char>, Seq<char>)>, index: int)
    requires
        distinct_keys(pairs),
        0 <= index < pairs.len(),
    ensures
        pairs_map(pairs).contains_key(pairs[index].0),
        pairs_map(pairs)[pairs[index].0] == pairs[index].1,
    decreases pairs.len(),
{
    if index < pairs.len() - 1 {
        lemma_pairs_map_at(pairs.drop_last(), index);
        assert(pairs.drop_last()[index] == pairs[index]);
    }
}

proof fn lemma_pairs_map_update(
    pairs: Seq<(Seq<char>, Seq<char>)>,
    index: int,
    value: Seq<char>,
)
    requires
        distinct_keys(pairs),
        0 <= index < pairs.len(),
    ensures
        pairs_map(pairs.update(index, (pairs[index].0, value))) == pairs_map(pairs).insert(
            pairs[index].0,
            value,
        ),
        distinct_keys(pairs.update(index, (pairs[index].0, value))),
    decreases pairs.len(),
{
    let updated = pairs.update(index, (pairs[index].0, value));
    if index < pairs.len() - 1 {
        lemma_pairs_map_update(pairs.drop_last(), index, value);
        assert(updated.drop_last() =~= pairs.drop_last().update(index, (pairs[index].0, value)));
        assert(updated.last() == pairs.last());
        assert(pairs.last().0 != pairs[index].0);
        assert(pairs_map(updated) =~= pairs_map(pairs).insert(pairs[index].0, value));
    } else {
        assert(updated.drop_last() =~= pairs.drop_last());
        assert(pairs_map(updated) =~= pairs_map(pairs).insert(pairs[index].0, value));
    }
}

/// What is read back of a unified pair after its specific pair was recorded:
/// the recorded specific pair; every other unified pair reads as before.
pub proof fn lemma_read_after_record(
    pairs: Map<Seq<char>, Seq<char>>,
    unified: Seq<char>,
    specific: Seq<char>,
    other: Seq<char>,
)
    ensures
        pairs.insert(unified, specific).contains_key(unified),
        pairs.insert(unified, specific)[unified] == specific,
        other != unified ==> pairs.insert(unified, specific).contains_key(other)
            == pairs.contains_key(other),
        other != unified && pairs.contains_key(other) ==> pairs.insert(unified, specific)[other]
            == pairs[other],
{
}

/// Recording a specific pair twice for the same unified pair leaves the second.
pub proof fn lemma_record_twice(
    pairs: Map<Seq<char>, Seq<char>>,
    unified: Seq<char>,
    first: Seq<char>,
    second: Seq<char>,
)
    ensures
        pairs.insert(unified, first).insert(unified, second) == pairs.insert(unified, second),
{
    assert(pairs.insert(unified, first).insert(unified, second) =~= pairs.insert(unified, second));
}

/// The unified pair of a market's symbol, `base/quote` of its currency codes,
/// with the market's name as its specific pair.
pub open spec fn symbol_pair(market_name: Seq<char>, symbol: Symbol) -> (Seq<char>, Seq<char>) {
    (symbol.base_currency_code@ + seq!['/'] + symbol.quote_currency_code@, market_name)
}

/// The pairs after the given ones were recorded in order.
pub open spec fn record_all(
    pairs: Map<Seq<char>, Seq<char>>,
    recorded: Seq<(Seq<char>, Seq<char>)>,
) -> Map<Seq<char>, Seq<char>>
    decreases recorded.len(),
{
    if recorded.len() == 0 {
        pairs
    } else {
        record_all(pairs, recorded.drop_last()).insert(recorded.last().0, recorded.last().1)
    }
}

/// After a list of pairs was recorded, a unified pair of the list reads back
/// the specific pair of its last occurrence in the list.
pub proof fn lemma_last_recorded_wins(
    pairs: Map<Seq<char>, Seq<char>>,
    recorded: Seq<(Seq<char>, Seq<char>)>,
    i: int,
)
    requires
        0 <= i < recorded.len(),
        forall|j: int| i < j < recorded.len() ==> #[trigger] recorded[j].0 != recorded[i].0,
    ensures
        record_all(pairs, recorded).contains_key(recorded[i].0),
        record_all(pairs, recorded)[recorded[i].0] == recorded[i].1,
    decreases recorded.len(),
{
    if i < recorded.len() - 1 {
        let shorter = recorded.drop_last();
        assert forall|j: int| i < j < shorter.len() implies #[trigger] shorter[j].0 != shorter[i].0 by {
            assert(shorter[j] == recorded[j]);
        }
        lemma_last_recorded_wins(pairs, shorter, i);
        assert(recorded.last().0 != recorded[i].0);
    }
}

/// A unified pair that the list does not name reads as before.
pub proof fn lemma_unrecorded_unchanged(
    pairs: Map<Seq<char>, Seq<char>>,
    recorded: Seq<(Seq<char>, Seq<char>)>,
    unified: Seq<char>,
)
    requires
        forall|j: int| 0 <= j < recorded.len() ==> #[trigger] recorded[j].0 != unified,
    ensures
        record_all(pairs, recorded).contains_key(unified) == pairs.contains_key(unified),
        pairs.contains_key(unified) ==> record_all(pairs, recorded)[unified] == pairs[unified],
    decreases recorded.len(),
{
    if recorded.len() > 0 {
        let shorter = recorded.drop_last();
        assert forall|j: int| 0 <= j < shorter.len() implies #[trigger] shorter[j].0 != unified by {
            assert(shorter[j] == recorded[j]);
        }
        lemma_unrecorded_unchanged(pairs, shorter, unified);
        assert(recorded[recorded.len() - 1].0 != unified);
    }
}

/// The state of the Serum connection that its logic keeps: the specific pair of
/// each unified currency pair, and the specific pairs being traded.
pub struct Serum {
    unified_to_specific: Vec<(String, String)>,
    traded_specific_currencies: Vec<String>,
}

impl Serum {
    /// The unified-to-specific pairs as plain values.
    pub closed spec fn pairs(&self) -> Seq<(Seq<char>, Seq<char>)> {
        self.unified_to_specific@.map_values(|p: (String, String)| (p.0@, p.1@))
    }

    /// The specific pair of each unified currency pair.
    pub open spec fn specific_pairs(&self) -> Map<Seq<char>, Seq<char>> {
        pairs_map(self.pairs())
    }

    /// The specific pairs being traded.
    pub closed spec fn traded(&self) -> Seq<Seq<char>> {
        self.traded_specific_currencies@.map_values(|s: String| s@)
    }

    /// No unified pair is recorded twice.
    #[verifier::type_invariant]
    closed spec fn wf(&self) -> bool {
        distinct_keys(self.pairs())
    }

    /// A connection state with no pair.
    pub fn new() -> (r: Self)
        ensures
            r.specific_pairs() == Map::<Seq<char>, Seq<char>>::empty(),
            r.traded() == Seq::<Seq<char>>::empty(),
    {
        let pairs: Vec<(String, String)> = Vec::new();
        assert(pairs@.map_values(|p: (String, String)| (p.0@, p.1@)) =~= Seq::<
            (Seq<char>, Seq<char>),
        >::empty());
        let r = Serum { unified_to_specific: pairs, traded_specific_currencies: Vec::new() };
        assert(r.traded() =~= Seq::<Seq<char>>::empty());
        r
    }

    /// Position of the unified pair among the recorded pairs.
    fn position_of(&self, unified: &String) -> (r: Option<usize>)
        ensures
            r matches Some(i) ==> i < self.pairs().len() && self.pairs()[i as int].0 == unified@,
            r is None ==> forall|i: int| 0 <= i < self.pairs().len() ==> self.pairs()[i].0 != unified@,
    {
        let n = self.unified_to_specific.len();
        let mut i: usize = 0;
        while i < n
            invariant
                n == self.unified_to_specific@.len(),
                n == self.pairs().len(),
                i <= n,
                forall|j: int| 0 <= j < i ==> self.pairs()[j].0 != unified@,
            decreases n - i,
        {
            if self.unified_to_specific[i].0 == *unified {
                return Some(i);
            }
            i = i + 1;
        }
        None
    }

    /// Records `specific` as the specific pair of `unified`, replacing what was
    /// recorded for it.
    pub fn insert_specific_currency_pair(&mut self, unified: CurrencyPair, specific: String)
        ensures
            final(self).specific_pairs() == old(self).specific_pairs().insert(unified.code@, specific@),
            final(self).traded() == old(self).traded(),
    {
        proof {
            use_type_invariant(&*self);
        }
        let position = self.position_of(&unified.code);
        let mut pairs: Vec<(String, String)> = Vec::new();
        assert(pairs@.map_values(|p: (String, String)| (p.0@, p.1@)) =~= Seq::<
            (Seq<char>, Seq<char>),
        >::empty());
        std::mem::swap(&mut pairs, &mut self.unified_to_specific);
        let ghost before = pairs@.map_values(|p: (String, String)| (p.0@, p.1@));
        match position {
            Some(i) => {
                proof {
                    lemma_pairs_map_update(before, i as int, specific@);
                }
                pairs.set(i, (unified.code, specific));
                assert(pairs@.map_values(|p: (String, String)| (p.0@, p.1@)) =~= before.update(
                    i as int,
                    (before[i as int].0, specific@),
                ));
            },
            None => {
                let ghost key = unified.code@;
                pairs.push((unified.code, specific));
                let ghost after = pairs@.map_values(|p: (String, String)| (p.0@, p.1@));
                assert(after =~= before.push((key, specific@)));
                assert(after.drop_last() =~= before);
            },
        }
        self.unified_to_specific = pairs;
    }

    /// Records the pairs of a market's symbol: the unified pair of its base and
    /// quote currency codes maps to the market's name.
    pub fn register_symbol(&mut self, market_name: &str, symbol: &Symbol)
        ensures
            final(self).specific_pairs() == old(self).specific_pairs().insert(
                symbol.base_currency_code@ + seq!['/'] + symbol.quote_currency_code@,
                market_name@,
            ),
            final(self).traded() == old(self).traded(),
    {
        let unified = CurrencyPair::from_codes(
            symbol.base_currency_code.as_str(),
            symbol.quote_currency_code.as_str(),
        );
        self.insert_specific_currency_pair(unified, market_name.to_owned());
    }

    /// Records the pairs of the markets' symbols in order (see `register_symbol`).
    pub fn register_symbols(&mut self, markets: &Vec<(String, Symbol)>)
        ensures
            final(self).specific_pairs() == record_all(
                old(self).specific_pairs(),
                markets@.map_values(|m: (String, Symbol)| symbol_pair(m.0@, m.1)),
            ),
            final(self).traded() == old(self).traded(),
    {
        let ghost recorded = markets@.map_values(|m: (String, Symbol)| symbol_pair(m.0@, m.1));
        let n = markets.len();
        let mut i: usize = 0;
        while i < n
            invariant
                n == markets@.len(),
                recorded == markets@.map_values(|m: (String, Symbol)| symbol_pair(m.0@, m.1)),
                i <= n,
                self.specific_pairs() == record_all(old(self).specific_pairs(), recorded.take(i as int)),
                self.traded() == old(self).traded(),
            decreases n - i,
        {
            let (name, symbol) = &markets[i];
            self.register_symbol(name.as_str(), symbol);
            assert(recorded.take(i + 1).drop_last() =~= recorded.take(i as int));
            i = i + 1;
        }
        assert(recorded.take(n as int) =~= recorded);
    }

    /// The specific pair recorded for the unified pair, which must be recorded.
    pub fn get_specific_currency_pair(&self, currency_pair: &CurrencyPair) -> (r: String)
        requires
            self.specific_pairs().contains_key(currency_pair.code@),
        ensures
            r@ == self.specific_pairs()[currency_pair.code@],
    {
        proof {
            use_type_invariant(self);
        }
        match self.position_of(&currency_pair.code) {
            Some(i) => {
                proof {
                    lemma_pairs_map_at(self.pairs(), i as int);
                }
                self.unified_to_specific[i].1.clone()
            },
            None => {
                proof {
                    lemma_pairs_map_contains(self.pairs(), currency_pair.code@);
                }
                String::new()
            },
        }
    }

    /// Whether a specific pair is recorded for the unified pair.
    pub fn has_specific_currency_pair(&self, currency_pair: &CurrencyPair) -> (r: bool)
        ensures
            r == self.specific_pairs().contains_key(currency_pair.code@),
    {
        proof {
            use_type_invariant(self);
        }
        match self.position_of(&currency_pair.code) {
            Some(i) => {
                proof {
                    lemma_pairs_map_at(self.pairs(), i as int);
                }
                true
            },
            None => {
                proof {
                    lemma_pairs_map_contains(self.pairs(), currency_pair.code@);
                }
                false
            },
        }
    }

    /// A response is never an error code for Serum.
    pub fn is_rest_error_code(&self, _response_content: &str) -> (r: Result<(), SerumError>)
        ensures
            r is Ok,
    {
        Ok(())
    }

    /// Nothing is to be done when the connection starts.
    pub fn on_connecting(&self) -> (r: Result<(), SerumError>)
        ensures
            r is Ok,
    {
        Ok(())
    }

    /// Replaces the specific pairs being traded.
    pub fn set_traded_specific_currencies(&mut self, currencies: Vec<String>)
        ensures
            final(self).traded() == currencies@.map_values(|s: String| s@),
            final(self).specific_pairs() == old(self).specific_pairs(),
    {
        proof {
            use_type_invariant(&*self);
        }
        self.traded_specific_currencies = currencies;
    }

    /// Whether a message from the exchange is worth logging: those that hold
    /// `executionReport`.
    pub fn should_log_message(&self, message: &str) -> (r: bool)
        ensures
            r == occurs_in(message@, "executionReport"@),
    {
        contains(message, "executionReport")
    }

    /// The Serum connection uses no websocket.
    pub fn is_websocket_enabled(&self) -> (r: bool)
        ensures
            !r,
    {
        false
    }
}

} // verus!
