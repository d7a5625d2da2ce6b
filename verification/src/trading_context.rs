use crate::time::DateTime;
use vstd::prelude::*;
use vstd::string::StringExecFns;

verus! {

/// Seconds since the Unix epoch of the first instant of year 0.
pub const YEAR_0_SECS: i64 = -62_167_219_200;

/// Seconds since the Unix epoch of the first instant of year 10000.
pub const YEAR_10000_SECS: i64 = 253_402_300_800;

/// The reasons behind a trading decision, in the order they were given.
pub struct Explanation {
    reasons: Vec<String>,
}

impl View for Explanation {
    type V = Seq<Seq<char>>;

    closed spec fn view(&self) -> Seq<Seq<char>> {
        self.reasons@.map_values(|r: String| r@)
    }
}

impl Explanation {
    /// An explanation with no reason.
    pub fn new() -> (r: Self)
        ensures
            r@ == Seq::<Seq<char>>::empty(),
    {
        let r = Explanation { reasons: Vec::new() };
        assert(r@ =~= Seq::<Seq<char>>::empty());
        r
    }

    /// Adds a reason after the others.
    pub fn add_reason(&mut self, reason: String)
        ensures
            final(self)@ == old(self)@.push(reason@),
    {
        let ghost text = reason@;
        self.reasons.push(reason);
        assert(self@ =~= old(self)@.push(text));
    }

    /// The reasons, in the order they were given.
    pub fn reasons(&self) -> (r: &Vec<String>)
        ensures
            r@.map_values(|s: String| s@) == self@,
    {
        &self.reasons
    }
}

/// A strategy that decides what to trade: it computes the trading context at
/// `now` from the local order book snapshots and gives its reasons in the
/// explanation.
pub trait DispositionStrategy: Sized {
    /// The local order book snapshots that the strategy reads.
    type LocalSnapshotsService;

    /// What the strategy decides.
    type TradingContext;

    /// Whether the strategy, in state `before`, asked at `now` with the snapshots
    /// and an explanation holding `reasons_before`, may end in state `after`,
    /// with the explanation holding `reasons_after`, and answer `answer`. A
    /// strategy says what it decides by defining this relation; the one it
    /// inherits relates every outcome, so says nothing.
    open spec fn decides(
        before: Self,
        after: Self,
        now: DateTime,
        local_snapshots_service: Self::LocalSnapshotsService,
        reasons_before: Seq<Seq<char>>,
        reasons_after: Seq<Seq<char>>,
        answer: Option<Self::TradingContext>,
    ) -> bool {
        true
    }

    fn calculate_trading_context(
        &mut self,
        now: DateTime,
        local_snapshots_service: &Self::LocalSnapshotsService,
        explanation: &mut Explanation,
    ) -> (r: Option<Self::TradingContext>)
        ensures
            Self::decides(
                *old(self),
                *final(self),
                now,
                *local_snapshots_service,
                old(explanation)@,
                final(explanation)@,
                r,
            ),
    ;
}

/// The instant is a valid time of a year from 0 to 9999, so that it can be
/// written in the RFC 2822 format; its nanoseconds pass one billion only in a
/// leap second, the last second of a minute.
pub open spec fn rfc2822_representable(now: DateTime) -> bool {
    &&& YEAR_0_SECS <= now.secs < YEAR_10000_SECS
    &&& now.nanos < 1_000_000_000 || (now.nanos < 2_000_000_000 && now.secs % 60 == 59)
}

/// The RFC 2822 text of the UTC instant, such as `Tue, 1 Jul 2003 10:52:37 +0000`,
/// as the `chrono` crate writes it.
pub uninterp spec fn rfc2822_text(secs: int, nanos: int) -> Seq<char>;

/// `chrono::DateTime::<Utc>::to_rfc2822` of the instant that
/// `chrono::DateTime::from_timestamp` makes of the seconds and nanoseconds. The
/// crate's documentation says that `from_timestamp` gives an instant for every
/// in-range second and valid nanosecond, and that `to_rfc2822` panics only on a
/// year below 0 or above 9999; the text itself is named by `rfc2822_text`.
#[verifier::external_body]
fn rfc2822(now: DateTime) -> (r: Option<String>)
    requires
        rfc2822_representable(now),
    ensures
        r is Some,
        r matches Some(text) ==> text@ == rfc2822_text(now.secs as int, now.nanos as int),
{
    match chrono::DateTime::from_timestamp(now.secs, now.nanos) {
        Some(time) => Some(time.to_rfc2822()),
        None => None,
    }
}

/// The reason that opens every explanation: the time of the decision.
pub open spec fn start_reason(now: DateTime) -> Seq<char> {
    "Start time utc="@ + rfc2822_text(now.secs as int, now.nanos as int)
}

/// The start reason is `Start time utc=` and the RFC 2822 text of the very
/// instant of the decision, to its second and nanosecond.
pub proof fn lemma_start_reason_names_the_instant(now: DateTime)
    ensures
        start_reason(now) == "Start time utc="@ + rfc2822_text(now.secs as int, now.nanos as int),
{
}

/// An explanation that holds one reason: the time of the decision.
pub fn start_explanation(now: DateTime) -> (r: Explanation)
    requires
        rfc2822_representable(now),
    ensures
        r@ == seq![start_reason(now)],
        r@ == seq!["Start time utc="@ + rfc2822_text(now.secs as int, now.nanos as int)],
{
    let mut explanation = Explanation::new();
    let mut reason = "Start time utc=".to_owned();
    match rfc2822(now) {
        Some(text) => {
            reason.append(text.as_str());
        },
        None => {},
    }
    explanation.add_reason(reason);
    proof {
        assert(explanation@ =~= seq![start_reason(now)]);
    }
    explanation
}

/// Asks the strategy for the trading context at `now`, handing it an
/// explanation that holds only the start reason (see `start_explanation`), and
/// returns its answer as it is.
pub fn calculate_trading_context<S: DispositionStrategy>(
    strategy: &mut S,
    local_snapshots_service: &S::LocalSnapshotsService,
    now: DateTime,
) -> (r: Option<S::TradingContext>)
    requires
        rfc2822_representable(now),
    ensures
        exists|reasons: Seq<Seq<char>>|
            #[trigger] S::decides(
                *old(strategy),
                *final(strategy),
                now,
                *local_snapshots_service,
                seq![start_reason(now)],
                reasons,
                r,
            ),
{
    let mut explanation = start_explanation(now);
    let r = strategy.calculate_trading_context(now, local_snapshots_service, &mut explanation);
    r
}

} // verus!
