use crate::time::{utc_now, DateTime, Duration, CALENDAR_MAX_SECS};
use vstd::prelude::*;

verus! {

/// The time at which the request limit has recovered: one period after the
/// last request, as the time library adds them.
pub open spec fn trigger_time(last_request_time: DateTime, period_duration: Duration) -> DateTime {
    last_request_time.plus(period_duration)
}

/// The wait, in nanoseconds, from `current_time` until the trigger time, as the
/// time library subtracts them; zero once it has passed.
pub open spec fn wait_until_trigger(
    last_request_time: DateTime,
    period_duration: Duration,
    current_time: DateTime,
) -> int {
    let left = trigger_time(last_request_time, period_duration).since(current_time);
    if left > 0 {
        left
    } else {
        0
    }
}

/// What a trigger with the given threshold decides: nothing when the available
/// requests already reach the threshold, else to run its handler after the wait
/// until the trigger time.
pub open spec fn handler_delay(
    count_threshold: usize,
    available_requests_count: usize,
    last_request_time: DateTime,
    period_duration: Duration,
    current_time: DateTime,
) -> Option<int> {
    if available_requests_count >= count_threshold {
        None
    } else {
        Some(wait_until_trigger(last_request_time, period_duration, current_time))
    }
}

/// The handlers that the triggers with the first `n` thresholds schedule, in
/// registration order: each as its trigger's position and its wait in
/// nanoseconds.
pub open spec fn scheduled_handlers(
    thresholds: Seq<usize>,
    n: int,
    available_requests_count: usize,
    last_request_time: DateTime,
    period_duration: Duration,
    current_time: DateTime,
) -> Seq<(usize, u128)>
    decreases n,
{
    if n <= 0 {
        Seq::empty()
    } else {
        let before = scheduled_handlers(
            thresholds,
            n - 1,
            available_requests_count,
            last_request_time,
            period_duration,
            current_time,
        );
        match handler_delay(
            thresholds[n - 1],
            available_requests_count,
            last_request_time,
            period_duration,
            current_time,
        ) {
            Some(wait) => before.push(((n - 1) as usize, wait as u128)),
            None => before,
        }
    }
}

/// Some trigger with one of the thresholds does not have its threshold reached
/// by the available requests count, so that its handler runs.
pub open spec fn some_trigger_runs(thresholds: Seq<usize>, available_requests_count: usize) -> bool {
    exists|i: int| 0 <= i < thresholds.len() && available_requests_count < #[trigger] thresholds[i]
}

/// The schedule holds, in registration order and once each, the triggers whose
/// threshold the available requests count does not reach, all with the same
/// wait, and no other trigger.
pub open spec fn schedules_each_once(
    s: Seq<(usize, u128)>,
    thresholds: Seq<usize>,
    available_requests_count: usize,
    wait: int,
) -> bool {
    &&& forall|k: int|
        0 <= k < s.len() ==> {
            &&& 0 <= (#[trigger] s[k]).0 < thresholds.len()
            &&& available_requests_count < thresholds[s[k].0 as int]
            &&& s[k].1 == wait
        }
    &&& forall|k: int, l: int| 0 <= k < l < s.len() ==> #[trigger] s[k].0 < #[trigger] s[l].0
    &&& forall|i: int|
        0 <= i < thresholds.len() && available_requests_count < #[trigger] thresholds[i]
            ==> exists|k: int| 0 <= k < s.len() && #[trigger] s[k].0 == i
}

/// The handlers scheduled in one call are exactly those of the triggers whose
/// threshold the available requests count does not reach, in registration
/// order, and all of them wait the same time: until one period after the last
/// request.
pub proof fn lemma_scheduled_handlers_exact(
    thresholds: Seq<usize>,
    n: int,
    available_requests_count: usize,
    last_request_time: DateTime,
    period_duration: Duration,
    current_time: DateTime,
)
    requires
        0 <= n <= thresholds.len(),
        thresholds.len() <= usize::MAX,
    ensures
        ({
            let s = scheduled_handlers(
                thresholds,
                n,
                available_requests_count,
                last_request_time,
                period_duration,
                current_time,
            );
            &&& forall|k: int|
                0 <= k < s.len() ==> {
                    &&& 0 <= (#[trigger] s[k]).0 < n
                    &&& available_requests_count < thresholds[s[k].0 as int]
                    &&& s[k].1 == wait_until_trigger(
                        last_request_time,
                        period_duration,
                        current_time,
                    )
                }
            &&& forall|k: int, l: int| 0 <= k < l < s.len() ==> #[trigger] s[k].0 < #[trigger] s[l].0
            &&& forall|i: int|
                0 <= i < n && available_requests_count < #[trigger] thresholds[i] ==> exists|k: int|
                    0 <= k < s.len() && #[trigger] s[k].0 == i
        }),
    decreases n,
{
    if n > 0 {
        lemma_scheduled_handlers_exact(
            thresholds,
            n - 1,
            available_requests_count,
            last_request_time,
            period_duration,
            current_time,
        );
        let before = scheduled_handlers(
            thresholds,
            n - 1,
            available_requests_count,
            last_request_time,
            period_duration,
            current_time,
        );
        let s = scheduled_handlers(
            thresholds,
            n,
            available_requests_count,
            last_request_time,
            period_duration,
            current_time,
        );
        assert forall|i: int|
            0 <= i < n && available_requests_count < #[trigger] thresholds[i] implies exists|k: int|
                0 <= k < s.len() && #[trigger] s[k].0 == i by {
            if i < n - 1 {
                let k = choose|k: int| 0 <= k < before.len() && #[trigger] before[k].0 == i;
                assert(s[k] == before[k]);
            } else {
                assert(s[s.len() - 1].0 == i);
            }
        }
    }
}

/// Scheduling takes no trigger away: a trigger whose threshold the available
/// requests count does not reach is scheduled by every call, whatever the
/// times, so a later call with such a count runs its handler again.
pub proof fn lemma_trigger_runs_on_every_call(
    thresholds: Seq<usize>,
    available_requests_count: usize,
    i: int,
    last_request_time: DateTime,
    period_duration: Duration,
    current_time: DateTime,
)
    requires
        thresholds.len() <= usize::MAX,
        0 <= i < thresholds.len(),
        available_requests_count < thresholds[i],
    ensures
        exists|k: int|
            0 <= k < scheduled_handlers(
                thresholds,
                thresholds.len() as int,
                available_requests_count,
                last_request_time,
                period_duration,
                current_time,
            ).len() && (#[trigger] scheduled_handlers(
                thresholds,
                thresholds.len() as int,
                available_requests_count,
                last_request_time,
                period_duration,
                current_time,
            )[k]) == ((i as usize), wait_until_trigger(last_request_time, period_duration, current_time) as u128),
{
    lemma_scheduled_handlers_exact(
        thresholds,
        thresholds.len() as int,
        available_requests_count,
        last_request_time,
        period_duration,
        current_time,
    );
    let s = scheduled_handlers(
        thresholds,
        thresholds.len() as int,
        available_requests_count,
        last_request_time,
        period_duration,
        current_time,
    );
    assert(available_requests_count < thresholds[i]);
    let k = choose|k: int| 0 <= k < s.len() && #[trigger] s[k].0 == i;
    assert(s[k] == ((i as usize), wait_until_trigger(last_request_time, period_duration, current_time) as u128));
}

/// Whether a trigger runs its handler grows with its threshold: when a trigger
/// runs, so does every trigger with a threshold at least as high, after the same
/// wait.
pub proof fn lemma_higher_threshold_also_runs(
    threshold: usize,
    higher_threshold: usize,
    available_requests_count: usize,
    last_request_time: DateTime,
    period_duration: Duration,
    current_time: DateTime,
)
    requires
        threshold <= higher_threshold,
        handler_delay(
            threshold,
            available_requests_count,
            last_request_time,
            period_duration,
            current_time,
        ) is Some,
    ensures
        handler_delay(
            higher_threshold,
            available_requests_count,
            last_request_time,
            period_duration,
            current_time,
        ) == handler_delay(
            threshold,
            available_requests_count,
            last_request_time,
            period_duration,
            current_time,
        ),
{
}

/// Outside leap seconds the time library adds plainly: one period after a last
/// request outside a leap second is the plain sum, outside a leap second too.
proof fn lemma_plain_trigger_time(last_request_time: DateTime, period_duration: Duration)
    requires
        !last_request_time.is_leap(),
        last_request_time.plus_in_calendar(period_duration),
    ensures
        !trigger_time(last_request_time, period_duration).is_leap(),
        trigger_time(last_request_time, period_duration).instant() == last_request_time.instant()
            + period_duration.span(),
{
    let i = last_request_time.instant() + period_duration.span();
    assert(i == (i / 1_000_000_000) * 1_000_000_000 + i % 1_000_000_000);
}

/// The wait never grows as time goes on: asked later, a trigger waits at most
/// as long, and at least as long less the time that has passed (for times
/// outside leap seconds, where the time library subtracts plainly).
pub proof fn lemma_wait_shrinks_as_time_passes(
    last_request_time: DateTime,
    period_duration: Duration,
    earlier: DateTime,
    later: DateTime,
)
    requires
        !last_request_time.is_leap(),
        !earlier.is_leap(),
        !later.is_leap(),
        last_request_time.plus_in_calendar(period_duration),
        earlier.instant() <= later.instant(),
    ensures
        wait_until_trigger(last_request_time, period_duration, later) <= wait_until_trigger(
            last_request_time,
            period_duration,
            earlier,
        ),
        wait_until_trigger(last_request_time, period_duration, later) >= wait_until_trigger(
            last_request_time,
            period_duration,
            earlier,
        ) - (later.instant() - earlier.instant()),
{
    lemma_plain_trigger_time(last_request_time, period_duration);
}

/// Outside leap seconds the wait is exactly the time left until one period
/// after the last request, or zero once that time has passed: no more, no less.
pub proof fn lemma_wait_is_time_left(
    last_request_time: DateTime,
    period_duration: Duration,
    current_time: DateTime,
)
    requires
        !last_request_time.is_leap(),
        !current_time.is_leap(),
        last_request_time.plus_in_calendar(period_duration),
    ensures
        wait_until_trigger(last_request_time, period_duration, current_time) == (if last_request_time.instant()
            + period_duration.span() - current_time.instant() > 0 {
            last_request_time.instant() + period_duration.span() - current_time.instant()
        } else {
            0
        }),
{
    lemma_plain_trigger_time(last_request_time, period_duration);
}

/// Once a whole period has passed since the last request the handler runs at
/// once; asked no earlier than the last request, the wait is at most one period
/// (for times outside leap seconds).
pub proof fn lemma_wait_bounded_by_period(
    last_request_time: DateTime,
    period_duration: Duration,
    current_time: DateTime,
)
    requires
        !last_request_time.is_leap(),
        !current_time.is_leap(),
        last_request_time.plus_in_calendar(period_duration),
    ensures
        current_time.instant() >= last_request_time.instant() + period_duration.span()
            ==> wait_until_trigger(last_request_time, period_duration, current_time) == 0,
        current_time.instant() >= last_request_time.instant() && period_duration.span() >= 0
            ==> wait_until_trigger(last_request_time, period_duration, current_time)
            <= period_duration.span(),
{
    lemma_plain_trigger_time(last_request_time, period_duration);
}

/// A trigger that runs its handler once the available requests count has grown
/// back to its threshold. The handler itself is held by whoever registered the
/// trigger; the trigger decides when it runs.
pub struct MoreOrEqualsAvailableRequestsCountTrigger {
    count_threshold: usize,
}

impl MoreOrEqualsAvailableRequestsCountTrigger {
    /// The threshold of available requests that the trigger waits for.
    pub closed spec fn threshold(&self) -> usize {
        self.count_threshold
    }

    /// A trigger with the given threshold.
    pub fn new(count_threshold: usize) -> (r: Self)
        ensures
            r.threshold() == count_threshold,
    {
        MoreOrEqualsAvailableRequestsCountTrigger { count_threshold }
    }

    /// The threshold of available requests that the trigger waits for.
    pub fn count_threshold(&self) -> (r: usize)
        ensures
            r == self.threshold(),
    {
        self.count_threshold
    }

    /// Decides whether the handler is to run and after how many nanoseconds:
    /// `None` when the available requests count already reaches the threshold;
    /// else the wait until one period after the last request, or zero when that
    /// time has passed, with times added and subtracted as the time library
    /// does, leap seconds included.
    pub fn schedule_handler(
        &self,
        available_requests_count_on_last_request_time: usize,
        last_request_time: DateTime,
        period_duration: Duration,
        current_time: DateTime,
    ) -> (r: Option<u128>)
        requires
            available_requests_count_on_last_request_time < self.threshold() ==> last_request_time.plus_in_calendar(period_duration),
        ensures
            r matches Some(wait) ==> handler_delay(
                self.threshold(),
                available_requests_count_on_last_request_time,
                last_request_time,
                period_duration,
                current_time,
            ) == Some(wait as int),
            r is None <==> handler_delay(
                self.threshold(),
                available_requests_count_on_last_request_time,
                last_request_time,
                period_duration,
                current_time,
            ) is None,
            r is None <==> available_requests_count_on_last_request_time >= self.threshold(),
            !last_request_time.is_leap() && !current_time.is_leap() ==> (r matches Some(wait)
                ==> wait == (if last_request_time.instant() + period_duration.span()
                - current_time.instant() > 0 {
                last_request_time.instant() + period_duration.span() - current_time.instant()
            } else {
                0
            })),
    {
        proof {
            if available_requests_count_on_last_request_time < self.threshold()
                && !last_request_time.is_leap() && !current_time.is_leap() {
                lemma_wait_is_time_left(last_request_time, period_duration, current_time);
            }
        }
        let is_greater = available_requests_count_on_last_request_time >= self.count_threshold;
        if is_greater {
            return None;
        }
        let trigger_time = last_request_time.add_span(&period_duration);
        let delay = trigger_time.signed_duration_since(&current_time);
        if delay > 0 {
            Some(delay as u128)
        } else {
            Some(0)
        }
    }
}

/// Scheduler of the triggers that wait for the available requests count to
/// grow back to their thresholds.
pub struct MoreOrEqualsAvailableRequestsCountTriggerScheduler {
    increasing_count_triggers: Vec<MoreOrEqualsAvailableRequestsCountTrigger>,
}

impl View for MoreOrEqualsAvailableRequestsCountTriggerScheduler {
    /// The thresholds of the registered triggers, in registration order.
    type V = Seq<usize>;

    closed spec fn view(&self) -> Seq<usize> {
        self.increasing_count_triggers@.map_values(
            |t: MoreOrEqualsAvailableRequestsCountTrigger| t.count_threshold,
        )
    }
}

impl MoreOrEqualsAvailableRequestsCountTriggerScheduler {
    /// A scheduler with no trigger.
    pub fn new() -> (r: Self)
        ensures
            r@ == Seq::<usize>::empty(),
    {
        let triggers = Vec::new();
        let r = MoreOrEqualsAvailableRequestsCountTriggerScheduler {
            increasing_count_triggers: triggers,
        };
        assert(r@ =~= Seq::<usize>::empty());
        r
    }

    /// The current time.
    pub fn utc_now() -> (r: DateTime)
        ensures
            0 <= r.secs <= CALENDAR_MAX_SECS,
            r.nanos < 1_000_000_000,
    {
        utc_now()
    }

    /// Registers a trigger with the given threshold after the others and returns
    /// its position, by which its handler is found again.
    pub fn register_trigger(&mut self, count_threshold: usize) -> (r: usize)
        ensures
            final(self)@ == old(self)@.push(count_threshold),
            r == old(self)@.len(),
    {
        let position = self.increasing_count_triggers.len();
        let trigger = MoreOrEqualsAvailableRequestsCountTrigger::new(count_threshold);
        self.increasing_count_triggers.push(trigger);
        assert(self@ =~= old(self)@.push(count_threshold));
        position
    }

    /// The handlers that the triggers schedule at `current_time`, in registration
    /// order: each trigger whose threshold the available requests count does not
    /// reach, with the wait until one period after the last request.
    pub fn schedule_triggers_at(
        &self,
        available_requests_count_on_last_request_time: usize,
        last_request_time: DateTime,
        period_duration: Duration,
        current_time: DateTime,
    ) -> (r: Vec<(usize, u128)>)
        requires
            some_trigger_runs(self@, available_requests_count_on_last_request_time) ==> last_request_time.plus_in_calendar(period_duration),
        ensures
            r@ == scheduled_handlers(
                self@,
                self@.len() as int,
                available_requests_count_on_last_request_time,
                last_request_time,
                period_duration,
                current_time,
            ),
            schedules_each_once(
                r@,
                self@,
                available_requests_count_on_last_request_time,
                wait_until_trigger(last_request_time, period_duration, current_time),
            ),
    {
        let mut scheduled: Vec<(usize, u128)> = Vec::new();
        let n = self.increasing_count_triggers.len();
        let mut i: usize = 0;
        while i < n
            invariant
                n == self@.len(),
                n == self.increasing_count_triggers@.len(),
                i <= n,
                some_trigger_runs(self@, available_requests_count_on_last_request_time)
                    ==> last_request_time.plus_in_calendar(period_duration),
                scheduled@ == scheduled_handlers(
                    self@,
                    i as int,
                    available_requests_count_on_last_request_time,
                    last_request_time,
                    period_duration,
                    current_time,
                ),
            decreases n - i,
        {
            let trigger = &self.increasing_count_triggers[i];
            assert(trigger.threshold() == self@[i as int]);
            assert(available_requests_count_on_last_request_time < trigger.threshold()
                ==> some_trigger_runs(self@, available_requests_count_on_last_request_time));
            match trigger.schedule_handler(
                available_requests_count_on_last_request_time,
                last_request_time,
                period_duration,
                current_time,
            ) {
                Some(delay) => {
                    scheduled.push((i, delay));
                },
                None => {},
            }
            i = i + 1;
        }
        proof {
            lemma_scheduled_handlers_exact(
                self@,
                n as int,
                available_requests_count_on_last_request_time,
                last_request_time,
                period_duration,
                current_time,
            );
        }
        scheduled
    }

    /// The handlers that the triggers schedule now: as `schedule_triggers_at`
    /// with the time read from the clock, whatever instant that is.
    pub fn schedule_triggers(
        &self,
        available_requests_count_on_last_request_time: usize,
        last_request_time: DateTime,
        period_duration: Duration,
    ) -> (r: Vec<(usize, u128)>)
        requires
            some_trigger_runs(self@, available_requests_count_on_last_request_time) ==> last_request_time.plus_in_calendar(period_duration),
        ensures
            exists|current_time: DateTime|
                #![trigger wait_until_trigger(last_request_time, period_duration, current_time)]
                0 <= current_time.secs <= CALENDAR_MAX_SECS && current_time.nanos < 1_000_000_000 && r@ == scheduled_handlers(
                    self@,
                    self@.len() as int,
                    available_requests_count_on_last_request_time,
                    last_request_time,
                    period_duration,
                    current_time,
                ) && schedules_each_once(
                    r@,
                    self@,
                    available_requests_count_on_last_request_time,
                    wait_until_trigger(last_request_time, period_duration, current_time),
                ),
    {
        let current_time = Self::utc_now();
        let r = self.schedule_triggers_at(
            available_requests_count_on_last_request_time,
            last_request_time,
            period_duration,
            current_time,
        );
        assert(wait_until_trigger(last_request_time, period_duration, current_time) == wait_until_trigger(
            last_request_time,
            period_duration,
            current_time,
        ));
        r
    }

    /// Whether some registered trigger does not have its threshold reached by
    /// the available requests count, so that scheduling runs its handler.
    pub fn any_trigger_runs(&self, available_requests_count: usize) -> (r: bool)
        ensures
            r == some_trigger_runs(self@, available_requests_count),
    {
        let n = self.increasing_count_triggers.len();
        let mut i: usize = 0;
        while i < n
            invariant
                n == self@.len(),
                n == self.increasing_count_triggers@.len(),
                i <= n,
                forall|j: int| 0 <= j < i ==> available_requests_count >= #[trigger] self@[j],
            decreases n - i,
        {
            if available_requests_count < self.increasing_count_triggers[i].count_threshold() {
                assert(self@[i as int] == self.increasing_count_triggers@[i as int].threshold());
                return true;
            }
            assert(self@[i as int] == self.increasing_count_triggers@[i as int].threshold());
            i = i + 1;
        }
        false
    }

    /// The number of registered triggers.
    pub fn triggers_count(&self) -> (r: usize)
        ensures
            r == self@.len(),
    {
        self.increasing_count_triggers.len()
    }
}

} // verus!
