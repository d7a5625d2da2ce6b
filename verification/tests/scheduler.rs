use mmb::time::{wait_parts, DateTime, Duration};
use mmb::trigger_scheduler::{
    MoreOrEqualsAvailableRequestsCountTrigger, MoreOrEqualsAvailableRequestsCountTriggerScheduler,
};

const SEC: u128 = 1_000_000_000;

fn at(secs: i64) -> DateTime {
    DateTime { secs, nanos: 0 }
}

fn period(secs: i64) -> Duration {
    Duration { secs, nanos: 0 }
}

#[test]
fn trigger_reached_threshold_does_nothing() {
    let trigger = MoreOrEqualsAvailableRequestsCountTrigger::new(5);
    assert_eq!(trigger.schedule_handler(5, at(100), period(60), at(110)), None);
    assert_eq!(trigger.schedule_handler(9, at(100), period(60), at(110)), None);
}

#[test]
fn trigger_waits_until_period_after_last_request() {
    let trigger = MoreOrEqualsAvailableRequestsCountTrigger::new(5);
    assert_eq!(trigger.schedule_handler(4, at(100), period(60), at(110)), Some(50 * SEC));
}

#[test]
fn trigger_runs_at_once_when_period_passed() {
    let trigger = MoreOrEqualsAvailableRequestsCountTrigger::new(5);
    assert_eq!(trigger.schedule_handler(0, at(100), period(60), at(160)), Some(0));
    assert_eq!(trigger.schedule_handler(0, at(100), period(60), at(500)), Some(0));
}

#[test]
fn trigger_wait_counts_nanoseconds() {
    let trigger = MoreOrEqualsAvailableRequestsCountTrigger::new(1);
    let last = DateTime { secs: 10, nanos: 250 };
    let span = Duration { secs: 1, nanos: 500 };
    let now = DateTime { secs: 10, nanos: 700 };
    assert_eq!(trigger.schedule_handler(0, last, span, now), Some(SEC + 50));
}

#[test]
fn scheduler_registers_in_order() {
    let mut scheduler = MoreOrEqualsAvailableRequestsCountTriggerScheduler::new();
    assert_eq!(scheduler.register_trigger(5), 0);
    assert_eq!(scheduler.register_trigger(10), 1);
    assert_eq!(scheduler.register_trigger(3), 2);
}

#[test]
fn scheduler_runs_triggers_above_available_count() {
    let mut scheduler = MoreOrEqualsAvailableRequestsCountTriggerScheduler::new();
    scheduler.register_trigger(5);
    scheduler.register_trigger(10);
    scheduler.register_trigger(3);
    scheduler.register_trigger(8);
    let scheduled = scheduler.schedule_triggers_at(7, at(100), period(60), at(130));
    assert_eq!(scheduled, vec![(1, 30 * SEC), (3, 30 * SEC)]);
}

#[test]
fn scheduler_with_no_trigger_schedules_nothing() {
    let scheduler = MoreOrEqualsAvailableRequestsCountTriggerScheduler::new();
    assert!(scheduler.schedule_triggers_at(0, at(0), period(1), at(0)).is_empty());
}

#[test]
fn scheduler_now_uses_clock() {
    let mut scheduler = MoreOrEqualsAvailableRequestsCountTriggerScheduler::new();
    scheduler.register_trigger(2);
    let now = MoreOrEqualsAvailableRequestsCountTriggerScheduler::utc_now();
    assert!(now.secs > 1_600_000_000);
    let scheduled = scheduler.schedule_triggers(0, now, period(3600));
    assert_eq!(scheduled.len(), 1);
    assert_eq!(scheduled[0].0, 0);
    assert!(scheduled[0].1 <= 3600 * SEC);
    assert!(scheduled[0].1 > 3500 * SEC);
}

#[test]
fn later_query_waits_less() {
    let trigger = MoreOrEqualsAvailableRequestsCountTrigger::new(1);
    let early = trigger.schedule_handler(0, at(100), period(60), at(120)).unwrap();
    let late = trigger.schedule_handler(0, at(100), period(60), at(150)).unwrap();
    assert!(late <= early);
    assert_eq!(early - late, 30 * SEC);
}

#[test]
fn duration_from_negative_parts() {
    let d = Duration::from_parts(-2, -500_000_000).unwrap();
    assert_eq!(d, Duration { secs: -3, nanos: 500_000_000 });
    assert_eq!(d.total_nanos(), -2_500_000_000);
    assert_eq!(Duration::from_parts(4, 7), Some(Duration { secs: 4, nanos: 7 }));
    assert_eq!(Duration::from_parts(i64::MIN, -1), None);
}

#[test]
fn timestamp_in_nanoseconds() {
    assert_eq!(DateTime { secs: -1, nanos: 3 }.timestamp_nanos(), -999_999_997);
}

#[test]
fn scheduler_without_running_trigger_accepts_any_instant() {
    let mut scheduler = MoreOrEqualsAvailableRequestsCountTriggerScheduler::new();
    scheduler.register_trigger(3);
    assert!(!scheduler.any_trigger_runs(3));
    assert!(scheduler.any_trigger_runs(2));
    let far = DateTime { secs: i64::MAX, nanos: 0 };
    assert!(scheduler.schedule_triggers_at(3, far, period(i64::MAX), at(0)).is_empty());
    assert!(scheduler.schedule_triggers(5, far, period(i64::MAX)).is_empty());
    assert_eq!(scheduler.triggers_count(), 1);
}

#[test]
fn scheduled_trigger_runs_again_on_later_calls() {
    let mut scheduler = MoreOrEqualsAvailableRequestsCountTriggerScheduler::new();
    scheduler.register_trigger(10);
    assert_eq!(scheduler.schedule_triggers_at(5, at(100), period(60), at(100)), vec![(0, 60 * SEC)]);
    assert_eq!(scheduler.schedule_triggers_at(5, at(100), period(60), at(130)), vec![(0, 30 * SEC)]);
    assert_eq!(scheduler.triggers_count(), 1);
}

#[test]
fn wait_as_seconds_and_nanoseconds() {
    assert_eq!(wait_parts(2_500_000_001), (2, 500_000_001));
    assert_eq!(wait_parts(0), (0, 0));
    assert_eq!(wait_parts(u128::MAX), (u64::MAX, (u128::MAX % 1_000_000_000) as u32));
}

fn library_wait(last: DateTime, span: Duration, now: DateTime) -> u128 {
    MoreOrEqualsAvailableRequestsCountTrigger::new(1).schedule_handler(0, last, span, now).unwrap()
}

fn chrono_wait(last: DateTime, span: Duration, now: DateTime) -> u128 {
    let last = chrono::DateTime::from_timestamp(last.secs, last.nanos).unwrap();
    let span = chrono::TimeDelta::new(span.secs, span.nanos).unwrap();
    let now = chrono::DateTime::from_timestamp(now.secs, now.nanos).unwrap();
    ((last + span) - now).num_nanoseconds().unwrap().max(0) as u128
}

#[test]
fn leap_second_last_request_counts_as_the_time_library_does() {
    let leap = DateTime { secs: 59, nanos: 1_500_000_000 };
    let cases = [
        (leap, period(1), at(60), 500_000_000),
        (leap, Duration { secs: 0, nanos: 200_000_000 }, DateTime { secs: 59, nanos: 1_000_000_000 }, 700_000_000),
        (
            DateTime { secs: 119, nanos: 1_500_000_000 },
            Duration { secs: 0, nanos: 200_000_000 },
            at(120),
            0,
        ),
        (at(50), period(10), leap, 500_000_000),
        (leap, period(-2), at(58), 500_000_000),
        (at(10), period(50), at(20), 40 * SEC),
    ];
    for (last, span, now, expected) in cases {
        assert_eq!(library_wait(last, span, now), expected);
        assert_eq!(chrono_wait(last, span, now), expected);
    }
}
