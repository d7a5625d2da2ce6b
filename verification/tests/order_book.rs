use mmb::common::{CurrencyPair, ExchangeAccountId};
use mmb::order_book_data::OrderBookData;
use mmb::order_book_event::{EventType, OrderBookEvent};
use mmb::request_type::RequestType;
use mmb::time::DateTime;
use std::collections::BTreeMap;

fn side(levels: &[(u64, u64)]) -> BTreeMap<u64, u64> {
    levels.iter().cloned().collect()
}

fn book(asks: &[(u64, u64)], bids: &[(u64, u64)]) -> OrderBookData {
    OrderBookData::new(side(asks), side(bids))
}

fn event(data: OrderBookData) -> OrderBookEvent {
    OrderBookEvent::new(
        DateTime { secs: 1_600_000_000, nanos: 5 },
        ExchangeAccountId::new("Binance".to_string(), 0),
        CurrencyPair::from_code("btc/usdt".to_string()),
        "event-1".to_string(),
        EventType::Update,
        data,
    )
}

#[test]
fn update_sets_replaces_and_removes_levels() {
    let mut data = book(&[(100, 5), (101, 7)], &[(99, 3)]);
    data.update(vec![book(&[(100, 0), (102, 4)], &[(99, 8), (98, 1)])]);
    assert_eq!(data.asks, side(&[(101, 7), (102, 4)]));
    assert_eq!(data.bids, side(&[(98, 1), (99, 8)]));
}

#[test]
fn update_with_no_updates_keeps_book() {
    let mut data = book(&[(100, 5)], &[(99, 3)]);
    data.update(vec![]);
    assert_eq!(data.asks, side(&[(100, 5)]));
    assert_eq!(data.bids, side(&[(99, 3)]));
}

#[test]
fn later_update_wins_on_a_level() {
    let mut data = book(&[], &[]);
    data.update(vec![
        book(&[(100, 5)], &[(90, 1)]),
        book(&[(100, 6)], &[(90, 0)]),
        book(&[(100, 0), (101, 2)], &[]),
    ]);
    assert_eq!(data.asks, side(&[(101, 2)]));
    assert!(data.bids.is_empty());
}

#[test]
fn removing_an_absent_level_changes_nothing() {
    let mut data = book(&[(100, 5)], &[]);
    data.update(vec![book(&[(200, 0)], &[(50, 0)])]);
    assert_eq!(data.asks, side(&[(100, 5)]));
    assert!(data.bids.is_empty());
}

#[test]
fn updates_in_batches_equal_one_batch() {
    let first = vec![book(&[(100, 5), (101, 1)], &[(99, 2)])];
    let second = vec![book(&[(101, 0)], &[(99, 4), (97, 1)])];
    let mut batched = book(&[(105, 9)], &[]);
    batched.update(first.clone());
    batched.update(second.clone());
    let mut joined = book(&[(105, 9)], &[]);
    let mut all = first;
    all.extend(second);
    joined.update(all);
    assert_eq!(batched.asks, joined.asks);
    assert_eq!(batched.bids, joined.bids);
}

#[test]
fn same_update_twice_is_same_as_once() {
    let update = book(&[(100, 0), (101, 3)], &[(95, 2)]);
    let mut once = book(&[(100, 1)], &[(95, 1)]);
    once.update(vec![update.clone()]);
    let mut twice = book(&[(100, 1)], &[(95, 1)]);
    twice.update(vec![update.clone(), update]);
    assert_eq!(once.asks, twice.asks);
    assert_eq!(once.bids, twice.bids);
}

#[test]
fn new_event_has_id_zero_and_given_fields() {
    let (id, time, account, pair, event_id, event_type, data) =
        event(book(&[(100, 5)], &[(99, 3)])).dissolve();
    assert_eq!(id, 0);
    assert_eq!(time, DateTime { secs: 1_600_000_000, nanos: 5 });
    assert_eq!(account.exchange_id, "Binance");
    assert_eq!(account.account_number, 0);
    assert_eq!(pair.code, "btc/usdt");
    assert_eq!(event_id, "event-1");
    assert_eq!(event_type, EventType::Update);
    assert_eq!(data.asks, side(&[(100, 5)]));
    assert_eq!(data.bids, side(&[(99, 3)]));
}

#[test]
fn apply_data_update_changes_only_data() {
    let mut e = event(book(&[(100, 5)], &[(99, 3)]));
    e.apply_data_update(vec![book(&[(100, 2)], &[(99, 0)])]);
    let (id, time, account, pair, event_id, event_type, data) = e.dissolve();
    assert_eq!(id, 0);
    assert_eq!(time, DateTime { secs: 1_600_000_000, nanos: 5 });
    assert_eq!(account.exchange_id, "Binance");
    assert_eq!(pair.code, "btc/usdt");
    assert_eq!(event_id, "event-1");
    assert_eq!(event_type, EventType::Update);
    assert_eq!(data.asks, side(&[(100, 2)]));
    assert!(data.bids.is_empty());
}

#[test]
fn request_types_compare_by_variant() {
    assert_eq!(RequestType::CreateOrder, RequestType::CreateOrder.clone());
    assert_ne!(RequestType::CreateOrder, RequestType::CancelOrder);
    assert_ne!(RequestType::GetMyTrades, RequestType::SetLeverage);
}

#[test]
fn event_types_are_distinct() {
    assert_ne!(EventType::Snapshot, EventType::Update);
}
