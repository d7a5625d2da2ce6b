use crate::common::{CurrencyPair, ExchangeAccountId};
use crate::order_book_data::{apply_all_levels, asks_of, bids_of, OrderBookData};
use crate::time::DateTime;
use vstd::prelude::*;

verus! {

/// Possible variants of an order book event.
#[derive(Clone, Copy, Debug, PartialEq, Eq, Structural)]
pub enum EventType {
    /// The full snapshot should be added to the local snapshots.
    Snapshot,
    /// The data should be applied to the suitable existing snapshot.
    Update,
}

/// Event to update a local snapshot.
#[derive(Clone, Debug)]
pub struct OrderBookEvent {
    id: u128,
    creation_time: DateTime,
    exchange_account_id: ExchangeAccountId,
    currency_pair: CurrencyPair,
    event_id: String,
    event_type: EventType,
    data: OrderBookData,
}

/// What an `OrderBookEvent` holds, as plain values.
pub struct OrderBookEventView {
    pub id: u128,
    pub creation_time: DateTime,
    pub exchange_id: Seq<char>,
    pub account_number: u8,
    pub currency_pair: Seq<char>,
    pub event_id: Seq<char>,
    pub event_type: EventType,
    pub asks: Map<u64, u64>,
    pub bids: Map<u64, u64>,
}

impl View for OrderBookEvent {
    type V = OrderBookEventView;

    closed spec fn view(&self) -> OrderBookEventView {
        OrderBookEventView {
            id: self.id,
            creation_time: self.creation_time,
            exchange_id: self.exchange_account_id.exchange_id@,
            account_number: self.exchange_account_id.account_number,
            currency_pair: self.currency_pair.code@,
            event_id: self.event_id@,
            event_type: self.event_type,
            asks: self.data.asks@,
            bids: self.data.bids@,
        }
    }
}

impl OrderBookEvent {
    /// A new event with id 0 and the given fields.
    pub fn new(
        creation_time: DateTime,
        exchange_account_id: ExchangeAccountId,
        currency_pair: CurrencyPair,
        event_id: String,
        event_type: EventType,
        data: OrderBookData,
    ) -> (r: OrderBookEvent)
        ensures
            r@.id == 0,
            r@.creation_time == creation_time,
            r@.exchange_id == exchange_account_id.exchange_id@,
            r@.account_number == exchange_account_id.account_number,
            r@.currency_pair == currency_pair.code@,
            r@.event_id == event_id@,
            r@.event_type == event_type,
            r@.asks == data.asks@,
            r@.bids == data.bids@,
    {
        OrderBookEvent {
            id: 0,
            creation_time,
            exchange_account_id,
            currency_pair,
            event_id,
            event_type,
            data,
        }
    }

    /// Updates the inner order book data: the updates are applied in order, and
    /// everything else in the event stays as it was.
    pub fn apply_data_update(&mut self, updates: Vec<OrderBookData>)
        ensures
            final(self)@.asks == apply_all_levels(old(self)@.asks, asks_of(updates@)),
            final(self)@.bids == apply_all_levels(old(self)@.bids, bids_of(updates@)),
            final(self)@.id == old(self)@.id,
            final(self)@.creation_time == old(self)@.creation_time,
            final(self)@.exchange_id == old(self)@.exchange_id,
            final(self)@.account_number == old(self)@.account_number,
            final(self)@.currency_pair == old(self)@.currency_pair,
            final(self)@.event_id == old(self)@.event_id,
            final(self)@.event_type == old(self)@.event_type,
    {
        self.data.update(updates);
    }

    /// Takes the event apart into its fields, in declaration order.
    pub fn dissolve(self) -> (r: (
        u128,
        DateTime,
        ExchangeAccountId,
        CurrencyPair,
        String,
        EventType,
        OrderBookData,
    ))
        ensures
            r.0 == self@.id,
            r.1 == self@.creation_time,
            r.2.exchange_id@ == self@.exchange_id,
            r.2.account_number == self@.account_number,
            r.3.code@ == self@.currency_pair,
            r.4@ == self@.event_id,
            r.5 == self@.event_type,
            r.6.asks@ == self@.asks,
            r.6.bids@ == self@.bids,
    {
        (
            self.id,
            self.creation_time,
            self.exchange_account_id,
            self.currency_pair,
            self.event_id,
            self.event_type,
            self.data,
        )
    }
}

} // verus!
