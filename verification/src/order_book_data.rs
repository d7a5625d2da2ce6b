use std::collections::BTreeMap;
use vstd::prelude::*;

verus! {

/// One side of a book: price level -> amount resting at that level.
///
/// Prices and amounts are counted in the smallest steps of the market, so a
/// level is found again by its integer price and the levels are walked in
/// increasing price order.
pub type SortedOrderData = BTreeMap<u64, u64>;

/// Asks and bids of an order book.
#[derive(Clone, Debug)]
pub struct OrderBookData {
    pub asks: SortedOrderData,
    pub bids: SortedOrderData,
}

/// The side `book` after the levels of one update were applied to it: a level
/// that the update names takes the update's amount, and disappears when that
/// amount is zero; every other level stays as it was.
pub open spec fn apply_levels(book: Map<u64, u64>, update: Map<u64, u64>) -> Map<u64, u64> {
    Map::new(
        |price: u64|
            if update.contains_key(price) {
                update[price] != 0
            } else {
                book.contains_key(price)
            },
        |price: u64|
            if update.contains_key(price) {
                update[price]
            } else {
                book[price]
            },
    )
}

/// The side `book` after the updates were applied in order.
pub open spec fn apply_all_levels(book: Map<u64, u64>, updates: Seq<Map<u64, u64>>) -> Map<
    u64,
    u64,
>
    decreases updates.len(),
{
    if updates.len() == 0 {
        book
    } else {
        apply_levels(apply_all_levels(book, updates.drop_last()), updates.last())
    }
}

/// The ask sides of a list of updates.
pub open spec fn asks_of(updates: Seq<OrderBookData>) -> Seq<Map<u64, u64>> {
    updates.map_values(|u: OrderBookData| u.asks@)
}

/// The bid sides of a list of updates.
pub open spec fn bids_of(updates: Seq<OrderBookData>) -> Seq<Map<u64, u64>> {
    updates.map_values(|u: OrderBookData| u.bids@)
}

/// No level of the side holds a zero amount.
pub open spec fn no_empty_levels(book: Map<u64, u64>) -> bool {
    forall|price: u64| #[trigger] book.contains_key(price) ==> book[price] != 0
}

/// Applying two lists of updates one after the other gives the same side as
/// applying the two lists joined into one.
pub proof fn lemma_updates_in_batches(
    book: Map<u64, u64>,
    first: Seq<Map<u64, u64>>,
    second: Seq<Map<u64, u64>>,
)
    ensures
        apply_all_levels(apply_all_levels(book, first), second) == apply_all_levels(
            book,
            first + second,
        ),
    decreases second.len(),
{
    if second.len() == 0 {
        assert(first + second =~= first);
    } else {
        lemma_updates_in_batches(book, first, second.drop_last());
        assert((first + second).drop_last() =~= first + second.drop_last());
        assert((first + second).last() == second.last());
    }
}

/// A side that holds no empty level still holds none after any updates: a zero
/// amount in an update removes the level instead of storing it.
pub proof fn lemma_updates_keep_levels_nonempty(book: Map<u64, u64>, updates: Seq<Map<u64, u64>>)
    requires
        no_empty_levels(book),
    ensures
        no_empty_levels(apply_all_levels(book, updates)),
    decreases updates.len(),
{
    if updates.len() > 0 {
        lemma_updates_keep_levels_nonempty(book, updates.drop_last());
    }
}

/// Applying the same update a second time changes nothing.
pub proof fn lemma_update_idempotent(book: Map<u64, u64>, update: Map<u64, u64>)
    ensures
        apply_levels(apply_levels(book, update), update) == apply_levels(book, update),
{
    assert(apply_levels(apply_levels(book, update), update) =~= apply_levels(book, update));
}

/// After an update, each level that it names holds the update's amount when that
/// amount is not zero, and is gone when it is; each level it does not name is as
/// it was.
pub proof fn lemma_update_sets_named_levels(book: Map<u64, u64>, update: Map<u64, u64>, price: u64)
    ensures
        update.contains_key(price) && update[price] != 0 ==> apply_levels(book, update).contains_key(
            price,
        ) && apply_levels(book, update)[price] == update[price],
        update.contains_key(price) && update[price] == 0 ==> !apply_levels(
            book,
            update,
        ).contains_key(price),
        !update.contains_key(price) ==> (apply_levels(book, update).contains_key(price)
            == book.contains_key(price)) && (book.contains_key(price) ==> apply_levels(
            book,
            update,
        )[price] == book[price]),
{
}

spec fn keys_seen(levels: Seq<(&u64, &u64)>, n: int) -> Set<u64> {
    Set::new(|price: u64| exists|i: int| 0 <= i < n && #[trigger] levels[i].0 == price)
}

impl OrderBookData {
    /// Book with the given sides.
    pub fn new(asks: SortedOrderData, bids: SortedOrderData) -> (r: Self)
        ensures
            r.asks@ == asks@,
            r.bids@ == bids@,
    {
        OrderBookData { asks, bids }
    }

    /// Applies the updates to asks and bids, one after another.
    pub fn update(&mut self, updates: Vec<OrderBookData>)
        ensures
            final(self).asks@ == apply_all_levels(old(self).asks@, asks_of(updates@)),
            final(self).bids@ == apply_all_levels(old(self).bids@, bids_of(updates@)),
    {
        let n = updates.len();
        let mut i: usize = 0;
        while i < n
            invariant
                n == updates@.len(),
                i <= n,
                self.asks@ == apply_all_levels(old(self).asks@, asks_of(updates@.take(i as int))),
                self.bids@ == apply_all_levels(old(self).bids@, bids_of(updates@.take(i as int))),
            decreases n - i,
        {
            let update = &updates[i];
            Self::apply_update(&mut self.asks, &update.asks);
            Self::apply_update(&mut self.bids, &update.bids);
            proof {
                let next = updates@.take(i + 1);
                assert(next.drop_last() =~= updates@.take(i as int));
                assert(asks_of(next).drop_last() =~= asks_of(next.drop_last()));
                assert(bids_of(next).drop_last() =~= bids_of(next.drop_last()));
            }
            i = i + 1;
        }
        proof {
            assert(updates@.take(n as int) =~= updates@);
        }
    }

    fn apply_update(book: &mut SortedOrderData, update: &SortedOrderData)
        ensures
            final(book)@ == apply_levels(old(book)@, update@),
    {
        let ghost book0 = book@;
        let ghost mut seen: Set<u64> = Set::empty();
        for level in it: update.iter()
            invariant
                seen == keys_seen(it.seq(), it.index()),
                book@ == apply_levels(book0, update@.restrict(seen)),
                it.index() == it.seq().len() ==> seen == update@.dom(),
                forall|price: u64| #[trigger]
                    update@.contains_key(price) ==> it.seq().contains((&price, &update@[price])),
                forall|i: int|
                    0 <= i < it.seq().len() ==> update@.contains_key(*(#[trigger] it.seq()[i]).0),
        {
            let (price, amount) = level;
            if *amount == 0 {
                let _ = book.remove(price);
            } else {
                let _ = book.insert(*price, *amount);
            }
            proof {
                seen = seen.insert(*price);
            }
            proof {
                assert forall|p: u64|
                    it.index() == it.seq().len() && update@.contains_key(p) implies seen.contains(
                    p,
                ) by {
                    assert(it.seq().contains((&p, &update@[p])));
                    let j = choose|j: int|
                        0 <= j < it.seq().len() && it.seq()[j] == (&p, &update@[p]);
                    assert(it.seq()[j].0 == p);
                }
                assert(it.index() == it.seq().len() ==> seen =~= update@.dom());
            }
        }
        proof {
            assert(update@.restrict(seen) =~= update@);
        }
    }
}

} // verus!
