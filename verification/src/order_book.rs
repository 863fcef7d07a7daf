//! Per-instrument order-book state.
//!
//! Each side of a book is a vector of depth levels kept strictly ascending by
//! price and free of zero amounts; a level removal is expressed as deletion,
//! never as a zero-valued entry. The abstract value of a side is the map from
//! price to amount (`side_map`), and an [`OrderBook`]'s view is the pair of
//! those maps.

use vstd::prelude::*;
use vstd::assert_seqs_equal;
use vstd::map::*;

use crate::basic_types::{Amount, Price};
use crate::internal::{L2Increment, L2Snapshot, Side, SingleLot};

verus! {

/// Prices strictly increase along the side.
pub open spec fn side_sorted(s: Seq<SingleLot>) -> bool {
    forall|i: int, j: int| 0 <= i < j < s.len() ==> s[i].price < s[j].price
}

/// No stored level has amount exactly zero.
pub open spec fn side_no_zero(s: Seq<SingleLot>) -> bool {
    forall|i: int| 0 <= i < s.len() ==> s[i].amount != 0
}

/// Well-formed side: sorted ascending by price, no zero amounts.
pub open spec fn side_wf(s: Seq<SingleLot>) -> bool {
    side_sorted(s) && side_no_zero(s)
}

/// Some level of `s` sits at price `q`.
pub open spec fn has_price(s: Seq<SingleLot>, q: Price) -> bool {
    exists|i: int| 0 <= i < s.len() && s[i].price == q
}

/// The price-to-amount map a side represents.
pub open spec fn side_map(s: Seq<SingleLot>) -> Map<Price, Amount>
    decreases s.len(),
{
    if s.len() == 0 {
        Map::empty()
    } else {
        side_map(s.skip(1)).insert(s[0].price, s[0].amount)
    }
}

/// The side after one upsert-or-delete: amount zero deletes the price level
/// (a no-op when absent), any other amount inserts or overwrites it, keeping
/// the side sorted.
pub open spec fn spec_upsert(s: Seq<SingleLot>, price: Price, amount: Amount) -> Seq<SingleLot>
    decreases s.len(),
{
    if s.len() == 0 {
        if amount == 0 {
            s
        } else {
            seq![SingleLot { price, amount }]
        }
    } else if s[0].price < price {
        seq![s[0]] + spec_upsert(s.skip(1), price, amount)
    } else if s[0].price == price {
        if amount == 0 {
            s.skip(1)
        } else {
            seq![SingleLot { price, amount }] + s.skip(1)
        }
    } else {
        if amount == 0 {
            s
        } else {
            seq![SingleLot { price, amount }] + s
        }
    }
}

/// The side a snapshot's level list denotes: levels applied left to right,
/// zero-amount levels skipped, a later level overwriting an earlier one at
/// the same price.
pub open spec fn spec_build_side(lots: Seq<SingleLot>) -> Seq<SingleLot>
    decreases lots.len(),
{
    if lots.len() == 0 {
        Seq::empty()
    } else {
        let prev = spec_build_side(lots.drop_last());
        let l = lots.last();
        if l.amount == 0 {
            prev
        } else {
            spec_upsert(prev, l.price, l.amount)
        }
    }
}

/// The price-to-amount map a snapshot's level list denotes.
pub open spec fn snap_map(lots: Seq<SingleLot>) -> Map<Price, Amount>
    decreases lots.len(),
{
    if lots.len() == 0 {
        Map::empty()
    } else {
        let prev = snap_map(lots.drop_last());
        let l = lots.last();
        if l.amount == 0 {
            prev
        } else {
            prev.insert(l.price, l.amount)
        }
    }
}

/// Membership in `side_map` is exactly having a level at that price.
pub proof fn lemma_side_map_dom(s: Seq<SingleLot>)
    ensures
        forall|q: Price| #[trigger] side_map(s).dom().contains(q) <==> has_price(s, q),
    decreases s.len(),
{
    if s.len() == 0 {
    } else {
        lemma_side_map_dom(s.skip(1));
        assert forall|q: Price| #[trigger] side_map(s).dom().contains(q) implies has_price(s, q) by {
            if q == s[0].price {
                assert(s[0].price == q);
            } else {
                assert(side_map(s.skip(1)).dom().contains(q));
                assert(has_price(s.skip(1), q));
                let i = choose|i: int| 0 <= i < s.skip(1).len() && s.skip(1)[i].price == q;
                assert(s.skip(1)[i] == s[i + 1]);
                assert(s[i + 1].price == q);
            }
        }
        assert forall|q: Price| has_price(s, q) implies #[trigger] side_map(s).dom().contains(q) by {
            let i = choose|i: int| 0 <= i < s.len() && s[i].price == q;
            if i > 0 {
                assert(s.skip(1)[i - 1] == s[i]);
                assert(has_price(s.skip(1), q));
                assert(side_map(s.skip(1)).dom().contains(q));
            }
        }
    }
}

/// Every price of the upserted side comes from the old side or is the
/// upserted price; with a non-zero amount the upserted price is present.
pub proof fn lemma_upsert_prices(s: Seq<SingleLot>, price: Price, amount: Amount)
    ensures
        forall|q: Price| #[trigger] has_price(spec_upsert(s, price, amount), q)
            ==> has_price(s, q) || q == price,
    decreases s.len(),
{
    let t = spec_upsert(s, price, amount);
    if s.len() == 0 {
        assert forall|q: Price| #[trigger] has_price(t, q) implies has_price(s, q) || q == price by {
            let i = choose|i: int| 0 <= i < t.len() && t[i].price == q;
        }
    } else if s[0].price < price {
        lemma_upsert_prices(s.skip(1), price, amount);
        let rest = spec_upsert(s.skip(1), price, amount);
        assert forall|q: Price| #[trigger] has_price(t, q) implies has_price(s, q) || q == price by {
            let i = choose|i: int| 0 <= i < t.len() && t[i].price == q;
            if i == 0 {
                assert(s[0].price == q);
            } else {
                assert(rest[i - 1].price == q);
                assert(has_price(rest, q));
                if has_price(s.skip(1), q) {
                    let j = choose|j: int| 0 <= j < s.skip(1).len() && s.skip(1)[j].price == q;
                    assert(s[j + 1].price == q);
                }
            }
        }
    } else {
        assert forall|q: Price| #[trigger] has_price(t, q) implies has_price(s, q) || q == price by {
            let i = choose|i: int| 0 <= i < t.len() && t[i].price == q;
            if s[0].price == price {
                if amount == 0 {
                    assert(s[i + 1].price == q);
                } else {
                    if i > 0 {
                        assert(s[i].price == q);
                    }
                }
            } else {
                if amount != 0 {
                    if i > 0 {
                        assert(s[i - 1].price == q);
                    }
                }
            }
        }
    }
}

/// Upserting keeps a side well formed.
pub proof fn lemma_upsert_wf(s: Seq<SingleLot>, price: Price, amount: Amount)
    requires
        side_wf(s),
    ensures
        side_wf(spec_upsert(s, price, amount)),
    decreases s.len(),
{
    let t = spec_upsert(s, price, amount);
    if s.len() == 0 {
    } else if s[0].price < price {
        assert(side_wf(s.skip(1)));
        lemma_upsert_wf(s.skip(1), price, amount);
        lemma_upsert_prices(s.skip(1), price, amount);
        let rest = spec_upsert(s.skip(1), price, amount);
        assert forall|i: int, j: int| 0 <= i < j < t.len() implies t[i].price < t[j].price by {
            if i == 0 {
                assert(t[j] == rest[j - 1]);
                assert(has_price(rest, rest[j - 1].price));
            }
        }
        assert(side_no_zero(t));
    } else if s[0].price == price {
        assert(side_wf(s.skip(1)));
        if amount != 0 {
            assert forall|i: int, j: int| 0 <= i < j < t.len() implies t[i].price < t[j].price by {
                if i == 0 {
                    assert(t[j] == s[j]);
                }
            }
        }
    } else {
        if amount != 0 {
            assert forall|i: int, j: int| 0 <= i < j < t.len() implies t[i].price < t[j].price by {
                if i == 0 {
                    assert(t[j] == s[j - 1]);
                }
            }
        }
    }
}

/// At the level of maps, an upsert is exactly `insert` (non-zero amount) or
/// `remove` (zero amount) at the given price.
pub proof fn lemma_upsert_map(s: Seq<SingleLot>, price: Price, amount: Amount)
    requires
        side_sorted(s),
    ensures
        side_map(spec_upsert(s, price, amount)) == if amount == 0 {
            side_map(s).remove(price)
        } else {
            side_map(s).insert(price, amount)
        },
    decreases s.len(),
{
    let t = spec_upsert(s, price, amount);
    lemma_side_map_dom(s);
    if s.len() == 0 {
        if amount == 0 {
            assert(side_map(t) =~= side_map(s).remove(price));
        } else {
            assert(t.len() == 1 && t[0] == SingleLot { price, amount });
            assert(t.skip(1) =~= Seq::<SingleLot>::empty());
            assert(side_map(Seq::<SingleLot>::empty()) == Map::<Price, Amount>::empty());
            assert(side_map(t) =~= side_map(s).insert(price, amount));
        }
    } else if s[0].price < price {
        assert(side_sorted(s.skip(1)));
        lemma_upsert_map(s.skip(1), price, amount);
        let rest = spec_upsert(s.skip(1), price, amount);
        assert(t.skip(1) =~= rest);
        assert(t[0] == s[0]);
        assert(side_map(t) == side_map(rest).insert(s[0].price, s[0].amount));
        if amount == 0 {
            assert(side_map(t) =~= side_map(s).remove(price));
        } else {
            assert(side_map(rest) == side_map(s.skip(1)).insert(price, amount));
            assert_maps_equal!(side_map(t), side_map(s).insert(price, amount), k => {
                if k == s[0].price {
                } else if k == price {
                }
            });
        }
    } else if s[0].price == price {
        lemma_side_map_dom(s.skip(1));
        assert(!has_price(s.skip(1), price)) by {
            if has_price(s.skip(1), price) {
                let i = choose|i: int| 0 <= i < s.skip(1).len() && s.skip(1)[i].price == price;
                assert(s[0].price < s[i + 1].price);
            }
        }
        if amount == 0 {
            assert(side_map(t) =~= side_map(s).remove(price));
        } else {
            assert(t.skip(1) =~= s.skip(1));
            assert(side_map(t) == side_map(s.skip(1)).insert(price, amount));
            assert_maps_equal!(side_map(t), side_map(s).insert(price, amount), k => {
                if k == price {
                }
            });
        }
    } else {
        assert(!has_price(s, price)) by {
            if has_price(s, price) {
                let i = choose|i: int| 0 <= i < s.len() && s[i].price == price;
                if i > 0 {
                    assert(s[0].price < s[i].price);
                }
            }
        }
        if amount == 0 {
            assert(side_map(t) =~= side_map(s).remove(price));
        } else {
            assert(t.skip(1) =~= s);
            assert(side_map(t) =~= side_map(s).insert(price, amount));
        }
    }
}

/// A built side is well formed.
pub proof fn lemma_build_side_wf(lots: Seq<SingleLot>)
    ensures
        side_wf(spec_build_side(lots)),
    decreases lots.len(),
{
    if lots.len() == 0 {
    } else {
        lemma_build_side_wf(lots.drop_last());
        if lots.last().amount != 0 {
            lemma_upsert_wf(spec_build_side(lots.drop_last()), lots.last().price, lots.last().amount);
        }
    }
}

/// A built side represents exactly the snapshot's map.
pub proof fn lemma_build_side_map(lots: Seq<SingleLot>)
    ensures
        side_map(spec_build_side(lots)) == snap_map(lots),
    decreases lots.len(),
{
    if lots.len() == 0 {
    } else {
        lemma_build_side_map(lots.drop_last());
        lemma_build_side_wf(lots.drop_last());
        if lots.last().amount != 0 {
            lemma_upsert_map(spec_build_side(lots.drop_last()), lots.last().price, lots.last().amount);
        }
    }
}

/// Abstract value of an order book: one price-to-amount map per side.
pub ghost struct BookView {
    pub bids: Map<Price, Amount>,
    pub asks: Map<Price, Amount>,
}

/// No side of the view holds a zero amount.
pub open spec fn view_no_zero(b: BookView) -> bool {
    &&& forall|p: Price| #[trigger] b.bids.dom().contains(p) ==> b.bids[p] != 0
    &&& forall|p: Price| #[trigger] b.asks.dom().contains(p) ==> b.asks[p] != 0
}

/// The view after a full snapshot replaces both sides; it does not depend on
/// the state the snapshot is applied to.
pub open spec fn spec_on_snapshot(b: BookView, snapshot: L2Snapshot) -> BookView {
    BookView { bids: snap_map(snapshot.bids@), asks: snap_map(snapshot.asks@) }
}

/// The view after one incremental upsert-or-delete.
pub open spec fn spec_on_update(b: BookView, update: L2Increment) -> BookView {
    match update.side {
        Side::Bid => BookView {
            bids: if update.amount == 0 {
                b.bids.remove(update.price)
            } else {
                b.bids.insert(update.price, update.amount)
            },
            asks: b.asks,
        },
        Side::Ask => BookView {
            bids: b.bids,
            asks: if update.amount == 0 {
                b.asks.remove(update.price)
            } else {
                b.asks.insert(update.price, update.amount)
            },
        },
    }
}

/// Per-instrument bid/ask state. Both sides are strictly ascending by price;
/// best bid is the last bid, best ask is the first ask.
#[derive(Debug, PartialEq, Eq)]
pub struct OrderBook {
    pub bids: Vec<SingleLot>,
    pub asks: Vec<SingleLot>,
}

impl View for OrderBook {
    type V = BookView;

    open spec fn view(&self) -> BookView {
        BookView { bids: side_map(self.bids@), asks: side_map(self.asks@) }
    }
}

impl OrderBook {
    /// Both sides well formed.
    pub open spec fn wf(self) -> bool {
        side_wf(self.bids@) && side_wf(self.asks@)
    }

    /// An empty book.
    pub fn new() -> (r: Self)
        ensures
            r.bids@ == Seq::<SingleLot>::empty(),
            r.asks@ == Seq::<SingleLot>::empty(),
            r.wf(),
            r@.bids == Map::<Price, Amount>::empty(),
            r@.asks == Map::<Price, Amount>::empty(),
    {
        Self { bids: Vec::new(), asks: Vec::new() }
    }

    /// Wholesale replacement of this book's state by another book's.
    pub fn update_on_order_book(&mut self, ob: OrderBook)
        ensures
            final(self).bids@ == ob.bids@,
            final(self).asks@ == ob.asks@,
            final(self)@ == ob@,
            ob.wf() ==> final(self).wf(),
    {
        self.bids = ob.bids;
        self.asks = ob.asks;
    }

    /// Replaces both sides with the snapshot's levels, dropping any level
    /// whose amount is exactly zero. The result does not depend on the prior
    /// state of the book.
    pub fn process_snapshot(&mut self, snapshot: L2Snapshot)
        ensures
            final(self).bids@ == spec_build_side(snapshot.bids@),
            final(self).asks@ == spec_build_side(snapshot.asks@),
            final(self)@ == spec_on_snapshot(old(self)@, snapshot),
            final(self).wf(),
    {
        self.bids = build_side(&snapshot.bids);
        self.asks = build_side(&snapshot.asks);
        proof {
            lemma_build_side_map(snapshot.bids@);
            lemma_build_side_map(snapshot.asks@);
        }
    }

    /// Applies one upsert-or-delete to the side the increment names; the
    /// other side is untouched. `is_eot` has no effect on the state.
    pub fn process_update(&mut self, update: L2Increment)
        requires
            old(self).wf(),
        ensures
            final(self).wf(),
            final(self)@ == spec_on_update(old(self)@, update),
            match update.side {
                Side::Bid => {
                    &&& final(self).bids@ == spec_upsert(old(self).bids@, update.price, update.amount)
                    &&& final(self).asks@ == old(self).asks@
                },
                Side::Ask => {
                    &&& final(self).asks@ == spec_upsert(old(self).asks@, update.price, update.amount)
                    &&& final(self).bids@ == old(self).bids@
                },
            },
    {
        match update.side {
            Side::Bid => {
                side_upsert(&mut self.bids, update.price, update.amount);
                proof {
                    lemma_upsert_map(old(self).bids@, update.price, update.amount);
                }
            }
            Side::Ask => {
                side_upsert(&mut self.asks, update.price, update.amount);
                proof {
                    lemma_upsert_map(old(self).asks@, update.price, update.amount);
                }
            }
        }
    }

    /// The best (highest-priced) bid level, `None` on an empty bid side.
    pub fn best_bid(&self) -> (r: Option<SingleLot>)
        requires
            self.wf(),
        ensures
            match r {
                Option::None => self.bids@.len() == 0,
                Option::Some(lot) => {
                    &&& self.bids@.len() > 0
                    &&& lot == self.bids@.last()
                    &&& self@.bids.dom().contains(lot.price)
                    &&& forall|q: Price| #[trigger] self@.bids.dom().contains(q) ==> q <= lot.price
                },
            },
    {
        proof {
            lemma_side_map_dom(self.bids@);
        }
        if self.bids.len() == 0 {
            None
        } else {
            let lot = self.bids[self.bids.len() - 1];
            proof {
                assert(has_price(self.bids@, lot.price));
                assert forall|q: Price| #[trigger] self@.bids.dom().contains(q) implies q <= lot.price by {
                    let i = choose|i: int| 0 <= i < self.bids@.len() && self.bids@[i].price == q;
                }
            }
            Some(lot)
        }
    }

    /// The best (lowest-priced) ask level, `None` on an empty ask side.
    pub fn best_ask(&self) -> (r: Option<SingleLot>)
        requires
            self.wf(),
        ensures
            match r {
                Option::None => self.asks@.len() == 0,
                Option::Some(lot) => {
                    &&& self.asks@.len() > 0
                    &&& lot == self.asks@.first()
                    &&& self@.asks.dom().contains(lot.price)
                    &&& forall|q: Price| #[trigger] self@.asks.dom().contains(q) ==> q >= lot.price
                },
            },
    {
        proof {
            lemma_side_map_dom(self.asks@);
        }
        if self.asks.len() == 0 {
            None
        } else {
            let lot = self.asks[0];
            proof {
                assert(has_price(self.asks@, lot.price));
                assert forall|q: Price| #[trigger] self@.asks.dom().contains(q) implies q >= lot.price by {
                    let i = choose|i: int| 0 <= i < self.asks@.len() && self.asks@[i].price == q;
                }
            }
            Some(lot)
        }
    }
}

/// Snapshot idempotence: applying the same snapshot twice leaves a book in
/// the same state as applying it once, because the state after a snapshot
/// does not depend on the state it was applied to.
pub proof fn lemma_snapshot_idempotent(b: BookView, snapshot: L2Snapshot)
    ensures
        spec_on_snapshot(spec_on_snapshot(b, snapshot), snapshot) == spec_on_snapshot(b, snapshot),
{
}

/// The book after a sequence of incremental updates, applied in order.
pub open spec fn spec_apply_updates(b: BookView, updates: Seq<L2Increment>) -> BookView
    decreases updates.len(),
{
    if updates.len() == 0 {
        b
    } else {
        spec_apply_updates(spec_on_update(b, updates[0]), updates.skip(1))
    }
}

/// One incremental update never leaves a zero amount behind.
pub proof fn lemma_on_update_no_zero(b: BookView, update: L2Increment)
    requires
        view_no_zero(b),
    ensures
        view_no_zero(spec_on_update(b, update)),
{
}

/// Zero-amount invariant: no sequence of incremental updates ever leaves a
/// price level with amount exactly zero in either side of a book.
pub proof fn lemma_no_zero_after_updates(b: BookView, updates: Seq<L2Increment>)
    requires
        view_no_zero(b),
    ensures
        view_no_zero(spec_apply_updates(b, updates)),
    decreases updates.len(),
{
    if updates.len() > 0 {
        lemma_on_update_no_zero(b, updates[0]);
        lemma_no_zero_after_updates(spec_on_update(b, updates[0]), updates.skip(1));
    }
}

/// A well-formed side represents a map without zero amounts.
pub proof fn lemma_side_wf_no_zero(s: Seq<SingleLot>)
    requires
        side_wf(s),
    ensures
        forall|p: Price| #[trigger] side_map(s).dom().contains(p) ==> side_map(s)[p] != 0,
    decreases s.len(),
{
    if s.len() > 0 {
        assert(side_wf(s.skip(1)));
        lemma_side_wf_no_zero(s.skip(1));
        assert forall|p: Price| #[trigger] side_map(s).dom().contains(p) implies side_map(s)[p]
            != 0 by {
            if p == s[0].price {
                assert(s[0].amount != 0);
            } else {
                assert(side_map(s.skip(1)).dom().contains(p));
            }
        }
    }
}

/// The view of a well-formed book satisfies the zero-amount invariant.
pub proof fn lemma_wf_view_no_zero(book: OrderBook)
    requires
        book.wf(),
    ensures
        view_no_zero(book@),
{
    lemma_side_wf_no_zero(book.bids@);
    lemma_side_wf_no_zero(book.asks@);
}

/// `spec_upsert` in terms of the insertion point: with `i` the first index
/// whose price is not below the upserted price, the upsert is an update,
/// removal, insertion, or no-op at `i`.
proof fn lemma_upsert_at(s: Seq<SingleLot>, price: Price, amount: Amount, i: int)
    requires
        side_sorted(s),
        0 <= i <= s.len(),
        forall|j: int| 0 <= j < i ==> s[j].price < price,
        i < s.len() ==> s[i].price >= price,
    ensures
        spec_upsert(s, price, amount) == if i < s.len() && s[i].price == price {
            if amount == 0 {
                s.remove(i)
            } else {
                s.update(i, SingleLot { price, amount })
            }
        } else {
            if amount == 0 {
                s
            } else {
                s.insert(i, SingleLot { price, amount })
            }
        },
    decreases s.len(),
{
    let lot = SingleLot { price, amount };
    if i == 0 {
        if s.len() == 0 {
            if amount != 0 {
                assert(spec_upsert(s, price, amount) =~= s.insert(0, lot));
            }
        } else if s[0].price == price {
            if amount == 0 {
                assert(s.skip(1) =~= s.remove(0));
            } else {
                assert(seq![lot] + s.skip(1) =~= s.update(0, lot));
            }
        } else {
            assert(s[0].price > price);
            if amount != 0 {
                assert(seq![lot] + s =~= s.insert(0, lot));
            }
        }
    } else {
        assert(s[0].price < price);
        let rest = s.skip(1);
        assert(side_sorted(rest));
        assert forall|j: int| 0 <= j < i - 1 implies rest[j].price < price by {
            assert(rest[j] == s[j + 1]);
        }
        lemma_upsert_at(rest, price, amount, i - 1);
        if i < s.len() && s[i].price == price {
            assert(rest[i - 1].price == price);
            if amount == 0 {
                assert(seq![s[0]] + rest.remove(i - 1) =~= s.remove(i));
            } else {
                assert(seq![s[0]] + rest.update(i - 1, lot) =~= s.update(i, lot));
            }
        } else {
            if amount == 0 {
                assert(seq![s[0]] + rest =~= s);
            } else {
                assert(seq![s[0]] + rest.insert(i - 1, lot) =~= s.insert(i, lot));
            }
        }
    }
}

/// Applies one upsert-or-delete to a single well-formed side.
pub fn side_upsert(side: &mut Vec<SingleLot>, price: Price, amount: Amount)
    requires
        side_wf(old(side)@),
    ensures
        final(side)@ == spec_upsert(old(side)@, price, amount),
        side_wf(final(side)@),
{
    proof {
        lemma_upsert_wf(old(side)@, price, amount);
    }
    let ghost s0 = side@;
    let mut i: usize = 0;
    while i < side.len() && side[i].price < price
        invariant
            side@ == s0,
            0 <= i <= s0.len(),
            forall|j: int| 0 <= j < i ==> s0[j].price < price,
        decreases s0.len() - i,
    {
        i = i + 1;
    }
    proof {
        lemma_upsert_at(s0, price, amount, i as int);
    }
    if i < side.len() && side[i].price == price {
        if amount == 0 {
            side.remove(i);
        } else {
            side[i] = SingleLot { price, amount };
        }
    } else {
        if amount != 0 {
            side.insert(i, SingleLot { price, amount });
        }
    }
}

/// Builds one well-formed side from a snapshot's level list.
pub fn build_side(lots: &Vec<SingleLot>) -> (r: Vec<SingleLot>)
    ensures
        r@ == spec_build_side(lots@),
        side_wf(r@),
{
    let mut acc: Vec<SingleLot> = Vec::new();
    let mut k: usize = 0;
    proof {
        assert(lots@.take(0) =~= Seq::<SingleLot>::empty());
    }
    while k < lots.len()
        invariant
            0 <= k <= lots@.len(),
            acc@ == spec_build_side(lots@.take(k as int)),
            side_wf(acc@),
        decreases lots@.len() - k,
    {
        let l = lots[k];
        proof {
            assert(lots@.take(k + 1).drop_last() =~= lots@.take(k as int));
            assert(lots@.take(k + 1).last() == l);
        }
        if l.amount != 0 {
            side_upsert(&mut acc, l.price, l.amount);
        }
        k = k + 1;
    }
    proof {
        assert(lots@.take(lots@.len() as int) =~= lots@);
    }
    acc
}

} // verus!
