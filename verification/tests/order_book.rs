use okx_md::internal::{L2Increment, L2Snapshot, Side, SingleLot};
use okx_md::order_book::OrderBook;

const SCALE: i128 = 10_000_000_000_000_000;

fn lot(price: i128, amount: i128) -> SingleLot {
    SingleLot { price, amount }
}

fn snapshot(symbol: &str, bids: Vec<SingleLot>, asks: Vec<SingleLot>) -> L2Snapshot {
    L2Snapshot {
        exchange_time: Some(1_597_026_383_085),
        sequence_no: Some(7),
        symbol: symbol.to_string(),
        bids,
        asks,
    }
}

fn increment(symbol: &str, side: Side, price: i128, amount: i128, is_eot: bool) -> L2Increment {
    L2Increment {
        exchange_time: Some(1_597_026_383_085),
        sequence_no: Some(8),
        symbol: symbol.to_string(),
        side,
        price,
        amount,
        is_eot,
    }
}

#[test]
fn snapshot_replaces_both_sides_sorted() {
    let mut ob = OrderBook::new();
    ob.process_update(increment("BTC-USDT", Side::Bid, 99 * SCALE, SCALE, false));
    let snap = snapshot(
        "BTC-USDT",
        vec![lot(5 * SCALE, 2), lot(3 * SCALE, 1), lot(4 * SCALE, 7)],
        vec![lot(9 * SCALE, 4), lot(8 * SCALE, 6)],
    );
    ob.process_snapshot(snap);
    assert_eq!(
        ob.bids,
        vec![lot(3 * SCALE, 1), lot(4 * SCALE, 7), lot(5 * SCALE, 2)]
    );
    assert_eq!(ob.asks, vec![lot(8 * SCALE, 6), lot(9 * SCALE, 4)]);
}

#[test]
fn snapshot_drops_zero_amount_levels() {
    let mut ob = OrderBook::new();
    let snap = snapshot(
        "BTC-USDT",
        vec![lot(5 * SCALE, 0), lot(3 * SCALE, 1)],
        vec![lot(9 * SCALE, 0)],
    );
    ob.process_snapshot(snap);
    assert_eq!(ob.bids, vec![lot(3 * SCALE, 1)]);
    assert!(ob.asks.is_empty());
}

#[test]
fn snapshot_is_idempotent() {
    let snap = snapshot(
        "BTC-USDT",
        vec![lot(5 * SCALE, 2), lot(3 * SCALE, 1)],
        vec![lot(9 * SCALE, 4)],
    );
    let mut once = OrderBook::new();
    once.process_snapshot(snap.clone());
    let mut twice = OrderBook::new();
    twice.process_snapshot(snap.clone());
    twice.process_snapshot(snap);
    assert_eq!(once.bids, twice.bids);
    assert_eq!(once.asks, twice.asks);
}

#[test]
fn update_inserts_overwrites_and_removes() {
    let mut ob = OrderBook::new();
    ob.process_update(increment("BTC-USDT", Side::Bid, 5 * SCALE, 2, false));
    ob.process_update(increment("BTC-USDT", Side::Bid, 3 * SCALE, 1, false));
    ob.process_update(increment("BTC-USDT", Side::Bid, 5 * SCALE, 9, false));
    assert_eq!(ob.bids, vec![lot(3 * SCALE, 1), lot(5 * SCALE, 9)]);
    // a zero amount removes the level
    ob.process_update(increment("BTC-USDT", Side::Bid, 5 * SCALE, 0, false));
    assert_eq!(ob.bids, vec![lot(3 * SCALE, 1)]);
    // removing an absent level is not an error
    ob.process_update(increment("BTC-USDT", Side::Bid, 7 * SCALE, 0, true));
    assert_eq!(ob.bids, vec![lot(3 * SCALE, 1)]);
    assert!(ob.asks.is_empty());
}

#[test]
fn updates_never_store_zero_amounts() {
    let mut ob = OrderBook::new();
    let steps: Vec<(i128, i128)> = vec![(5, 2), (3, 0), (5, 0), (4, 1), (4, 0), (6, 3), (6, 3)];
    for (p, a) in steps {
        ob.process_update(increment("BTC-USDT", Side::Ask, p * SCALE, a, false));
        for l in &ob.asks {
            assert_ne!(l.amount, 0);
        }
    }
    assert_eq!(ob.asks, vec![lot(6 * SCALE, 3)]);
}

#[test]
fn best_bid_is_max_and_best_ask_is_min() {
    let mut ob = OrderBook::new();
    assert!(ob.best_bid().is_none());
    assert!(ob.best_ask().is_none());
    let snap = snapshot(
        "BTC-USDT",
        vec![lot(5 * SCALE, 2), lot(3 * SCALE, 1), lot(4 * SCALE, 7)],
        vec![lot(9 * SCALE, 4), lot(8 * SCALE, 6), lot(11 * SCALE, 1)],
    );
    ob.process_snapshot(snap);
    assert_eq!(ob.best_bid(), Some(lot(5 * SCALE, 2)));
    assert_eq!(ob.best_ask(), Some(lot(8 * SCALE, 6)));
}

#[test]
fn update_on_order_book_replaces_state() {
    let mut ob = OrderBook::new();
    ob.process_update(increment("BTC-USDT", Side::Bid, 5 * SCALE, 2, false));
    let mut fresh = OrderBook::new();
    fresh.process_update(increment("BTC-USDT", Side::Ask, 9 * SCALE, 4, false));
    ob.update_on_order_book(fresh);
    assert!(ob.bids.is_empty());
    assert_eq!(ob.asks, vec![lot(9 * SCALE, 4)]);
}

#[test]
fn eot_flag_does_not_change_state() {
    let mut with_eot = OrderBook::new();
    with_eot.process_update(increment("BTC-USDT", Side::Bid, 5 * SCALE, 2, true));
    let mut without_eot = OrderBook::new();
    without_eot.process_update(increment("BTC-USDT", Side::Bid, 5 * SCALE, 2, false));
    assert_eq!(with_eot.bids, without_eot.bids);
    assert_eq!(with_eot.asks, without_eot.asks);
}
