use okx_md::internal::{L2Increment, L2Snapshot, MdMessage, Side, SingleLot};
use okx_md::order_book::OrderBook;
use okx_md::storage::Storage;

fn lot(price: i128, amount: i128) -> SingleLot {
    SingleLot { price, amount }
}

fn snapshot_msg(symbol: &str, bids: Vec<SingleLot>, asks: Vec<SingleLot>) -> MdMessage {
    MdMessage::L2Snapshot(L2Snapshot {
        exchange_time: None,
        sequence_no: None,
        symbol: symbol.to_string(),
        bids,
        asks,
    })
}

fn increment_msg(symbol: &str, side: Side, price: i128, amount: i128) -> MdMessage {
    MdMessage::L2Increment(L2Increment {
        exchange_time: None,
        sequence_no: None,
        symbol: symbol.to_string(),
        side,
        price,
        amount,
        is_eot: false,
    })
}

fn book_of<'a>(storage: &'a Storage, symbol: &str) -> Option<&'a OrderBook> {
    storage
        .books
        .iter()
        .find(|(s, _)| s == symbol)
        .map(|(_, b)| b)
}

#[test]
fn events_create_books_lazily() {
    let mut storage = Storage::new();
    assert!(book_of(&storage, "BTC-USDT").is_none());
    storage.on_ws_update(increment_msg("BTC-USDT", Side::Bid, 5, 2));
    let book = book_of(&storage, "BTC-USDT").unwrap();
    assert_eq!(book.bids, vec![lot(5, 2)]);
}

#[test]
fn updates_never_touch_another_instruments_book() {
    let mut storage = Storage::new();
    storage.on_ws_update(snapshot_msg(
        "BTC-USDT",
        vec![lot(5, 2)],
        vec![lot(9, 4)],
    ));
    let before_bids = book_of(&storage, "BTC-USDT").unwrap().bids.clone();
    let before_asks = book_of(&storage, "BTC-USDT").unwrap().asks.clone();

    storage.on_ws_update(increment_msg("ETH-USDT", Side::Bid, 3, 1));
    storage.on_ws_update(snapshot_msg("ETH-USDT", vec![lot(7, 7)], vec![]));

    let btc = book_of(&storage, "BTC-USDT").unwrap();
    assert_eq!(btc.bids, before_bids);
    assert_eq!(btc.asks, before_asks);
    let eth = book_of(&storage, "ETH-USDT").unwrap();
    assert_eq!(eth.bids, vec![lot(7, 7)]);
}

#[test]
fn routing_dispatches_snapshots_and_increments() {
    let mut storage = Storage::new();
    storage.on_ws_update(snapshot_msg("BTC-USDT", vec![lot(5, 2)], vec![]));
    storage.on_ws_update(increment_msg("BTC-USDT", Side::Bid, 3, 1));
    storage.on_ws_update(increment_msg("BTC-USDT", Side::Bid, 5, 0));
    let book = book_of(&storage, "BTC-USDT").unwrap();
    assert_eq!(book.bids, vec![lot(3, 1)]);
}

#[test]
fn on_order_book_replaces_wholesale() {
    let mut storage = Storage::new();
    storage.on_ws_update(snapshot_msg("BTC-USDT", vec![lot(5, 2)], vec![]));
    let mut replacement = OrderBook::new();
    replacement.process_update(L2Increment {
        exchange_time: None,
        sequence_no: None,
        symbol: "BTC-USDT".to_string(),
        side: Side::Ask,
        price: 9,
        amount: 4,
        is_eot: false,
    });
    storage.on_order_book("BTC-USDT".to_string(), replacement);
    let book = book_of(&storage, "BTC-USDT").unwrap();
    assert!(book.bids.is_empty());
    assert_eq!(book.asks, vec![lot(9, 4)]);
    // seeding an unseen symbol creates its entry
    storage.on_order_book("ETH-USDT".to_string(), OrderBook::new());
    assert!(book_of(&storage, "ETH-USDT").is_some());
}
