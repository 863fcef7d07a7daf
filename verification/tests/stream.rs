use okx_md::internal::{MdMessage, Side, SingleLot};
use okx_md::okex_model::{EventType, OkexBookLevel, OkexOrderBookSnapshot, OkexWsMessage, WsRequest};
use okx_md::okex_stream::{OkexStream, OkexStreamKind};
use okx_md::ws_client::WsMessage;

fn level(price: i128, amount: i128) -> OkexBookLevel {
    OkexBookLevel {
        price,
        amount,
        deprecated: "0".to_string(),
        orders_number: "1".to_string(),
    }
}

#[test]
fn subscribe_requests_batch_all_tickers_on_the_books_channel() {
    let stream = OkexStream {
        tickers: vec!["BTC-USDT".to_string(), "ETH-USDT".to_string()],
        kind: OkexStreamKind::L2Update,
    };
    assert_eq!(stream.kind(), OkexStreamKind::L2Update);
    let requests = stream.subscribe_requests();
    assert_eq!(requests.len(), 1);
    assert_eq!(requests[0].op, EventType::Subscribe);
    let args = &requests[0].args;
    assert_eq!(args.len(), 2);
    assert_eq!(args[0].channel, "books");
    assert_eq!(args[0].inst_id, "BTC-USDT");
    assert_eq!(args[1].channel, "books");
    assert_eq!(args[1].inst_id, "ETH-USDT");
}

#[test]
fn new_subscribe_wraps_channels() {
    let req: WsRequest<u32> = WsRequest::new_subscribe(vec![1, 2, 3]);
    assert_eq!(req.op, EventType::Subscribe);
    assert_eq!(req.args, vec![1, 2, 3]);
}

#[test]
fn pong_sentinel_is_the_pong_variant() {
    assert!(matches!(OkexWsMessage::pong(), OkexWsMessage::Pong));
}

#[test]
fn book_levels_convert_to_lots_and_increments() {
    let l = level(5, 2);
    assert_eq!(l.to_single_lot(), SingleLot { price: 5, amount: 2 });
    let md = l.to_md(Some(99), "BTC-USDT".to_string(), Side::Ask, 42, true);
    match md {
        MdMessage::L2Increment(inc) => {
            assert_eq!(inc.exchange_time, Some(99));
            assert_eq!(inc.sequence_no, Some(42));
            assert_eq!(inc.symbol, "BTC-USDT");
            assert_eq!(inc.side, Side::Ask);
            assert_eq!(inc.price, 5);
            assert_eq!(inc.amount, 2);
            assert!(inc.is_eot);
        }
        MdMessage::L2Snapshot(_) => panic!("expected an increment"),
    }
}

#[test]
fn wire_snapshots_convert_to_internal_snapshots() {
    let snap = OkexOrderBookSnapshot {
        asks: vec![level(9, 4)],
        bids: vec![level(5, 2), level(3, 1)],
        ts: 1_597_026_383_085,
        checksum: Some(-123),
        prev_seq_id: Some(-1),
        seq_id: 42,
    };
    let internal = snap.to_internal_snapshot("BTC-USDT".to_string());
    assert_eq!(internal.exchange_time, Some(1_597_026_383_085));
    assert_eq!(internal.sequence_no, Some(42));
    assert_eq!(internal.symbol, "BTC-USDT");
    assert_eq!(
        internal.bids,
        vec![
            SingleLot { price: 5, amount: 2 },
            SingleLot { price: 3, amount: 1 }
        ]
    );
    assert_eq!(internal.asks, vec![SingleLot { price: 9, amount: 4 }]);
}
