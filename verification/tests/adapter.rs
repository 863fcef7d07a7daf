use okx_md::internal::{MdMessage, Side};
use okx_md::okex_adapter::{AdapterError, OkexAdapter};
use okx_md::okex_model::{
    EventType, OkexBookLevel, OkexOrderBookSnapshot, OkexSubEvent, OkexWsCombinedMessage,
    OkexWsDataMessage, OkexWsMessage, Stream,
};

fn level(price: i128, amount: i128) -> OkexBookLevel {
    OkexBookLevel {
        price,
        amount,
        deprecated: "0".to_string(),
        orders_number: "1".to_string(),
    }
}

fn combined(
    inst_id: &str,
    bids: Vec<OkexBookLevel>,
    asks: Vec<OkexBookLevel>,
    prev_seq_id: Option<i64>,
) -> OkexWsMessage {
    OkexWsMessage::Combined(OkexWsCombinedMessage {
        arg: Stream {
            channel: "books".to_string(),
            inst_id: inst_id.to_string(),
        },
        message: vec![OkexWsDataMessage::BookSnapshot(OkexOrderBookSnapshot {
            asks,
            bids,
            ts: 1_597_026_383_085,
            checksum: None,
            prev_seq_id,
            seq_id: 42,
        })],
    })
}

#[test]
fn increment_batch_expands_bids_then_asks_with_one_eot() {
    let mut adapter = OkexAdapter::new();
    let msg = combined(
        "BTC-USDT",
        vec![level(5, 2), level(3, 1)],
        vec![level(9, 4)],
        Some(5),
    );
    let first = adapter.on_ws_message(msg).unwrap().unwrap();

    let mut events = vec![first];
    while let Some(m) = adapter.pop_pending() {
        events.push(m);
    }
    assert_eq!(events.len(), 3);

    let expect = [
        (Side::Bid, 5, 2, false),
        (Side::Bid, 3, 1, false),
        (Side::Ask, 9, 4, true),
    ];
    for (event, (side, price, amount, is_eot)) in events.iter().zip(expect.iter()) {
        match event {
            MdMessage::L2Increment(inc) => {
                assert_eq!(inc.side, *side);
                assert_eq!(inc.price, *price);
                assert_eq!(inc.amount, *amount);
                assert_eq!(inc.is_eot, *is_eot);
                assert_eq!(inc.symbol, "BTC-USDT");
                assert_eq!(inc.sequence_no, Some(42));
                assert_eq!(inc.exchange_time, Some(1_597_026_383_085));
            }
            MdMessage::L2Snapshot(_) => panic!("expected an increment"),
        }
    }
}

#[test]
fn batch_without_asks_marks_last_bid_as_eot() {
    let mut adapter = OkexAdapter::new();
    let msg = combined("BTC-USDT", vec![level(5, 2), level(3, 1)], vec![], Some(9));
    let first = adapter.on_ws_message(msg).unwrap().unwrap();
    let second = adapter.pop_pending().unwrap();
    assert!(adapter.pop_pending().is_none());
    match (&first, &second) {
        (MdMessage::L2Increment(a), MdMessage::L2Increment(b)) => {
            assert!(!a.is_eot);
            assert!(b.is_eot);
        }
        _ => panic!("expected increments"),
    }
}

#[test]
fn sentinel_prev_seq_id_yields_one_snapshot_and_empty_queue() {
    let mut adapter = OkexAdapter::new();
    let msg = combined(
        "BTC-USDT",
        vec![level(5, 2)],
        vec![level(9, 4)],
        Some(-1),
    );
    let result = adapter.on_ws_message(msg).unwrap().unwrap();
    match result {
        MdMessage::L2Snapshot(snap) => {
            assert_eq!(snap.symbol, "BTC-USDT");
            assert_eq!(snap.sequence_no, Some(42));
            assert_eq!(snap.exchange_time, Some(1_597_026_383_085));
            assert_eq!(snap.bids.len(), 1);
            assert_eq!(snap.bids[0].price, 5);
            assert_eq!(snap.bids[0].amount, 2);
            assert_eq!(snap.asks.len(), 1);
            assert_eq!(snap.asks[0].price, 9);
        }
        MdMessage::L2Increment(_) => panic!("expected a snapshot"),
    }
    assert!(adapter.pop_pending().is_none());
}

#[test]
fn missing_prev_seq_id_yields_a_snapshot() {
    let mut adapter = OkexAdapter::new();
    let msg = combined("BTC-USDT", vec![level(5, 2)], vec![], None);
    let result = adapter.on_ws_message(msg).unwrap().unwrap();
    assert!(matches!(result, MdMessage::L2Snapshot(_)));
    assert!(adapter.pop_pending().is_none());
}

#[test]
fn wrong_payload_count_is_a_decode_error() {
    let mut adapter = OkexAdapter::new();
    let msg = OkexWsMessage::Combined(OkexWsCombinedMessage {
        arg: Stream {
            channel: "books".to_string(),
            inst_id: "BTC-USDT".to_string(),
        },
        message: vec![],
    });
    let result = adapter.on_ws_message(msg);
    assert_eq!(result, Err(AdapterError::BadBatchLen { len: 0 }));
}

#[test]
fn sub_events_and_pongs_yield_nothing() {
    let mut adapter = OkexAdapter::new();
    let sub = OkexWsMessage::SubEvent(OkexSubEvent {
        event: EventType::Error,
        arg: None,
        code: Some("60012".to_string()),
        msg: Some("Invalid request".to_string()),
        conn_id: "abc".to_string(),
    });
    assert_eq!(adapter.on_ws_message(sub), Ok(None));
    assert_eq!(adapter.on_ws_message(OkexWsMessage::Pong), Ok(None));
    assert!(adapter.pop_pending().is_none());
}
