use okx_md::config::{OkexMdConnectionConfig, OkexPollerConfig};
use okx_md::okex_rest::OkexExchangePoller;
use okx_md::internal::SingleLot;
use okx_md::okex_rest::{
    order_book_from_response, GetOrderBook, GetOrderBookRequest, OkexErrorResponse,
    OkexOrderBookSnapshot, OkexResponse, OkexSingleLot, PollerError,
};

fn rest_lot(price: i128, amount: i128) -> OkexSingleLot {
    OkexSingleLot {
        price,
        amount,
        deprecated: "0".to_string(),
        orders_number: "1".to_string(),
    }
}

fn rest_snapshot(bids: Vec<OkexSingleLot>, asks: Vec<OkexSingleLot>) -> OkexOrderBookSnapshot {
    OkexOrderBookSnapshot {
        asks,
        bids,
        ts: "1597026383085".to_string(),
    }
}

#[test]
fn empty_data_and_empty_msg_is_not_found() {
    let resp: OkexResponse<OkexOrderBookSnapshot> = OkexResponse {
        code: "0".to_string(),
        data: vec![],
        msg: "".to_string(),
    };
    assert_eq!(order_book_from_response(resp), Err(PollerError::NotFound));
}

#[test]
fn nonempty_msg_surfaces_code_and_msg_verbatim() {
    let resp: OkexResponse<OkexOrderBookSnapshot> = OkexResponse {
        code: "51001".to_string(),
        data: vec![],
        msg: "Instrument ID does not exist".to_string(),
    };
    let err = order_book_from_response(resp);
    assert_eq!(
        err,
        Err(PollerError::Exchange(OkexErrorResponse {
            code: "51001".to_string(),
            msg: "Instrument ID does not exist".to_string(),
        }))
    );
}

#[test]
fn successful_response_becomes_a_book() {
    let resp = OkexResponse {
        code: "0".to_string(),
        data: vec![rest_snapshot(
            vec![rest_lot(5, 2), rest_lot(3, 1)],
            vec![rest_lot(9, 4)],
        )],
        msg: "".to_string(),
    };
    let ob = order_book_from_response(resp).unwrap();
    assert_eq!(
        ob.bids,
        vec![
            SingleLot { price: 3, amount: 1 },
            SingleLot { price: 5, amount: 2 }
        ]
    );
    assert_eq!(ob.asks, vec![SingleLot { price: 9, amount: 4 }]);
}

#[test]
fn into_result_splits_success_and_error() {
    let ok: OkexResponse<u32> = OkexResponse {
        code: "0".to_string(),
        data: vec![1, 2, 3],
        msg: "".to_string(),
    };
    assert_eq!(ok.into_result(), Ok(vec![1, 2, 3]));

    let err: OkexResponse<u32> = OkexResponse {
        code: "50011".to_string(),
        data: vec![],
        msg: "Rate limit reached".to_string(),
    };
    let e = err.into_result().unwrap_err();
    assert_eq!(e.code, "50011");
    assert_eq!(e.msg, "Rate limit reached");
    assert_eq!(e.description(), "Rate limit reached");
}

#[test]
fn request_and_endpoint_shapes() {
    let req = GetOrderBookRequest::new("BTC-USDT".to_string(), Some(400));
    assert_eq!(req.inst_id, "BTC-USDT");
    assert_eq!(req.sz, Some(400));
    assert_eq!(GetOrderBook::path(), "/api/v5/market/books");
}

#[test]
fn configs_carry_documented_defaults() {
    let md = OkexMdConnectionConfig::default();
    assert_eq!(md.channel_tickers_amount, 60);
    assert_eq!(md.ws_url, "wss://ws.okx.com:8443/ws/v5/public");
    assert_eq!(md.ping_frequency_seconds, 3);
    assert_eq!(md.subscribe_interval_ms, 100);

    let poller = OkexExchangePoller::new();
    assert_eq!(poller.config.http_url, "https://www.okx.com");
    let custom = OkexExchangePoller::with_config(OkexPollerConfig {
        http_url: "https://example.test".to_string(),
    });
    assert_eq!(custom.config.http_url, "https://example.test");
}
