//! The REST order-book endpoint: response envelope, request shape, and the
//! pure part of the poller.
//!
//! The HTTP transfer itself lives outside the library; here is everything
//! that decides what a response means: an empty `msg` denotes success, a
//! non-empty `msg` an exchange-reported error carrying `code` and `msg`
//! verbatim, and a successful response with no book entries is an explicit
//! "not found", distinct from a successful empty book.

use vstd::prelude::*;

use crate::basic_types::{Amount, Price};
use crate::config::OkexPollerConfig;
use crate::internal::SingleLot;
use crate::order_book::{build_side, spec_build_side, OrderBook};

verus! {

broadcast use vstd::string::group_string_axioms;

/// The REST poller: its configuration, around which the transfer layer
/// performs the actual request.
#[derive(Debug, PartialEq, Eq, Clone)]
pub struct OkexExchangePoller {
    pub config: OkexPollerConfig,
}

impl OkexExchangePoller {
    /// A poller with the default configuration.
    pub fn new() -> (r: Self)
        ensures
            r.config.http_url@ == "https://www.okx.com"@,
    {
        Self { config: OkexPollerConfig::default() }
    }

    /// A poller with the given configuration.
    pub fn with_config(config: OkexPollerConfig) -> (r: Self)
        ensures
            r.config == config,
    {
        Self { config }
    }
}

/// An exchange-reported error: its code and message, verbatim.
#[derive(Debug, PartialEq, Eq, Clone)]
pub struct OkexErrorResponse {
    pub code: String,
    pub msg: String,
}

impl OkexErrorResponse {
    /// The human-readable part of the error.
    pub fn description(&self) -> (r: &String)
        ensures
            r@ == self.msg@,
    {
        &self.msg
    }
}

/// The envelope every REST response arrives in.
#[derive(Debug, PartialEq, Eq, Clone)]
pub struct OkexResponse<R> {
    pub code: String,
    pub data: Vec<R>,
    pub msg: String,
}

impl<R> OkexResponse<R> {
    /// An empty `msg` denotes success and yields the data; a non-empty
    /// `msg` is an exchange-reported error carrying `code` and `msg`.
    pub fn into_result(self) -> (r: Result<Vec<R>, OkexErrorResponse>)
        ensures
            self.msg@.len() == 0 ==> r == Ok::<Vec<R>, OkexErrorResponse>(self.data),
            self.msg@.len() > 0 ==> r == Err::<Vec<R>, OkexErrorResponse>(
                OkexErrorResponse { code: self.code, msg: self.msg },
            ),
    {
        if self.msg.as_str().unicode_len() == 0 {
            Ok(self.data)
        } else {
            Err(OkexErrorResponse { code: self.code, msg: self.msg })
        }
    }
}

/// One REST depth level. The two trailing fields are carried verbatim: the
/// first is deprecated and always "0", the second is the number of orders
/// at the price.
#[derive(Debug, PartialEq, Eq, Clone)]
pub struct OkexSingleLot {
    pub price: Price,
    pub amount: Amount,
    pub deprecated: String,
    pub orders_number: String,
}

/// A full REST order-book snapshot: both sides plus the book generation
/// time, carried as the exchange sent it.
#[derive(Debug, PartialEq, Eq, Clone)]
pub struct OkexOrderBookSnapshot {
    /// Order book on sell side.
    pub asks: Vec<OkexSingleLot>,
    /// Order book on buy side.
    pub bids: Vec<OkexSingleLot>,
    /// Book generation time, as received.
    pub ts: String,
}

/// The depth levels a REST side denotes.
pub open spec fn spec_rest_lots(ls: Seq<OkexSingleLot>) -> Seq<SingleLot> {
    Seq::new(ls.len(), |i: int| SingleLot { price: ls[i].price, amount: ls[i].amount })
}

impl OkexOrderBookSnapshot {
    /// The order book this snapshot denotes, with zero-amount levels
    /// dropped so the book invariant holds.
    pub fn to_order_book(&self) -> (r: OrderBook)
        ensures
            r.bids@ == spec_build_side(spec_rest_lots(self.bids@)),
            r.asks@ == spec_build_side(spec_rest_lots(self.asks@)),
            r.wf(),
    {
        let bids = rest_side_lots(&self.bids);
        let asks = rest_side_lots(&self.asks);
        OrderBook { bids: build_side(&bids), asks: build_side(&asks) }
    }
}

/// Converts one REST side into plain depth levels.
fn rest_side_lots(ls: &Vec<OkexSingleLot>) -> (r: Vec<SingleLot>)
    ensures
        r@ == spec_rest_lots(ls@),
{
    let mut out: Vec<SingleLot> = Vec::new();
    let mut i: usize = 0;
    while i < ls.len()
        invariant
            0 <= i <= ls@.len(),
            out@.len() == i,
            forall|j: int|
                0 <= j < i ==> out@[j] == (SingleLot { price: ls@[j].price, amount: ls@[j].amount }),
        decreases ls@.len() - i,
    {
        out.push(SingleLot { price: ls[i].price, amount: ls[i].amount });
        i = i + 1;
    }
    proof {
        assert(out@ =~= spec_rest_lots(ls@));
    }
    out
}

/// The query of the order-book endpoint: an instrument and an optional
/// depth per side (maximum 400; the exchange defaults to depth 1).
#[derive(Debug, PartialEq, Eq, Clone)]
pub struct GetOrderBookRequest {
    pub inst_id: String,
    pub sz: Option<u16>,
}

impl GetOrderBookRequest {
    /// A request for `symbol`, optionally bounding the depth per side.
    pub fn new(symbol: String, limit: Option<u16>) -> (r: Self)
        ensures
            r.inst_id == symbol,
            r.sz == limit,
    {
        Self { inst_id: symbol, sz: limit }
    }
}

/// The order-book endpoint itself; the transfer layer combines its path
/// with the base URL and the urlencoded request.
pub struct GetOrderBook;

impl GetOrderBook {
    /// Path of the endpoint under the REST base URL.
    pub fn path() -> (r: &'static str)
        ensures
            r@ == "/api/v5/market/books"@,
    {
        "/api/v5/market/books"
    }
}

/// A failed order-book poll.
#[derive(Debug, PartialEq, Eq, Clone)]
pub enum PollerError {
    /// The exchange reported an error; code and message verbatim.
    Exchange(OkexErrorResponse),
    /// The response succeeded but returned no order book at all.
    NotFound,
}

/// The decision part of one order-book poll: a non-empty `msg` surfaces the
/// exchange's error verbatim, a success with no book entries is "not
/// found", and otherwise the first returned snapshot becomes the book.
pub fn order_book_from_response(resp: OkexResponse<OkexOrderBookSnapshot>) -> (r: Result<
    OrderBook,
    PollerError,
>)
    ensures
        resp.msg@.len() > 0 ==> r == Err::<OrderBook, PollerError>(
            PollerError::Exchange(OkexErrorResponse { code: resp.code, msg: resp.msg }),
        ),
        resp.msg@.len() == 0 && resp.data@.len() == 0 ==> r == Err::<OrderBook, PollerError>(
            PollerError::NotFound,
        ),
        resp.msg@.len() == 0 && resp.data@.len() > 0 ==> (r matches Ok(ob) && ob.wf()
            && ob.bids@ == spec_build_side(spec_rest_lots(resp.data@[0].bids@))
            && ob.asks@ == spec_build_side(spec_rest_lots(resp.data@[0].asks@))),
{
    match resp.into_result() {
        Err(e) => Err(PollerError::Exchange(e)),
        Ok(data) => {
            if data.len() == 0 {
                Err(PollerError::NotFound)
            } else {
                Ok(data[0].to_order_book())
            }
        },
    }
}

} // verus!
