//! OKX websocket wire schema and its conversions to normalized events.
//!
//! The wire format carries no discriminant field: a frame is a subscription
//! event, a combined data message, or a keepalive reply, told apart by shape.
//! Decoding raw JSON into these types happens outside the library; everything
//! here works on already-decoded values.

use vstd::prelude::*;

use crate::basic_types::{Amount, Price};
use crate::internal::{L2Increment, L2Snapshot, MdMessage, Side, SingleLot};
use crate::ws_client::WsMessage;

verus! {

/// Kind of a subscription-related event frame.
#[derive(Debug, PartialEq, Eq, Hash, Copy, Clone, Structural)]
pub enum EventType {
    Login,
    Subscribe,
    Unsubscribe,
    Error,
    ChannelConnCount,
}

/// One channel of one instrument.
#[derive(Debug, PartialEq, Eq, Clone)]
pub struct Stream {
    pub channel: String,
    pub inst_id: String,
}

/// A subscription-acknowledgement frame. Observed for error logging only;
/// it never produces a normalized event.
#[derive(Debug, PartialEq, Eq, Clone)]
pub struct OkexSubEvent<R> {
    pub event: EventType,
    pub arg: Option<R>,
    pub code: Option<String>,
    pub msg: Option<String>,
    pub conn_id: String,
}

/// One wire depth level. The two trailing fields are carried verbatim: the
/// first is deprecated and always "0", the second is the number of orders at
/// the price.
#[derive(Debug, PartialEq, Eq, Clone)]
pub struct OkexBookLevel {
    pub price: Price,
    pub amount: Amount,
    pub deprecated: String,
    pub orders_number: String,
}

/// The one logical payload of a combined data message: wire-shaped as a full
/// snapshot, logically a snapshot or an increment batch depending on
/// `prev_seq_id`.
#[derive(Debug, PartialEq, Eq, Clone)]
pub struct OkexOrderBookSnapshot {
    /// Order book on sell side.
    pub asks: Vec<OkexBookLevel>,
    /// Order book on buy side.
    pub bids: Vec<OkexBookLevel>,
    /// Book generation time, Unix milliseconds.
    pub ts: u64,
    /// Checksum over the book, carried but not validated here.
    pub checksum: Option<i64>,
    /// Sequence id of the last sent message; `-1` marks an initial snapshot.
    pub prev_seq_id: Option<i64>,
    /// Sequence id of the current message.
    pub seq_id: u64,
}

/// The payload kinds a combined message can carry.
#[derive(Debug, PartialEq, Eq, Clone)]
pub enum OkexWsDataMessage {
    BookSnapshot(OkexOrderBookSnapshot),
}

/// A combined data message: the channel it belongs to and its payload list,
/// well formed only with exactly one payload.
#[derive(Debug, PartialEq, Eq, Clone)]
pub struct OkexWsCombinedMessage {
    pub arg: Stream,
    pub message: Vec<OkexWsDataMessage>,
}

/// A decoded inbound frame.
#[derive(Debug, PartialEq, Eq, Clone)]
pub enum OkexWsMessage {
    SubEvent(OkexSubEvent<Stream>),
    Combined(OkexWsCombinedMessage),
    Pong,
}

impl WsMessage for OkexWsMessage {
    fn pong() -> (r: Self)
        ensures
            r == OkexWsMessage::Pong,
    {
        Self::Pong
    }
}

/// The depth level a wire level denotes.
pub open spec fn spec_to_single_lot(l: OkexBookLevel) -> SingleLot {
    SingleLot { price: l.price, amount: l.amount }
}

impl OkexOrderBookSnapshot {
    /// The normalized full snapshot this payload denotes for `symbol`.
    pub fn to_internal_snapshot(&self, symbol: String) -> (r: L2Snapshot)
        ensures
            r.exchange_time == Some(self.ts),
            r.sequence_no == Some(self.seq_id),
            r.symbol == symbol,
            r.bids@.len() == self.bids@.len(),
            forall|i: int|
                0 <= i < self.bids@.len() ==> r.bids@[i] == spec_to_single_lot(self.bids@[i]),
            r.asks@.len() == self.asks@.len(),
            forall|i: int|
                0 <= i < self.asks@.len() ==> r.asks@[i] == spec_to_single_lot(self.asks@[i]),
    {
        let mut bids: Vec<SingleLot> = Vec::new();
        let mut i: usize = 0;
        while i < self.bids.len()
            invariant
                0 <= i <= self.bids@.len(),
                bids@.len() == i,
                forall|j: int| 0 <= j < i ==> bids@[j] == spec_to_single_lot(self.bids@[j]),
            decreases self.bids@.len() - i,
        {
            bids.push(self.bids[i].to_single_lot());
            i = i + 1;
        }
        let mut asks: Vec<SingleLot> = Vec::new();
        let mut k: usize = 0;
        while k < self.asks.len()
            invariant
                0 <= k <= self.asks@.len(),
                asks@.len() == k,
                forall|j: int| 0 <= j < k ==> asks@[j] == spec_to_single_lot(self.asks@[j]),
            decreases self.asks@.len() - k,
        {
            asks.push(self.asks[k].to_single_lot());
            k = k + 1;
        }
        L2Snapshot {
            exchange_time: Some(self.ts),
            sequence_no: Some(self.seq_id),
            symbol,
            bids,
            asks,
        }
    }
}

impl OkexBookLevel {
    /// The normalized increment this level denotes within a batch.
    pub fn to_md(
        &self,
        exchange_time: Option<u64>,
        symbol: String,
        side: Side,
        last_update_id: u64,
        is_eot: bool,
    ) -> (r: MdMessage)
        ensures
            r == MdMessage::L2Increment(
                L2Increment {
                    exchange_time,
                    sequence_no: Some(last_update_id),
                    symbol,
                    side,
                    price: self.price,
                    amount: self.amount,
                    is_eot,
                },
            ),
    {
        MdMessage::L2Increment(
            L2Increment {
                exchange_time,
                sequence_no: Some(last_update_id),
                symbol,
                side,
                price: self.price,
                amount: self.amount,
                is_eot,
            },
        )
    }

    /// The depth level this wire level denotes.
    pub fn to_single_lot(&self) -> (r: SingleLot)
        ensures
            r == spec_to_single_lot(*self),
    {
        SingleLot { price: self.price, amount: self.amount }
    }
}

/// An outbound request frame: an operation applied to a list of channels.
#[derive(Debug, PartialEq, Eq, Clone)]
pub struct WsRequest<R> {
    pub op: EventType,
    pub args: Vec<R>,
}

impl<R> WsRequest<R> {
    /// A subscribe request for the given channels.
    pub fn new_subscribe(channels: Vec<R>) -> (r: Self)
        ensures
            r.op == EventType::Subscribe,
            r.args == channels,
    {
        Self { op: EventType::Subscribe, args: channels }
    }
}

} // verus!
