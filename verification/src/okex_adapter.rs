//! Reconciliation of OKX combined data messages into normalized events.
//!
//! A combined message carries one payload, wire-shaped as a full snapshot.
//! With the sentinel previous-sequence-id `-1` (or none at all) it really is
//! the initial snapshot and yields one `L2Snapshot`. With any other
//! previous-sequence-id it is logically a batch of per-level changes: every
//! bid level and then every ask level becomes one `L2Increment`, all tagged
//! with the batch's current sequence id, and `is_eot` set exactly once — on
//! the last bid if the batch has no asks, otherwise on the last ask. A batch
//! is queued atomically and drained one event per call, in FIFO order; new
//! frames are only pulled while the queue is empty.

use vstd::prelude::*;

use crate::internal::{L2Increment, MdMessage, Side};
use crate::okex_model::{
    spec_to_single_lot, OkexOrderBookSnapshot, OkexWsDataMessage, OkexWsMessage,
};

verus! {

/// Decode-level failure of a combined message.
#[derive(Debug, PartialEq, Eq, Copy, Clone, Structural)]
pub enum AdapterError {
    /// The payload list of a combined message did not have length 1.
    BadBatchLen { len: usize },
}

/// The payload is logically an increment batch: its previous-sequence-id is
/// present and is not the sentinel `-1`.
pub open spec fn is_increment_batch(snap: OkexOrderBookSnapshot) -> bool {
    match snap.prev_seq_id {
        Some(p) => p != -1,
        None => false,
    }
}

/// The increment a bid level of a batch expands to: bids keep their index
/// order, and the last bid carries `is_eot` only when the batch has no asks.
pub open spec fn spec_bid_increment(
    snap: OkexOrderBookSnapshot,
    symbol: String,
    i: int,
) -> MdMessage {
    MdMessage::L2Increment(
        L2Increment {
            exchange_time: Some(snap.ts),
            sequence_no: Some(snap.seq_id),
            symbol,
            side: Side::Bid,
            price: snap.bids@[i].price,
            amount: snap.bids@[i].amount,
            is_eot: i + 1 == snap.bids@.len() && snap.asks@.len() == 0,
        },
    )
}

/// The increment an ask level of a batch expands to: asks follow all bids,
/// and the last ask carries `is_eot`.
pub open spec fn spec_ask_increment(
    snap: OkexOrderBookSnapshot,
    symbol: String,
    i: int,
) -> MdMessage {
    MdMessage::L2Increment(
        L2Increment {
            exchange_time: Some(snap.ts),
            sequence_no: Some(snap.seq_id),
            symbol,
            side: Side::Ask,
            price: snap.asks@[i].price,
            amount: snap.asks@[i].amount,
            is_eot: i + 1 == snap.asks@.len(),
        },
    )
}

/// Item `k` of a batch's expansion: all bid increments in index order, then
/// all ask increments in index order.
pub open spec fn spec_batch_item(snap: OkexOrderBookSnapshot, symbol: String, k: int) -> MdMessage {
    if k < snap.bids@.len() {
        spec_bid_increment(snap, symbol, k)
    } else {
        spec_ask_increment(snap, symbol, k - snap.bids@.len())
    }
}

/// `m` is the normalized full snapshot payload `snap` denotes for `symbol`.
pub open spec fn is_internal_snapshot_of(
    m: MdMessage,
    snap: OkexOrderBookSnapshot,
    symbol: Seq<char>,
) -> bool {
    match m {
        MdMessage::L2Snapshot(s) => {
            &&& s.exchange_time == Some(snap.ts)
            &&& s.sequence_no == Some(snap.seq_id)
            &&& s.symbol@ == symbol
            &&& s.bids@.len() == snap.bids@.len()
            &&& forall|i: int|
                0 <= i < snap.bids@.len() ==> s.bids@[i] == spec_to_single_lot(snap.bids@[i])
            &&& s.asks@.len() == snap.asks@.len()
            &&& forall|i: int|
                0 <= i < snap.asks@.len() ==> s.asks@[i] == spec_to_single_lot(snap.asks@[i])
        },
        MdMessage::L2Increment(_) => false,
    }
}

/// Expands an increment batch: one `L2Increment` per bid level in index
/// order, then one per ask level in index order, with `is_eot` set exactly
/// as the batch rule demands.
pub fn expand_increments(snap: &OkexOrderBookSnapshot, inst_id: &String) -> (r: Vec<MdMessage>)
    ensures
        r@.len() == snap.bids@.len() + snap.asks@.len(),
        forall|k: int| 0 <= k < r@.len() ==> r@[k] == spec_batch_item(*snap, *inst_id, k),
{
    let mut out: Vec<MdMessage> = Vec::new();
    let mut i: usize = 0;
    while i < snap.bids.len()
        invariant
            0 <= i <= snap.bids@.len(),
            out@.len() == i,
            forall|k: int| 0 <= k < i ==> out@[k] == spec_bid_increment(*snap, *inst_id, k),
        decreases snap.bids@.len() - i,
    {
        let is_eot = i + 1 == snap.bids.len() && snap.asks.len() == 0;
        out.push(
            snap.bids[i].to_md(Some(snap.ts), inst_id.clone(), Side::Bid, snap.seq_id, is_eot),
        );
        i = i + 1;
    }
    let mut j: usize = 0;
    while j < snap.asks.len()
        invariant
            0 <= j <= snap.asks@.len(),
            out@.len() == snap.bids@.len() + j,
            forall|k: int|
                0 <= k < snap.bids@.len() ==> out@[k] == spec_bid_increment(*snap, *inst_id, k),
            forall|k: int|
                0 <= k < j ==> out@[snap.bids@.len() + k] == spec_ask_increment(*snap, *inst_id, k),
        decreases snap.asks@.len() - j,
    {
        let is_eot = j + 1 == snap.asks.len();
        out.push(
            snap.asks[j].to_md(Some(snap.ts), inst_id.clone(), Side::Ask, snap.seq_id, is_eot),
        );
        j = j + 1;
    }
    out
}

/// The exchange-specific reconciliation state: the FIFO queue buffering the
/// yet-undelivered events of the last increment batch. The surrounding
/// receive loop (which owns the socket) pulls a frame only when this queue
/// is empty, hands it to [`Self::on_ws_message`], and otherwise drains the
/// queue through [`Self::pop_pending`].
pub struct OkexAdapter {
    pub queue: Vec<MdMessage>,
}

impl OkexAdapter {
    /// An adapter with nothing buffered.
    pub fn new() -> (r: Self)
        ensures
            r.queue@ == Seq::<MdMessage>::empty(),
    {
        Self { queue: Vec::new() }
    }

    /// Takes the oldest buffered event, if any: FIFO delivery, one event per
    /// call.
    pub fn pop_pending(&mut self) -> (r: Option<MdMessage>)
        ensures
            old(self).queue@.len() == 0 ==> r is None && final(self).queue@ == old(self).queue@,
            old(self).queue@.len() > 0 ==> r == Some(old(self).queue@[0]) && final(self).queue@
                == old(self).queue@.drop_first(),
    {
        if self.queue.len() == 0 {
            None
        } else {
            let m = self.queue.remove(0);
            proof {
                assert(old(self).queue@.remove(0) =~= old(self).queue@.drop_first());
            }
            Some(m)
        }
    }

    /// Turns one decoded frame into at most one immediate event, buffering
    /// the rest of an increment batch. Acknowledgement and keepalive frames
    /// yield nothing; a combined message with a payload list of any length
    /// other than 1 is a decode error; the sentinel previous-sequence-id
    /// yields exactly one snapshot with nothing buffered; any other
    /// previous-sequence-id expands the payload into increments delivered in
    /// batch order starting with the returned event.
    pub fn on_ws_message(&mut self, msg: OkexWsMessage) -> (r: Result<Option<MdMessage>, AdapterError>)
        requires
            old(self).queue@.len() == 0,
        ensures
            match msg {
                OkexWsMessage::SubEvent(_) => r == Ok::<Option<MdMessage>, AdapterError>(None)
                    && final(self).queue@ == old(self).queue@,
                OkexWsMessage::Pong => r == Ok::<Option<MdMessage>, AdapterError>(None)
                    && final(self).queue@ == old(self).queue@,
                OkexWsMessage::Combined(c) => {
                    if c.message@.len() != 1 {
                        &&& r == Err::<Option<MdMessage>, AdapterError>(
                            AdapterError::BadBatchLen { len: c.message@.len() as usize },
                        )
                        &&& final(self).queue@ == old(self).queue@
                    } else {
                        match c.message@[0] {
                            OkexWsDataMessage::BookSnapshot(snap) => {
                                if !is_increment_batch(snap) {
                                    &&& r matches Ok(Some(m)) && is_internal_snapshot_of(
                                        m,
                                        snap,
                                        c.arg.inst_id@,
                                    )
                                    &&& final(self).queue@ == old(self).queue@
                                } else {
                                    let total = snap.bids@.len() + snap.asks@.len();
                                    if total == 0 {
                                        &&& r == Ok::<Option<MdMessage>, AdapterError>(None)
                                        &&& final(self).queue@ == old(self).queue@
                                    } else {
                                        &&& r == Ok::<Option<MdMessage>, AdapterError>(
                                            Some(spec_batch_item(snap, c.arg.inst_id, 0)),
                                        )
                                        &&& final(self).queue@.len() == total - 1
                                        &&& forall|k: int|
                                            0 <= k < total - 1 ==> final(self).queue@[k]
                                                == spec_batch_item(snap, c.arg.inst_id, k + 1)
                                    }
                                }
                            },
                        }
                    }
                },
            },
    {
        match msg {
            OkexWsMessage::SubEvent(_) => Ok(None),
            OkexWsMessage::Pong => Ok(None),
            OkexWsMessage::Combined(c) => {
                if c.message.len() != 1 {
                    return Err(AdapterError::BadBatchLen { len: c.message.len() });
                }
                match &c.message[0] {
                    OkexWsDataMessage::BookSnapshot(snap) => {
                        let instrument_id = &c.arg.inst_id;
                        let mut is_batch = false;
                        if let Some(p) = snap.prev_seq_id {
                            if p != -1 {
                                is_batch = true;
                            }
                        }
                        if is_batch {
                            let mut events = expand_increments(snap, instrument_id);
                            if events.len() == 0 {
                                return Ok(None);
                            }
                            let first = events.remove(0);
                            self.queue = events;
                            Ok(Some(first))
                        } else {
                            Ok(
                                Some(
                                    MdMessage::L2Snapshot(
                                        snap.to_internal_snapshot(instrument_id.clone()),
                                    ),
                                ),
                            )
                        }
                    },
                }
            },
        }
    }
}

} // verus!
