//! Normalized market-data events flowing from a protocol adapter to storage.

use vstd::prelude::*;

use crate::basic_types::{Amount, Price};

verus! {

/// Side of the book an increment applies to.
#[derive(Debug, PartialEq, Eq, Hash, Copy, Clone, Structural)]
pub enum Side {
    Bid,
    Ask,
}

/// One depth level: a price and the amount available at that price.
#[derive(Debug, PartialEq, Eq, Copy, Clone, Structural)]
pub struct SingleLot {
    pub price: Price,
    pub amount: Amount,
}

/// An authoritative full replacement of one instrument's book.
#[derive(Debug, PartialEq, Eq, Clone)]
pub struct L2Snapshot {
    pub exchange_time: Option<u64>,
    pub sequence_no: Option<u64>,
    pub symbol: String,
    pub bids: Vec<SingleLot>,
    pub asks: Vec<SingleLot>,
}

/// One upsert-or-delete at a single price level. `is_eot` marks the last
/// increment of a logically atomic batch; it is observability only, never a
/// correctness dependency.
#[derive(Debug, PartialEq, Eq, Clone)]
pub struct L2Increment {
    pub exchange_time: Option<u64>,
    pub sequence_no: Option<u64>,
    pub symbol: String,
    pub side: Side,
    pub price: Price,
    pub amount: Amount,
    pub is_eot: bool,
}

/// The normalized event type delivered by an adapter.
#[derive(Debug, PartialEq, Eq, Clone)]
pub enum MdMessage {
    L2Snapshot(L2Snapshot),
    L2Increment(L2Increment),
}

impl MdMessage {
    /// Instrument symbol the event is routed by.
    pub open spec fn spec_symbol(self) -> Seq<char> {
        match self {
            MdMessage::L2Snapshot(s) => s.symbol@,
            MdMessage::L2Increment(i) => i.symbol@,
        }
    }
}

} // verus!
