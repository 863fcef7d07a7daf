//! What to subscribe to: the channel batches a set of tickers turns into.

use vstd::prelude::*;

use crate::okex_model::{EventType, Stream, WsRequest};

verus! {

broadcast use vstd::string::group_string_axioms;

/// Kind of market-data stream to subscribe to.
#[derive(Debug, Copy, Clone, PartialEq, Eq, Hash, Structural)]
pub enum OkexStreamKind {
    /// The "books" channel: 400 depth levels in the initial full snapshot,
    /// then incremental changes pushed every 100 ms.
    L2Update,
}

/// A subscribe description: which tickers, on which stream kind.
#[derive(Debug, Clone)]
pub struct OkexStream {
    pub tickers: Vec<String>,
    pub kind: OkexStreamKind,
}

/// Wire name of a stream kind's channel.
pub open spec fn spec_channel_name(kind: OkexStreamKind) -> Seq<char> {
    match kind {
        OkexStreamKind::L2Update => "books"@,
    }
}

impl OkexStream {
    /// The stream kind.
    pub fn kind(&self) -> (r: OkexStreamKind)
        ensures
            r == self.kind,
    {
        self.kind
    }

    /// The outbound subscribe frames: one batch holding one channel entry
    /// per ticker, each naming the stream's channel, tickers in order.
    pub fn subscribe_requests(&self) -> (r: Vec<WsRequest<Stream>>)
        ensures
            r@.len() == 1,
            r@[0].op == EventType::Subscribe,
            r@[0].args@.len() == self.tickers@.len(),
            forall|i: int|
                0 <= i < self.tickers@.len() ==> (#[trigger] r@[0].args@[i]).channel@
                    == spec_channel_name(self.kind) && r@[0].args@[i].inst_id@
                    == self.tickers@[i]@,
    {
        let channel: String = match self.kind {
            OkexStreamKind::L2Update => "books".to_string(),
        };
        let mut requests: Vec<Stream> = Vec::new();
        let mut i: usize = 0;
        while i < self.tickers.len()
            invariant
                0 <= i <= self.tickers@.len(),
                requests@.len() == i,
                channel@ == spec_channel_name(self.kind),
                forall|j: int|
                    0 <= j < i ==> (#[trigger] requests@[j]).channel@ == spec_channel_name(
                        self.kind,
                    ) && requests@[j].inst_id@ == self.tickers@[j]@,
            decreases self.tickers@.len() - i,
        {
            requests.push(
                Stream { channel: channel.clone(), inst_id: self.tickers[i].clone() },
            );
            i = i + 1;
        }
        let mut out: Vec<WsRequest<Stream>> = Vec::new();
        out.push(WsRequest::new_subscribe(requests));
        out
    }
}

} // verus!
