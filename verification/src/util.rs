//! The bridge's error taxonomy and small byte-buffer helpers.

use vstd::prelude::*;

verus! {

/// One uniform error kind for everything the bridge can fail on.
///
/// `InvalidData` covers a malformed rendezvous file; `NotFound` a missing
/// file or an unbindable endpoint; `Other` agent-side failures and protocol
/// violations such as an over-large frame; `Transport` a failed read or
/// write on a live stream.  A clean end-of-stream is not an error and has no
/// variant here.
#[derive(Debug)]
pub enum BridgeError {
    InvalidData(String),
    NotFound(String),
    Other(String),
    Transport(String),
}

impl BridgeError {
    /// The human-readable description carried by every variant.
    pub fn message(&self) -> (r: &String)
        ensures
            r == self.spec_message(),
    {
        match self {
            BridgeError::InvalidData(m) => m,
            BridgeError::NotFound(m) => m,
            BridgeError::Other(m) => m,
            BridgeError::Transport(m) => m,
        }
    }

    pub open spec fn spec_message(&self) -> &String {
        match self {
            BridgeError::InvalidData(m) => m,
            BridgeError::NotFound(m) => m,
            BridgeError::Other(m) => m,
            BridgeError::Transport(m) => m,
        }
    }
}

/// A malformed-input failure, used for every rendezvous-file defect.
pub fn report_data_err(details: String) -> (r: BridgeError)
    ensures
        r == BridgeError::InvalidData(details),
{
    BridgeError::InvalidData(details)
}

/// An agent-side or protocol failure that fits no more precise kind.
pub fn other_error(details: String) -> (r: BridgeError)
    ensures
        r == BridgeError::Other(details),
{
    BridgeError::Other(details)
}

/// Overwrite every byte of a buffer with zero, keeping its length.
///
/// Buffers that may have carried key material — the shared-memory slot and
/// the copy pump's scratch buffer — are wiped with this before release.
pub fn zero_buffer(buf: &mut Vec<u8>)
    ensures
        final(buf)@.len() == old(buf)@.len(),
        forall|i: int| 0 <= i < final(buf)@.len() ==> final(buf)@[i] == 0u8,
{
    let n: usize = buf.len();
    let mut i: usize = 0;
    while i < n
        invariant
            i <= n,
            n == buf@.len(),
            forall|j: int| 0 <= j < i ==> buf@[j] == 0u8,
        decreases n - i,
    {
        buf.set(i, 0u8);
        i = i + 1;
    }
}

} // verus!
