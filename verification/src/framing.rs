//! SSH-agent framing over a bounded shared-memory slot.
//!
//! Each message, in both directions, is a 4-byte big-endian payload length
//! followed by that many payload bytes, and the framed message — length
//! field included — must fit in the 16 384-byte slot.  A [`Handler`] owns
//! one slot for the life of a connection and accounts for every frame it
//! dispatches and every response it returns; the ghost `reqs` and `resps`
//! logs pin the counters to the exact sums of the framed sizes.

use vstd::prelude::*;

use crate::token::is_slot_mask;
use crate::util::BridgeError;
use crate::util::other_error;

verus! {

/// Capacity of one shared-memory slot.  PuTTY uses 8k; 16k leaves room to
/// spare, and a framed message may use every byte of it but no more.
pub const SLOT_CAPACITY: usize = 16384;

/// The value of a 4-byte big-endian length prefix.
pub open spec fn be_u32_val(s: Seq<u8>) -> int {
    s[0] * 0x1000000 + s[1] * 0x10000 + s[2] * 0x100 + s[3]
}

pub fn be_u32(b: &Vec<u8>) -> (r: u32)
    requires
        b@.len() == 4,
    ensures
        r == be_u32_val(b@),
{
    (b[0] as u32) * 0x1000000 + (b[1] as u32) * 0x10000 + (b[2] as u32) * 0x100 + (b[3] as u32)
}

/// The shared-memory name a handler publishes for its mask:
/// `gpg_bridge-<mask>` with a NUL terminator, since the receiving side
/// takes a C string.
pub open spec fn slot_name_bytes(mask: u8) -> Seq<u8> {
    seq![
        103u8,
        112u8,
        103u8,
        95u8,
        98u8,
        114u8,
        105u8,
        100u8,
        103u8,
        101u8,
        45u8,
        (48 + mask) as u8,
        0u8,
    ]
}

/// Render the slot name for a mask.  Every slot mask is a single decimal
/// digit, so one byte spells it.
pub fn slot_name(mask: u8) -> (r: Vec<u8>)
    requires
        is_slot_mask(mask),
    ensures
        r@ == slot_name_bytes(mask),
{
    let mut v: Vec<u8> = Vec::new();
    v.push(103);
    v.push(112);
    v.push(103);
    v.push(95);
    v.push(98);
    v.push(114);
    v.push(105);
    v.push(100);
    v.push(103);
    v.push(101);
    v.push(45);
    v.push(48 + mask);
    v.push(0);
    proof {
        assert(v@ =~= slot_name_bytes(mask));
    }
    v
}

/// Distinct slot masks name distinct shared-memory regions: the names
/// differ in their digit byte.
pub proof fn lemma_slot_name_injective(m1: u8, m2: u8)
    requires
        is_slot_mask(m1),
        is_slot_mask(m2),
        m1 != m2,
    ensures
        slot_name_bytes(m1) != slot_name_bytes(m2),
{
    assert(slot_name_bytes(m1)[11] == (48 + m1) as u8);
    assert(slot_name_bytes(m2)[11] == (48 + m2) as u8);
}

pub open spec fn sum_seq(s: Seq<int>) -> int
    decreases s.len(),
{
    if s.len() == 0 {
        0
    } else {
        sum_seq(s.drop_last()) + s.last()
    }
}

/// What reading the 4-byte length prefix of the next request produced: a
/// clean end of stream before any byte, or the four prefix bytes.
pub enum FrameHeader {
    Eof,
    Len(Vec<u8>),
}

impl FrameHeader {
    pub open spec fn wf(&self) -> bool {
        self matches FrameHeader::Len(v) ==> v@.len() == 4
    }
}

/// Per-connection accounting for the ssh adapter.  A live handler owns the
/// slot named by its mask; `received` and `replied` count the framed bytes
/// dispatched to and returned from the agent.
pub struct Handler {
    pub mask: u8,
    pub name: Vec<u8>,
    pub received: usize,
    pub replied: usize,
    pub reqs: Ghost<Seq<int>>,
    pub resps: Ghost<Seq<int>>,
}

impl Handler {
    /// The counters equal the sums of the framed sizes on record, and every
    /// framed size on record fits the slot.
    pub open spec fn wf(&self) -> bool {
        &&& is_slot_mask(self.mask)
        &&& self.name@ == slot_name_bytes(self.mask)
        &&& self.received == sum_seq(self.reqs@)
        &&& self.replied == sum_seq(self.resps@)
        &&& (forall|i: int| 0 <= i < self.reqs@.len() ==> 4 <= #[trigger] self.reqs@[i]
            <= SLOT_CAPACITY)
        &&& (forall|i: int| 0 <= i < self.resps@.len() ==> 4 <= #[trigger] self.resps@[i]
            <= SLOT_CAPACITY)
    }

    /// A fresh handler for an allocated mask: nothing dispatched yet.
    pub fn new(mask: u8) -> (h: Handler)
        requires
            is_slot_mask(mask),
        ensures
            h.wf(),
            h.mask == mask,
            h.name@ == slot_name_bytes(mask),
            h.received == 0,
            h.replied == 0,
            h.reqs@ == Seq::<int>::empty(),
            h.resps@ == Seq::<int>::empty(),
    {
        let name = slot_name(mask);
        Handler {
            mask,
            name,
            received: 0,
            replied: 0,
            reqs: Ghost(Seq::empty()),
            resps: Ghost(Seq::empty()),
        }
    }

    pub fn received(&self) -> (r: usize)
        ensures
            r == self.received,
    {
        self.received
    }

    pub fn replied(&self) -> (r: usize)
        ensures
            r == self.replied,
    {
        self.replied
    }

    /// Decide on a request frame.  A clean end of stream at the length
    /// boundary ends the session with no error; otherwise the framed total
    /// is the payload length plus the 4 length bytes, accepted exactly when
    /// it fits the slot, and accounted under `received` when dispatched.
    pub fn on_request_header(&mut self, header: &FrameHeader) -> (r: Result<
        Option<usize>,
        BridgeError,
    >)
        requires
            old(self).wf(),
            header.wf(),
            old(self).received <= usize::MAX - SLOT_CAPACITY,
        ensures
            final(self).wf(),
            final(self).mask == old(self).mask,
            final(self).name == old(self).name,
            final(self).replied == old(self).replied,
            final(self).resps == old(self).resps,
            header is Eof ==> (r matches Ok(None) && *final(self) == *old(self)),
            header matches FrameHeader::Len(v) ==> {
                let total = be_u32_val(v@) + 4;
                if total > SLOT_CAPACITY {
                    &&& r matches Err(e) && e is Other
                    &&& *final(self) == *old(self)
                } else {
                    &&& r matches Ok(Some(t)) && t == total
                    &&& final(self).received == old(self).received + total
                    &&& final(self).reqs@ == old(self).reqs@.push(total)
                }
            },
    {
        match header {
            FrameHeader::Eof => Ok(None),
            FrameHeader::Len(v) => {
                let payload = be_u32(v);
                if payload > (SLOT_CAPACITY as u32) - 4 {
                    Err(other_error("message too large".to_owned()))
                } else {
                    let total: usize = payload as usize + 4;
                    self.received = self.received + total;
                    proof {
                        let pushed = self.reqs@.push(total as int);
                        assert(pushed.drop_last() =~= self.reqs@);
                        self.reqs@ = pushed;
                    }
                    Ok(Some(total))
                }
            },
        }
    }

    /// Decide on a response frame read back from the slot: the same
    /// capacity bound as for requests, accounted under `replied` when
    /// returned.
    pub fn on_response_header(&mut self, len_bytes: &Vec<u8>) -> (r: Result<usize, BridgeError>)
        requires
            old(self).wf(),
            len_bytes@.len() == 4,
            old(self).replied <= usize::MAX - SLOT_CAPACITY,
        ensures
            final(self).wf(),
            final(self).mask == old(self).mask,
            final(self).name == old(self).name,
            final(self).received == old(self).received,
            final(self).reqs == old(self).reqs,
            ({
                let total = be_u32_val(len_bytes@) + 4;
                if total > SLOT_CAPACITY {
                    &&& r matches Err(e) && e is Other
                    &&& *final(self) == *old(self)
                } else {
                    &&& r matches Ok(t) && t == total
                    &&& final(self).replied == old(self).replied + total
                    &&& final(self).resps@ == old(self).resps@.push(total)
                }
            }),
    {
        let payload = be_u32(len_bytes);
        if payload > (SLOT_CAPACITY as u32) - 4 {
            Err(other_error("response too large".to_owned()))
        } else {
            let total: usize = payload as usize + 4;
            self.replied = self.replied + total;
            proof {
                let pushed = self.resps@.push(total as int);
                assert(pushed.drop_last() =~= self.resps@);
                self.resps@ = pushed;
            }
            Ok(total)
        }
    }
}

/// A handler's `received` is always exactly the sum of the framed request
/// sizes it dispatched, and `replied` the sum of the framed response sizes
/// it returned.
pub proof fn lemma_counters_are_sums(h: Handler)
    requires
        h.wf(),
    ensures
        h.received == sum_seq(h.reqs@),
        h.replied == sum_seq(h.resps@),
{
}

} // verus!
