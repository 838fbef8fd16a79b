//! The slot-token pool of the ssh adapter.
//!
//! Each live connection handler owns one shared-memory slot, named after a
//! single-bit mask from the low four bits of a process-wide byte.  A counting
//! semaphore outside the verified core admits at most four handlers; this
//! pool then hands each of them a bit no other live handler holds, so any two
//! live handlers have distinct masks and, through [`crate::framing::slot_name`],
//! distinct shared-memory names.  The ghost `held` set records exactly the
//! masks currently out.

use vstd::prelude::*;
use vstd::set_lib::lemma_len_subset;

verus! {

/// The four permitted slot masks: a single bit among the low four.
pub open spec fn is_slot_mask(m: u8) -> bool {
    m == 1 || m == 2 || m == 4 || m == 8
}

/// The pool: `bits` is the allocation bitmask, `held` the ghost set of
/// masks currently handed out.
pub struct TokenPool {
    pub bits: u8,
    pub held: Ghost<Set<u8>>,
}

impl TokenPool {
    /// `bits` uses only the low four bits, and a bit is set exactly when its
    /// mask has been handed out and not yet released.
    pub open spec fn wf(&self) -> bool {
        &&& self.bits & 0xF0 == 0
        &&& (forall|m: u8| self.held@.contains(m) ==> is_slot_mask(m))
        &&& (forall|m: u8| is_slot_mask(m) ==> (self.held@.contains(m) <==> self.bits & m != 0))
    }

    pub fn new() -> (p: TokenPool)
        ensures
            p.wf(),
            p.bits == 0,
            p.held@ == Set::<u8>::empty(),
    {
        let p = TokenPool { bits: 0, held: Ghost(Set::empty()) };
        proof {
            assert(0u8 & 0xF0 == 0 && 0u8 & 1 == 0 && 0u8 & 2 == 0 && 0u8 & 4 == 0 && 0u8 & 8
                == 0) by (bit_vector);
        }
        p
    }

    /// Allocate the lowest free mask.  The caller must hold a semaphore
    /// permit, which guarantees a free bit exists; the returned mask was
    /// held by nobody and is recorded as held from now on.
    pub fn find_available_token(&mut self) -> (mask: u8)
        requires
            old(self).wf(),
            old(self).bits != 0x0F,
        ensures
            final(self).wf(),
            is_slot_mask(mask),
            !old(self).held@.contains(mask),
            final(self).held@ == old(self).held@.insert(mask),
            final(self).bits == old(self).bits | mask,
    {
        let b = self.bits;
        let mask: u8 = if b & 1 == 0 {
            1
        } else if b & 2 == 0 {
            2
        } else if b & 4 == 0 {
            4
        } else if b & 8 == 0 {
            8
        } else {
            proof {
                assert(b == 0x0F) by (bit_vector)
                    requires
                        b & 1 != 0 && b & 2 != 0 && b & 4 != 0 && b & 8 != 0 && b & 0xF0 == 0,
                ;
            }
            vstd::pervasive::unreached::<u8>()
        };
        proof {
            assert(b & mask == 0);
            assert(self.bits & mask == 0);
            assert(is_slot_mask(mask));
            assert(!self.held@.contains(mask));
            assert((b | mask) & 0xF0 == 0 && (b | mask) & mask != 0 && ((b | mask) & 1 != 0 <==> (b
                & 1 != 0 || mask == 1)) && ((b | mask) & 2 != 0 <==> (b & 2 != 0 || mask == 2)) && (
            (b | mask) & 4 != 0 <==> (b & 4 != 0 || mask == 4)) && ((b | mask) & 8 != 0 <==> (b & 8
                != 0 || mask == 8))) by (bit_vector)
                requires
                    b & 0xF0 == 0 && (mask == 1 || mask == 2 || mask == 4 || mask == 8),
            ;
        }
        self.bits = self.bits | mask;
        proof {
            self.held@ = self.held@.insert(mask);
        }
        mask
    }

    /// Return a mask to the pool: its bit is cleared and it is no longer
    /// recorded as held.
    pub fn release_token(&mut self, mask: u8)
        requires
            old(self).wf(),
            is_slot_mask(mask),
        ensures
            final(self).wf(),
            final(self).held@ == old(self).held@.remove(mask),
            final(self).bits == old(self).bits & !mask,
            final(self).bits & mask == 0,
    {
        let b = self.bits;
        proof {
            assert((b & !mask) & 0xF0 == 0 && (b & !mask) & mask == 0 && ((b & !mask) & 1 != 0 <==>
            (b & 1 != 0 && mask != 1)) && ((b & !mask) & 2 != 0 <==> (b & 2 != 0 && mask != 2)) && (
            (b & !mask) & 4 != 0 <==> (b & 4 != 0 && mask != 4)) && ((b & !mask) & 8 != 0 <==> (b &
            8 != 0 && mask != 8))) by (bit_vector)
                requires
                    b & 0xF0 == 0 && (mask == 1 || mask == 2 || mask == 4 || mask == 8),
            ;
        }
        self.bits = self.bits & !mask;
        proof {
            self.held@ = self.held@.remove(mask);
        }
    }
}

/// No more than four masks are ever out at once: every held mask is one of
/// the four slot masks, so the held set is a subset of a four-element set.
pub proof fn lemma_pool_bound(p: TokenPool)
    requires
        p.wf(),
    ensures
        p.held@.finite(),
        p.held@.len() <= 4,
{
    let all = set![1u8, 2u8, 4u8, 8u8];
    assert forall|m: u8| p.held@.contains(m) implies all.contains(m) by {
        assert(is_slot_mask(m));
    }
    assert(p.held@.subset_of(all));
    lemma_len_subset(p.held@, all);
    assert(all.len() == 4);
}

} // verus!
