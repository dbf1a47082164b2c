//! Opaque 64-bit actor addresses.
//!
//! A distinguished NULL value exists. Remote addresses carry a node-number
//! prefix in the upper bits, so a local lookup on a remote address fails
//! fast without consulting the address book.

use vstd::prelude::*;

verus! {

/// An opaque 64-bit identifier of an actor, group or remote proxy.
#[derive(Clone, Copy, PartialEq, Eq, Structural, Debug, Hash)]
pub struct Addr {
    pub bits: u64,
}

/// Number of bits below the node-number prefix of a remote address.
pub const NODE_NO_SHIFT: u64 = 48;

/// The largest bit pattern of a local address: slot `u32::MAX`, offset by one
/// so that NULL stays distinct.
pub const MAX_LOCAL_BITS: u64 = 0x1_0000_0000;

impl Addr {
    /// The distinguished null address. It is never reserved in a book.
    pub fn null() -> (a: Addr)
        ensures
            a.spec_is_null(),
            !a.spec_is_local(),
    {
        Addr { bits: 0 }
    }

    pub open spec fn spec_is_null(self) -> bool {
        self.bits == 0
    }

    pub fn is_null(self) -> (r: bool)
        ensures
            r == self.spec_is_null(),
    {
        self.bits == 0
    }

    /// The node-number prefix; zero for local addresses and for NULL.
    pub open spec fn spec_node_no(self) -> u16 {
        (self.bits >> NODE_NO_SHIFT) as u16
    }

    pub fn node_no(self) -> (n: u16)
        ensures
            n == self.spec_node_no(),
    {
        (self.bits >> NODE_NO_SHIFT) as u16
    }

    /// A non-null address without a node prefix names a local book slot.
    pub open spec fn spec_is_local(self) -> bool {
        1 <= self.bits <= MAX_LOCAL_BITS
    }

    pub fn is_local(self) -> (r: bool)
        ensures
            r == self.spec_is_local(),
    {
        1 <= self.bits && self.bits <= MAX_LOCAL_BITS
    }

    /// Builds the local address of book slot `slot`.
    pub fn from_slot(slot: u32) -> (a: Addr)
        ensures
            a.spec_is_local(),
            a.spec_slot() == slot,
    {
        Addr { bits: slot as u64 + 1 }
    }

    /// Builds a remote address: the peer's slot stamped with its node number.
    pub fn from_remote(node_no: u16, slot: u32) -> (a: Addr)
        requires
            node_no != 0,
        ensures
            a.spec_node_no() == node_no,
            !a.spec_is_local(),
            !a.spec_is_null(),
    {
        let low: u64 = slot as u64 + 1;
        let bits: u64 = ((node_no as u64) << NODE_NO_SHIFT) | low;
        proof {
            assert((bits >> 48u64) as u16 == node_no && bits != 0 && bits > 0x1_0000_0000u64)
                by (bit_vector)
            requires
                bits == ((node_no as u64) << 48u64) | low && node_no != 0
                    && 1 <= low <= 0x1_0000_0000u64,
            ;
        }
        Addr { bits }
    }

    /// The book slot named by a local address.
    pub open spec fn spec_slot(self) -> u32 {
        (self.bits - 1) as u32
    }

    pub fn slot(self) -> (s: u32)
        requires
            self.spec_is_local(),
        ensures
            s == self.spec_slot(),
    {
        (self.bits - 1) as u32
    }
}

/// Local addresses of distinct slots are distinct, and never NULL.
pub proof fn lemma_local_addrs_injective(a: Addr, b: Addr)
    requires
        a.spec_is_local(),
        b.spec_is_local(),
        a.spec_slot() == b.spec_slot(),
    ensures
        a == b,
{
}

} // verus!
