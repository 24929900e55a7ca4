//! Block identity, finality status and field elements.
use vstd::prelude::*;

verus! {

/// A StarkNet field element, stored as four big-endian 64-bit limbs.
#[derive(Clone, Copy, Debug, PartialEq, Eq, Structural)]
pub struct FieldElement {
    pub hi_hi: u64,
    pub hi_lo: u64,
    pub lo_hi: u64,
    pub lo_lo: u64,
}

impl FieldElement {
    /// The element whose value is the given 64-bit integer.
    pub fn from_u64(value: u64) -> (r: FieldElement)
        ensures
            r.hi_hi == 0 && r.hi_lo == 0 && r.lo_hi == 0,
            r.lo_lo == value,
    {
        FieldElement { hi_hi: 0, hi_lo: 0, lo_hi: 0, lo_lo: value }
    }
}

/// Finality status of a block.
#[derive(Clone, Copy, Debug, PartialEq, Eq, Structural)]
pub enum BlockStatus {
    Unspecified,
    Pending,
    AcceptedOnL2,
    AcceptedOnL1,
    Rejected,
}

/// Identity of a block: its height and its hash.
///
/// Two ids with the same number and different hashes belong to competing branches.
#[derive(Clone, Copy, Debug, PartialEq, Eq, Structural)]
pub struct GlobalBlockId {
    pub number: u64,
    pub hash: FieldElement,
}

impl GlobalBlockId {
    pub fn new(number: u64, hash: FieldElement) -> (r: GlobalBlockId)
        ensures
            r.number == number,
            r.hash == hash,
    {
        GlobalBlockId { number, hash }
    }

    pub fn number(&self) -> (r: u64)
        ensures
            r == self.number,
    {
        self.number
    }

    pub fn hash(&self) -> (r: FieldElement)
        ensures
            r == self.hash,
    {
        self.hash
    }
}

} // verus!
