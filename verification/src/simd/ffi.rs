//! Handles of the Faiss objects that score single vectors.

use vstd::prelude::*;

verus! {

/// The address of a `faiss::DistanceComputer`; zero where there is none.
#[derive(Debug, Clone, Copy, PartialEq, Eq, Structural)]
pub struct FaissDistanceComputer {
    pub address: i64,
}

/// The address of a `faiss::ScalarQuantizer::SQDistanceComputer`.
#[derive(Debug, Clone, Copy, PartialEq, Eq, Structural)]
pub struct FaissSQDistanceComputer {
    pub address: i64,
}

impl FaissDistanceComputer {
    /// The same object, as the scalar quantizer's distance computer.
    pub fn as_sq(self) -> (computer: FaissSQDistanceComputer)
        ensures
            computer.address == self.address,
    {
        FaissSQDistanceComputer { address: self.address }
    }
}

} // verus!
