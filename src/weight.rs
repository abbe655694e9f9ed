use vstd::prelude::*;

verus! {

/// Two-dimensional execution cost: computation time and proof (storage I/O) size.
#[derive(Clone, Copy, Debug, PartialEq, Eq, Structural)]
pub struct Weight {
    pub ref_time: u64,
    pub proof_size: u64,
}

impl Weight {
    pub open spec fn fits_in(self, limit: Weight) -> bool {
        self.ref_time <= limit.ref_time && self.proof_size <= limit.proof_size
    }

    pub fn zero() -> (r: Weight)
        ensures
            r.ref_time == 0 && r.proof_size == 0,
    {
        Weight { ref_time: 0, proof_size: 0 }
    }

    pub fn from_parts(ref_time: u64, proof_size: u64) -> (r: Weight)
        ensures
            r.ref_time == ref_time && r.proof_size == proof_size,
    {
        Weight { ref_time, proof_size }
    }

    /// True when both components are at most those of `limit`.
    pub fn all_lte(&self, limit: &Weight) -> (r: bool)
        ensures
            r == self.fits_in(*limit),
    {
        self.ref_time <= limit.ref_time && self.proof_size <= limit.proof_size
    }

    /// Component-wise sum, or `None` where a component overflows.
    pub fn checked_add(&self, other: &Weight) -> (r: Option<Weight>)
        ensures
            r is Some <==> (self.ref_time + other.ref_time <= u64::MAX && self.proof_size
                + other.proof_size <= u64::MAX),
            r matches Some(w) ==> w.ref_time == self.ref_time + other.ref_time && w.proof_size
                == self.proof_size + other.proof_size,
    {
        match (self.ref_time.checked_add(other.ref_time), self.proof_size.checked_add(other.proof_size)) {
            (Some(a), Some(b)) => Some(Weight { ref_time: a, proof_size: b }),
            _ => None,
        }
    }

    /// Component-wise minimum.
    pub fn min(&self, other: &Weight) -> (r: Weight)
        ensures
            r.ref_time == if self.ref_time <= other.ref_time { self.ref_time } else { other.ref_time },
            r.proof_size == if self.proof_size <= other.proof_size { self.proof_size } else { other.proof_size },
    {
        Weight {
            ref_time: if self.ref_time <= other.ref_time { self.ref_time } else { other.ref_time },
            proof_size: if self.proof_size <= other.proof_size { self.proof_size } else { other.proof_size },
        }
    }
}

} // verus!
