//! Admin fee values and per-token swap volume.
use vstd::prelude::*;

use crate::curve::{fee_of, fee_part, FEE_DIVISOR};

verus! {

/// The protocol's cut of the fees a pool charges, in parts of `FEE_DIVISOR`.
/// Supplied by the caller of each operation.
#[derive(Debug, Clone, Copy, PartialEq, Eq, Structural)]
pub struct AdminFees {
    pub admin_fee_bps: u32,
}

impl AdminFees {
    pub open spec fn wf(&self) -> bool {
        self.admin_fee_bps <= FEE_DIVISOR
    }

    pub fn new(admin_fee_bps: u32) -> (r: AdminFees)
        requires
            admin_fee_bps <= FEE_DIVISOR,
        ensures
            r.admin_fee_bps == admin_fee_bps,
            r.wf(),
    {
        AdminFees { admin_fee_bps }
    }

    /// Splits a charged fee into the part that stays with the pool and the
    /// part owed to the protocol, in that order.
    pub fn split(&self, fee: u128) -> (r: (u128, u128))
        requires
            self.wf(),
        ensures
            r.1 == fee_part(fee as int, self.admin_fee_bps as int),
            r.0 + r.1 == fee,
    {
        let admin = fee_of(fee, self.admin_fee_bps);
        (fee - admin, admin)
    }
}

/// Cumulative amounts of one token that went into and out of a pool by swaps.
#[derive(Debug, Clone, Copy, PartialEq, Eq, Structural)]
pub struct SwapVolume {
    pub input: u128,
    pub output: u128,
}

/// `a + b`, or the largest `u128` where the sum does not fit.
pub open spec fn sat_add(a: int, b: int) -> int {
    if a + b > u128::MAX {
        u128::MAX as int
    } else {
        a + b
    }
}

} // verus!
