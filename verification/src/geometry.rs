//! Exact integer models of sizes, scale factors and pointer coordinates.
//!
//! An output's fractional scale factor is carried in thousandths of a device
//! pixel per logical pixel, so two scales are equal exactly when the host's
//! scale values are.  Logical pointer coordinates are carried in thousandths
//! of a logical pixel.  A buffer's device size is the logical size scaled up
//! and rounded towards positive infinity.

use vstd::prelude::*;

verus! {

/// Thousandths of a scale unit: a scale factor of one device pixel per
/// logical pixel has `SCALE_ONE` units.
pub const SCALE_ONE: u32 = 1000;

/// Largest admitted scale factor, in thousandths (a 64x scale).
pub const MAX_SCALE_UNITS: u32 = 64000;

/// Largest admitted logical dimension, in logical pixels.
pub const MAX_LOGICAL_DIM: u32 = 65535;

/// An output's device-pixel-per-logical-pixel ratio, in exact thousandths.
#[derive(Clone, Copy, Debug, PartialEq, Eq, Structural)]
pub struct ScaleFactor {
    pub units: u32,
}

impl ScaleFactor {
    /// A scale factor is positive and within the admitted range.
    pub open spec fn valid(self) -> bool {
        1 <= self.units <= MAX_SCALE_UNITS
    }

    /// The scale factor for a whole number of device pixels per logical pixel.
    pub fn from_whole(factor: u32) -> (r: ScaleFactor)
        requires
            1 <= factor <= 64,
        ensures
            r.units == factor * SCALE_ONE,
            r.valid(),
    {
        ScaleFactor { units: factor * 1000 }
    }
}

/// The element's logical size in logical pixels.
#[derive(Clone, Copy, Debug, PartialEq, Eq, Structural)]
pub struct LogicalSize {
    pub w: u32,
    pub h: u32,
}

impl LogicalSize {
    /// Both dimensions are within the admitted range; zero is allowed and
    /// stands for a degenerate size.
    pub open spec fn valid(self) -> bool {
        self.w <= MAX_LOGICAL_DIM && self.h <= MAX_LOGICAL_DIM
    }
}

/// A pointer position in logical coordinates, in thousandths of a logical
/// pixel.
#[derive(Clone, Copy, Debug, PartialEq, Eq, Structural)]
pub struct CursorPos {
    pub x: i64,
    pub y: i64,
}

/// One logical dimension scaled to device pixels, rounded up:
/// `ceil(dim * units / SCALE_ONE)` over the exact integers.
pub open spec fn scaled_dim_spec(dim: nat, units: nat) -> nat {
    (dim * units + (SCALE_ONE - 1) as nat) / (SCALE_ONE as nat)
}

/// A scaled dimension stays well below `u32::MAX` for admitted inputs.
pub proof fn lemma_scaled_dim_bound(dim: nat, units: nat)
    requires
        dim <= MAX_LOGICAL_DIM,
        units <= MAX_SCALE_UNITS,
    ensures
        scaled_dim_spec(dim, units) <= 4194241,
{
    assert(dim * units <= 65535 * 64000) by (nonlinear_arith)
        requires
            dim <= 65535,
            units <= 64000,
    ;
}

/// Computes one device dimension of a buffer from a logical dimension and a
/// scale factor.
pub fn scaled_dim(dim: u32, units: u32) -> (r: u32)
    requires
        dim <= MAX_LOGICAL_DIM,
        1 <= units <= MAX_SCALE_UNITS,
    ensures
        r == scaled_dim_spec(dim as nat, units as nat),
        dim > 0 ==> r > 0,
    {
        proof {
            assert((dim as int) * (units as int) <= 65535int * 64000int) by (nonlinear_arith)
                requires
                    dim <= 65535,
                    units <= 64000,
            ;
            assert(dim > 0 && units >= 1 ==> (dim as int) * (units as int) >= 1) by (nonlinear_arith);
        }
        (((dim as u64) * (units as u64) + 999) / 1000) as u32
    }

} // verus!
