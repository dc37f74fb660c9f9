//! Device pixel ratios, held by the bits of their `f32`.
use vstd::prelude::*;

verus! {

/// The bits of the `f32` 1.0.
pub const SCALE_ONE: u32 = 0x3f80_0000;

/// The bits of the `f32` infinity: those below it, but for zero, are the
/// positive finite numbers, in their order.
pub const INFINITE: u32 = 0x7f80_0000;

/// Whether the bits are those of a positive finite `f32`.
pub open spec fn positive_finite(bits: u32) -> bool {
    0 < bits < INFINITE
}

} // verus!
