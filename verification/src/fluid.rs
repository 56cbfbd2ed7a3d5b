//! Settings of the software synthesizer that the library decides on its
//! own, and the patches it lists.

use vstd::prelude::*;
use crate::text::str_eq;

verus! {

/// Sample interpolation of the synthesizer.
#[derive(Clone, Copy, Debug, PartialEq, Eq, Structural)]
pub enum FluidInterpolation {
    NoInterpolation,
    Linear,
    FourthOrder,
    SeventhOrder,
}

impl FluidInterpolation {
    /// Fourth order, the synthesizer's usual setting.
    pub fn default_interpolation() -> (i: FluidInterpolation)
        ensures
            i == FluidInterpolation::FourthOrder,
    {
        FluidInterpolation::FourthOrder
    }
}

/// A program of a loaded sound font.
#[derive(Clone, Debug)]
pub struct Patch {
    pub soundfont_id: i32,
    pub bank: i32,
    pub program: i32,
    pub channel: u8,
    pub name: String,
}

/// Whether a setting is one that the synthesizer no longer has and that is
/// therefore skipped: only `synth.parallel-render`.
pub fn fluidlite_ignores_legacy_setting(name: &str) -> (r: bool)
    ensures
        r == (name@ == "synth.parallel-render"@),
{
    str_eq(name, "synth.parallel-render")
}

} // verus!
