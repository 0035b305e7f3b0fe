//! Shapes of the band-limited oscillators.

use vstd::prelude::*;

verus! {

/// A sine wave.
#[derive(Copy, Clone, Default, Debug)]
pub struct Sine {}

/// A square wave.
#[derive(Copy, Clone, Default, Debug)]
pub struct Square {}

/// A sawtooth wave (ramps up).
#[derive(Copy, Clone, Default, Debug)]
pub struct Sawtooth {}

} // verus!
