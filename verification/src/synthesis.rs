//! Waveform selection for a periodic signal generator.
use vstd::prelude::*;

verus! {

/// The shapes a generator can produce. The last three are the band-limited
/// forms of triangle, saw and square, which trade exact shape for less aliasing.
pub enum WaveType {
    Sine,
    Triangle,
    Saw,
    Ramp,
    Square,
    PolyBLEPTri,
    PolyBLEPSaw,
    PolyBLEPSquare,
}

} // verus!
