//! Fixed settings of the device.

use vstd::prelude::*;

verus! {

/// Number of LEDs in one row of the matrix.
pub const LEDS_MAX_X: usize = 8;

/// Number of rows of the matrix. The equalizer shows one frequency bin per row.
pub const LEDS_MAX_Y: usize = 32;

/// Sample rate of the audio feed, in hertz.
pub const AUDIO_SAMPLE_RATE: u32 = 48000;

/// Number of samples that one analysis pass consumes.
pub const CHUNK_SIZE: usize = 2048;

/// Millihertz in one hertz: the unit in which the library holds frequencies.
pub const MILLIHERTZ_PER_HERTZ: u64 = 1000;

/// The value that stands for 1.0 in a normalised magnitude.
pub const FULL_SCALE: u32 = 1_000_000;

} // verus!
