//! Audio analysis and rendering core of an audio-reactive LED matrix.
//!
//! The crate is the arithmetic heart of a small device that listens to an audio
//! feed and shows either a frequency equalizer or an instrument tuner on a
//! serpentine LED matrix. Everything here works on whole numbers: frequencies
//! are held in millihertz, pitch deviations in millicents and normalised
//! magnitudes in millionths of full scale, so that every rule can be stated
//! and proved exactly. What needs floating point, namely the Fourier
//! transform, the pitch detector, the filters and the trigonometry of the
//! colour cycles, is left to the caller, who hands its results in as whole
//! numbers.
//!
//! - [`audio_input`] decodes the bytes of the audio input into samples.
//! - [`audiovisual`] gathers samples into chunks, bins spectra, smooths
//!   pitches and paints the frames of the two displays.
//! - [`big_nat`] holds the large numbers that the placement of bin edges is
//!   computed with.
//! - [`graphics`] paints graphics on a serpentine matrix of any size.
//! - [`mode`] keeps track of the mode that the device is in.
//! - [`rounding`] rounds quotients of whole numbers.
//! - [`sprite`] holds the picture that announces a change of mode.

pub mod config;
pub mod big_nat;
pub mod audio_input;
pub mod mode;
pub mod audiovisual;
pub mod graphics;
pub mod rounding;
pub mod sprite;

pub use mode::EqTunerModeEnum;
pub use mode::FrequalizerMode;
