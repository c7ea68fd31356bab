//! Analysis core for digital audio signals: decoded sample streams held in
//! raw byte buffers, WAV container decoding, and a frequency-domain view
//! derived from a forward Fourier transform.
//!
//! Floating-point values cross the crate boundary as IEEE 754 bit patterns
//! held in plain integers (`u32` for 32-bit floats, `u64` for 64-bit), so
//! that every contract is stated over exact values.

pub mod channel;
pub mod codec;
pub mod sample;
pub mod signal;
pub mod spectrum;

pub use channel::Channel;
pub use channel::ChannelIter;
pub use sample::Sample;
pub use sample::SampleFormat;
pub use sample::SampleKind;
pub use signal::DecodeError;
pub use signal::Signal;
pub use spectrum::max_decibel;
pub use spectrum::ComplexBits;
pub use spectrum::Spectrum;
