//! A real-time audio processing core: a fixed-capacity multi-channel sample
//! buffer, a processor abstraction transforming input samples into output
//! samples, a driver-callback routine that feeds variable-sized device
//! buffers through a processor in bounded chunks, and pure unit-conversion
//! helpers for frequencies and durations.
//!
//! Samples are fixed-point values: an `i64` counts units of
//! `1 / SAMPLE_SCALE`, so the sample `1.0` is stored as `SAMPLE_SCALE`.
//! Amplitudes use the same scale. Unverified front-end code converts between
//! this representation and whatever the audio device or file format uses.

pub mod processor;
pub mod sample;
pub mod system;
pub mod toolkit;

pub use processor::{AudioBuffer, AudioProcessor, AudioProcessorData, MAX_BLOCK_SIZE};
pub use sample::{SAMPLE_LIMIT, SAMPLE_SCALE};
