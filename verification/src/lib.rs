//! Audio capture, normalization and model-lifecycle library for an
//! interactive dictation application.
//!
//! The crate holds the verified core of the pipeline: the WAV container
//! codec and in-memory sink, the fixed-point sample pipeline that turns
//! arbitrary PCM into the canonical 16 kHz / mono / 16-bit form, the
//! loudness-bar computation, the device-configuration negotiation, the
//! recording-session state machine and the model-manager state machine.
//! Platform audio streams, threads, file handles and the floating-point
//! resampler live outside the library and drive it through these types.

pub mod levels;
pub mod model_manager;
pub mod normalize;
pub mod overlay;
pub mod session;
pub mod sink;
pub mod text;
pub mod wav;
