//! Cross-platform application audio capture.
//!
//! Capture uses WASAPI process loopback on Windows 11 and Core Audio process
//! taps on macOS 14.2 or newer; Windows 10 captures the default output endpoint
//! mix, since it cannot isolate a process. A capture can be recorded to an
//! IEEE-float WAV file and streamed to a FunASR service for transcription.
//!
//! This library holds the rules of all that: what is captured and how, which
//! application a selector means, what a WAV file holds, how packets become
//! chunks of speech, and how a FunASR session proceeds. It talks to no device,
//! file or network, and computes with no sample: what only those can tell comes
//! in as plain values and functions.

pub mod asr;
pub mod audio;
pub mod capture;
pub mod error;
pub mod pieces;
pub mod platform;
pub mod recording;
pub mod selector;
pub mod text;
pub mod time;
pub mod transcript;
pub mod transcription;
pub mod wav;

pub use capture::{
    AudioApplication, AudioFormat, AudioFrame, CaptureConfig, CaptureMode, CaptureSource,
    OutputDevice,
};
pub use error::Error;
pub use platform::{
    list_audio_applications, list_output_devices, process_isolation_supported,
    resolve_audio_application,
};
pub use selector::resolve_audio_application_from;
pub use wav::WavWriter;
