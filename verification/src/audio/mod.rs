//! Conversion of captured audio to speech input.

pub mod laws;
pub mod normalize;

pub use normalize::{Conversion, Pcm16Chunk, SpeechNormalizer};
