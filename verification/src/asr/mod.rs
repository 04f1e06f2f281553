//! Speech recognition by a remote FunASR service.

pub mod funasr;
pub mod laws;
pub mod protocol;
pub mod session;

pub use funasr::{AsrMode, FunAsrConfig, TranscriptEvent};
pub use session::Connection;
