//! Transcription support for a WebRTC media server.
//!
//! Audio is taken out of RTP packets, decoded and resampled, and sent to a
//! transcription backend (a SimulStreaming server over TCP, or an
//! OpenAI-style HTTP API); the backend's replies come back as transcription
//! segments. This crate holds the parsing, encoding, batching and session
//! bookkeeping of that pipeline.
use vstd::prelude::*;

pub mod backend;
pub mod chunker;
pub mod config;
pub mod openai;
pub mod rtp;
pub mod sessions;
pub mod signaling;
pub mod table;
pub mod text;
pub mod wav;

verus! {

/// Sample rate SimulStreaming expects: 16kHz, mono, S16_LE PCM.
pub const SIMULSTREAMING_SAMPLE_RATE: u32 = 16000;

/// Sample rate WebRTC audio typically uses.
pub const WEBRTC_SAMPLE_RATE: u32 = 48000;

/// Transcription result from a backend.
#[derive(Debug, Clone)]
pub struct TranscriptionSegment {
    /// Start timestamp in milliseconds (relative to audio stream start)
    pub start_ms: u64,
    /// End timestamp in milliseconds
    pub end_ms: u64,
    /// Transcribed text
    pub text: String,
}

} // verus!
