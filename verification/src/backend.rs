//! The interface of a blocking transcription backend.
use crate::TranscriptionSegment;
use vstd::prelude::*;

verus! {

/// The error type of backend operations: `anyhow::Error`, carried through
/// as an opaque value.
#[verifier::external_type_specification]
#[verifier::external_body]
pub struct ExAnyhowError(anyhow::Error);

/// A backend that takes 16 kHz mono PCM and hands back transcription
/// segments, for implementation by each kind of backend.
pub trait SyncTranscriptionBackend: Send {
    /// Send audio data (blocking).
    fn send_audio(&mut self, data: &[i16]) -> Result<(), anyhow::Error>;

    /// Receive a result, if one is ready (non-blocking).
    fn try_recv(&mut self) -> Option<TranscriptionSegment>;
}

} // verus!
