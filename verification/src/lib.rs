//! Core logic of a push-to-talk dictation tool: the custom dictionary that
//! rewrites transcriptions, the recording protocol, the choice of how text
//! is injected, the transcription session, the model catalogue and download
//! bookkeeping, and the cloud retry policy.
use vstd::prelude::*;

pub mod text;
pub mod dictionary;
pub mod audio;
pub mod inject;
pub mod settings;
pub mod transcribe;
pub mod pipeline;
pub mod history;
pub mod shell;

verus! {

} // verus!
