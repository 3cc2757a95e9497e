//! Transcription: the local model catalogue and downloads, the cloud request
//! and its retry policy, and the local model cache.
pub mod model;
pub mod cloud;
pub mod local;
