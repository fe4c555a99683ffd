//! Speech-to-text results and errors.
use vstd::prelude::*;

verus! {

/// Errors of a speech-to-text backend.
#[derive(Debug)]
pub enum SttError {
    ModelLoad(String),
    Transcribe(String),
}

/// A transcription and the language it was decoded in, when fixed.
#[derive(Debug)]
pub struct Transcript {
    pub text: String,
    pub language: Option<String>,
}

} // verus!
