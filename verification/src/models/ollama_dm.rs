//! Shape of a reply of the Ollama service.

use vstd::prelude::*;

verus! {

/// A reply: the choices that the service offers.
#[derive(Debug)]
pub struct OllamaResponse {
    pub choices: Vec<OllamaChoice>,
}

/// One choice of a reply.
#[derive(Debug)]
pub struct OllamaChoice {
    pub message: OllamaMessage,
}

/// The message of a choice.
#[derive(Debug)]
pub struct OllamaMessage {
    pub content: String,
}

} // verus!
