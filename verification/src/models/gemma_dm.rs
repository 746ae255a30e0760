//! Shape of a reply of the Gemma service.

use vstd::prelude::*;

verus! {

/// A reply: the choices that the service offers.
#[derive(Debug)]
pub struct GemmaResponse {
    pub choices: Vec<GemmaChoice>,
}

/// One choice of a reply.
#[derive(Debug)]
pub struct GemmaChoice {
    pub message: GemmaMessage,
}

/// The message of a choice.
#[derive(Debug)]
pub struct GemmaMessage {
    pub content: String,
}

} // verus!
