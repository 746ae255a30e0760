//! Shape of a reply of the Llama service.

use vstd::prelude::*;

verus! {

/// A reply: the choices that the service offers.
#[derive(Debug)]
pub struct LlamaResponse {
    pub choices: Vec<LlamaChoice>,
}

/// One choice of a reply.
#[derive(Debug)]
pub struct LlamaChoice {
    pub message: LlamaMessage,
}

/// The message of a choice.
#[derive(Debug)]
pub struct LlamaMessage {
    pub content: String,
}

} // verus!
