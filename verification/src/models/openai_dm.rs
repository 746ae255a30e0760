//! Shape of a reply of the OpenAI service.

use vstd::prelude::*;

verus! {

/// A reply: the choices that the service offers.
#[derive(Debug)]
pub struct OpenAIResponse {
    pub choices: Vec<OpenAIChoice>,
}

/// One choice of a reply.
#[derive(Debug)]
pub struct OpenAIChoice {
    pub message: OpenAIMessage,
}

/// The message of a choice.
#[derive(Debug)]
pub struct OpenAIMessage {
    pub content: String,
}

} // verus!
