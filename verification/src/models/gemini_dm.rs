//! Shape of a reply of the Gemini service.

use vstd::prelude::*;

verus! {

/// A reply: the choices that the service offers.
#[derive(Debug)]
pub struct GeminiResponse {
    pub choices: Vec<GeminiChoice>,
}

/// One choice of a reply.
#[derive(Debug)]
pub struct GeminiChoice {
    pub message: GeminiMessage,
}

/// The message of a choice.
#[derive(Debug)]
pub struct GeminiMessage {
    pub content: String,
}

} // verus!
