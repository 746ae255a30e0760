//! Shape of a reply of a chat completion service.

use vstd::prelude::*;

verus! {

/// A reply: the choices that the service offers.
#[derive(Debug)]
pub struct ClaudeResponse {
    pub choices: Vec<ClaudeChoice>,
}

/// One choice of a reply.
#[derive(Debug)]
pub struct ClaudeChoice {
    pub message: ClaudeMessage,
}

/// The message of a choice.
#[derive(Debug)]
pub struct ClaudeMessage {
    pub content: String,
}

} // verus!
