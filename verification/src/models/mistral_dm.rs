//! Shape of a reply of the Mistral service.

use vstd::prelude::*;

verus! {

/// A reply: the choices that the service offers.
#[derive(Debug)]
pub struct MistralResponse {
    pub choices: Vec<MistralChoice>,
}

/// One choice of a reply.
#[derive(Debug)]
pub struct MistralChoice {
    pub message: MistralMessage,
}

/// The message of a choice.
#[derive(Debug)]
pub struct MistralMessage {
    pub content: String,
}

} // verus!
