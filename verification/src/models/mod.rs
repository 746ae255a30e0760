//! Plain data carried to and from the services around the engine.

pub mod claude_dm;
pub mod financial_models;
pub mod gemini_dm;
pub mod gemma_dm;
pub mod llama_dm;
pub mod mistral_dm;
pub mod ollama_dm;
pub mod openai_dm;
