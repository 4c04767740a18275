//! The ways a model is reached.

pub mod anthropic;
pub mod api;
pub mod bedrock;
pub mod cli;
pub mod gemini;
pub mod openai;
pub mod wire;
