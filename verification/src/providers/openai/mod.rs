//! Everything that speaks the OpenAI shapes.

pub mod api;
pub mod cli;
pub mod embed;
