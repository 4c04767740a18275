//! Gemini, over its own API.

pub mod api;
pub mod embed;
