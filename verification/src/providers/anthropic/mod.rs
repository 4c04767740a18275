//! Anthropic, by every reach this crate has.
//!
//! The same models answer through the Messages API and through the command line tool, and they
//! are not interchangeable. The API takes tools and cache breakpoints and reports its token
//! counts. The tool takes none of those.

pub mod api;
pub mod cli;
