//! Amazon Bedrock, and the models several vendors serve through it.
//!
//! A node of its own rather than a folder inside another vendor, because the top level of
//! `providers` names who you reach and whose credential pays, and for Bedrock that is Amazon.

pub mod api;
