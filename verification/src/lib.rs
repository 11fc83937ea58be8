//! Resolution of human-chosen model names to canonical repository
//! identifiers, and token counting for a text prompt against a loaded
//! tokenizer.
//!
//! The registry maps friendly model names to canonical identifiers; a
//! requested name is resolved exactly, or answered with the most similar
//! known name as a suggestion.  A tokenizer is loaded from its serialized
//! form and used to count the tokens a prompt encodes to.

pub mod errors;
pub mod models;
pub mod order;
pub mod prompt;
pub mod similarity;
pub mod text;
pub mod token;
