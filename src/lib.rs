//! Serving code completions: the fixed decoding options, the language-aware
//! stop-word filter applied to generated text, the response envelope, and the
//! engine configuration assembled once at start-up.

pub mod completions;
pub mod engine;
pub mod languages;
