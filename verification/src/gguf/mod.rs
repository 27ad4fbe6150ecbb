//! Lightweight GGUF inspection used by the model catalog.
pub mod reader;
pub mod split;
