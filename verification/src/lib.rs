use vstd::prelude::*;

pub mod agent;
pub mod build;
pub mod config;
pub mod error;
pub mod gguf;
pub mod git;
pub mod hardware;
pub mod llama;
pub mod models;
pub mod performance;
pub mod process;
pub mod profile_target;
pub mod profiles;
pub mod run_slot;
pub mod sorting;
pub mod text;
pub mod text_map;

verus! {
} // verus!
