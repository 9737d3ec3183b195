//! Client-side resilience and schema-normalization layer for pools of
//! large-language-model backends.
//!
//! The crate provides: a client pool with selection behaviours and failure
//! tracking, a retry policy with exponential backoff and error
//! classification, a normalizer that projects arbitrary JSON Schema
//! documents onto a restricted schema dialect, and a multi-strategy
//! extractor that recovers JSON payloads from free-form model output.

use vstd::prelude::*;

pub mod analysis;
pub mod client;
pub mod errors;
pub mod extract;
pub mod json;
pub mod markdown;
pub mod models;
pub mod pool;
pub mod prompt;
pub mod retry;
pub mod schema;
pub mod settings;
pub mod strings;

verus! {

} // verus!
