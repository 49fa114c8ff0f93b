//! A local request broker for a remote text/embedding generation provider.
//!
//! The broker accepts structured generation requests, deduplicates identical
//! work through a content-addressed persistent cache, enforces a rolling cost
//! budget before any provider call, and persists completed results.

use vstd::prelude::*;

pub mod cache;
pub mod chat_completion;
pub mod codec;
pub mod embedding;
pub mod fingerprint;
pub mod ipc;
pub mod moderation;
pub mod service;
pub mod text_completion;

verus! {

/// Hard ceiling on the completion token limit forwarded to the provider.
pub const MAX_TOKENS: u16 = 4000u16;

/// Process configuration handed to the pieces that talk to the provider.
pub struct Env {
    pub openai_api_key: String,
}

/// The token limit actually forwarded to the provider: the caller's limit,
/// silently clamped to the system ceiling.
pub open spec fn spec_clamped_token_limit(limit: u16) -> u16 {
    if limit > MAX_TOKENS {
        MAX_TOKENS
    } else {
        limit
    }
}

/// Clamp a completion token limit to the system ceiling.
pub fn clamped_token_limit(limit: u16) -> (r: u16)
    ensures
        r == spec_clamped_token_limit(limit),
        r <= MAX_TOKENS,
{
    if limit > MAX_TOKENS {
        MAX_TOKENS
    } else {
        limit
    }
}

} // verus!
