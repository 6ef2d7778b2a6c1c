//! JSON-RPC error codes of chat providers.

use vstd::prelude::*;

verus! {

/// The requested model is unknown to this provider.
pub const MODEL_NOT_FOUND: i32 = -32801;

/// The upstream API key is missing or invalid.
pub const AUTH_FAILED: i32 = -32802;

/// The upstream API rate-limited the request.
pub const RATE_LIMITED: i32 = -32803;

/// The request exceeded the model's context window.
pub const CONTEXT_LENGTH_EXCEEDED: i32 = -32804;

/// The upstream provider API is unavailable.
pub const UPSTREAM_UNAVAILABLE: i32 = -32805;

/// `chat/count_tokens` is not supported by this provider.
pub const COUNT_TOKENS_UNSUPPORTED: i32 = -32806;

} // verus!
