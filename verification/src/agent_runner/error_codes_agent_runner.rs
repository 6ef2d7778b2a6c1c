//! JSON-RPC error codes of agent runners.

use vstd::prelude::*;

verus! {

/// Host-reported protocol version is incompatible with what the plugin was
/// built against.
pub const PROTOCOL_VERSION_MISMATCH: i32 = -32501;

/// Caller addressed a `run_id` the plugin has no record of.
pub const RUN_NOT_FOUND: i32 = -32502;

/// Caller tried to start a new run with a `run_id` that is already in flight
/// and the plugin's `replay_support` is `false`.
pub const RUN_ALREADY_RUNNING: i32 = -32503;

/// Run is in a terminal state; further control actions are no-ops.
pub const RUN_TERMINAL: i32 = -32504;

/// Requested control action is not supported by this plugin (e.g., `pause`
/// without `pause_resume_support`).
pub const CONTROL_ACTION_UNSUPPORTED: i32 = -32505;

/// Model id requested in `model` is not known to this plugin (no mapped CLI
/// invocation).
pub const MODEL_UNAVAILABLE: i32 = -32506;

/// `context` failed plugin-side validation (missing well-known key,
/// malformed value, ...).
pub const INVALID_RUNTIME_CONTRACT: i32 = -32507;

} // verus!
