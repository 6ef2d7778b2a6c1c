//! JSON-RPC error codes of durable stores.

use vstd::prelude::*;

verus! {

/// Run id not found (begin_workflow_run was never called).
pub const RUN_NOT_FOUND: i32 = -32301;

/// Step id not found (commit_step / abandon_step on unknown reservation).
pub const STEP_NOT_FOUND: i32 = -32302;

/// Reservation expired before commit.
pub const RESERVATION_EXPIRED: i32 = -32303;

/// Backend (Postgres / DBOS) unavailable.
pub const BACKEND_UNAVAILABLE: i32 = -32304;

/// Project root mismatch.
pub const PROJECT_BINDING_MISMATCH: i32 = -32305;

/// Replay determinism violated (step issued out of order vs. recorded).
pub const REPLAY_NONDETERMINISM: i32 = -32306;

/// `CommitStepRequest.outcome` was not a valid `commit_outcome` value.
pub const INVALID_COMMIT_OUTCOME: i32 = -32307;

} // verus!
