//! The `durable_store` role: steps that are committed once.
//!
//! Before a step with a side effect its caller reserves the step; what the
//! store answers tells whether the effect is still to be made. Afterwards the
//! caller commits the outcome, or gives the reservation up.

pub mod commit_outcome;
pub mod error_codes;
pub mod run_status;
pub mod step_status;

use vstd::prelude::*;

verus! {

/// `PluginKind` wire value for this kind.
pub const KIND: &'static str = "durable_store";

/// Per-crate semver protocol version.
pub const PROTOCOL_VERSION: &'static str = "0.1.0";

/// Register a fresh phase execution.
pub const METHOD_DURABLE_BEGIN_WORKFLOW_RUN: &'static str = "durable/begin_workflow_run";

/// Reserve / look up an idempotency_key before executing a side effect.
pub const METHOD_DURABLE_BEGIN_STEP: &'static str = "durable/begin_step";

/// Commit a step outcome and release its reservation.
pub const METHOD_DURABLE_COMMIT_STEP: &'static str = "durable/commit_step";

/// Release a reservation without committing.
pub const METHOD_DURABLE_ABANDON_STEP: &'static str = "durable/abandon_step";

/// Return workflow runs with outstanding reservations or pending state.
pub const METHOD_DURABLE_RECOVER_IN_FLIGHT: &'static str = "durable/recover_in_flight";

/// Query a run's full committed-step history.
pub const METHOD_DURABLE_QUERY_RUN: &'static str = "durable/query_run";
/// Request for [`METHOD_DURABLE_BEGIN_WORKFLOW_RUN`].
#[derive(Debug, Clone, PartialEq)]
pub struct BeginWorkflowRunRequest {
    /// Caller-supplied workflow run id.
    pub run_id: String,
    /// Caller-supplied phase id (DBOS workflow IDs are keyed by `(run_id,
    /// phase_id)`; different phases are different workflows).
    pub phase_id: String,
    /// Opaque inputs payload.
    pub inputs: serde_json::Value,
}

/// Response for [`METHOD_DURABLE_BEGIN_WORKFLOW_RUN`].
#[derive(Debug, Clone, PartialEq)]
pub struct BeginWorkflowRunResponse {
    /// Plugin-issued, monotonically increasing epoch.
    pub epoch: u64,
}

/// Request for [`METHOD_DURABLE_BEGIN_STEP`].
#[derive(Debug, Clone, PartialEq)]
pub struct BeginStepRequest {
    /// Run id (must match the one used in `begin_workflow_run`).
    pub run_id: String,
    /// Phase id.
    pub phase_id: String,
    /// Stable name for this step within the phase (e.g., `"spawn_agent"`,
    /// `"apply_git_ops"`).
    pub step_name: String,
    /// Caller-supplied idempotency key.
    pub idempotency_key: String,
    /// Backend-specific payload.
    pub payload: serde_json::Value,
    /// Reservation TTL in seconds.
    pub reservation_ttl_secs: Option<u64>,
}

/// Response for [`METHOD_DURABLE_BEGIN_STEP`].
#[derive(Debug, Clone, PartialEq)]
pub struct BeginStepResponse {
    /// Plugin-issued step id (used as the handle for `commit_step` /
    /// `abandon_step`).
    pub step_id: String,
    /// serde_json::Value from `step_status`.
    pub status: String,
    /// Present when `status == ALREADY_COMMITTED`.
    pub prior_output: Option<serde_json::Value>,
    /// Present when `status == PRIOR_ERROR`.
    pub prior_error: Option<StepError>,
    /// Present when `status == IN_PROGRESS`.
    pub reservation_expires_at: Option<String>,
}

/// Request for [`METHOD_DURABLE_COMMIT_STEP`].
#[derive(Debug, Clone, PartialEq)]
pub struct CommitStepRequest {
    /// Step id from [`BeginStepResponse`].
    pub step_id: String,
    /// Required: `"success"` or `"error"`.
    pub outcome: String,
    /// Optional success payload.
    pub output: Option<serde_json::Value>,
    /// Optional error payload.
    pub error: Option<StepError>,
}

/// Structured error payload returned with PRIOR_ERROR or carried by
/// [`CommitStepRequest`].
#[derive(Debug, Clone, PartialEq)]
pub struct StepError {
    /// Backend-specific error code.
    pub code: String,
    /// Human-readable message.
    pub message: String,
    /// Backend-specific details.
    pub details: serde_json::Value,
}

/// Response for [`METHOD_DURABLE_COMMIT_STEP`].
#[derive(Debug, Clone, PartialEq)]
pub struct CommitStepResponse {
    /// `true` if the commit was persisted (or already persisted under
    /// idempotent retry).
    pub ack: bool,
}

/// Request for [`METHOD_DURABLE_ABANDON_STEP`].
#[derive(Debug, Clone, PartialEq)]
pub struct AbandonStepRequest {
    /// Step id whose reservation should be released.
    pub step_id: String,
    /// Optional audit reason.
    pub reason: Option<String>,
}

/// Response for [`METHOD_DURABLE_ABANDON_STEP`].
#[derive(Debug, Clone, PartialEq)]
pub struct AbandonStepResponse {
    /// `true` if a reservation was found and released.
    pub ack: bool,
}

/// Request for [`METHOD_DURABLE_RECOVER_IN_FLIGHT`].
#[derive(Debug, Clone, PartialEq)]
pub struct RecoverInFlightRequest {
    /// Epoch cursor.
    pub since_epoch: u64,
}

/// Response for [`METHOD_DURABLE_RECOVER_IN_FLIGHT`].
#[derive(Debug, Clone, PartialEq)]
pub struct RecoverInFlightResponse {
    /// Workflow runs that have outstanding reservations or pending state.
    pub in_flight: Vec<InFlightRun>,
}

/// A run that had outstanding reservations at recovery time.
#[derive(Debug, Clone, PartialEq)]
pub struct InFlightRun {
    /// Run id.
    pub run_id: String,
    /// Phase id.
    pub phase_id: String,
    /// Step name of the last committed step, if any.
    pub last_committed_step: Option<String>,
    /// Backend-specific replay state.
    pub replay_state: serde_json::Value,
}

/// Request for [`METHOD_DURABLE_QUERY_RUN`].
#[derive(Debug, Clone, PartialEq)]
pub struct QueryRunRequest {
    /// Run id to query.
    pub run_id: String,
    /// Phase id (DBOS workflow id is keyed by `(run_id, phase_id)`).
    pub phase_id: String,
}

/// Response for [`METHOD_DURABLE_QUERY_RUN`].
#[derive(Debug, Clone, PartialEq)]
pub struct QueryRunResponse {
    /// Run id (echoed).
    pub run_id: String,
    /// Phase id (echoed).
    pub phase_id: String,
    /// Status value from `run_status`.
    pub status: String,
    /// Committed step records, in commit order.
    pub steps: Vec<StepRecord>,
}

/// A committed step record returned by [`METHOD_DURABLE_QUERY_RUN`].
#[derive(Debug, Clone, PartialEq)]
pub struct StepRecord {
    /// Step id.
    pub step_id: String,
    /// Step name.
    pub step_name: String,
    /// Idempotency key.
    pub idempotency_key: String,
    /// RFC 3339 commit timestamp.
    pub committed_at: String,
    /// `"success"` or `"error"` - the authoritative outcome (see
    /// `commit_outcome`).
    pub outcome: String,
    /// Optional success payload.
    pub output: Option<serde_json::Value>,
    /// Optional error payload.
    pub error: Option<StepError>,
}

/// Capability flags for durable_store plugins.
#[derive(Debug, Clone, PartialEq)]
pub struct DurableStoreCapabilities {
    /// Default reservation TTL in seconds.
    pub default_reservation_ttl_secs: u64,
    /// Maximum serialized payload size (bytes) the backend accepts for a
    /// single step's `output` or `error`.
    pub max_payload_bytes: u64,
    /// `true` if the backend supports the `recover_in_flight` cursor / epoch
    /// model.
    pub supports_recovery: bool,
}

impl Default for DurableStoreCapabilities {
    fn default() -> (r: Self)
        ensures
            r.default_reservation_ttl_secs == 0,
            r.max_payload_bytes == 0,
            !r.supports_recovery,
    {
        DurableStoreCapabilities {
            default_reservation_ttl_secs: 0,
            max_payload_bytes: 0,
            supports_recovery: false,
        }
    }
}

} // verus!
