//! The `agent_runner` role: runs of coding agents.

pub mod error_codes_agent_runner;

use vstd::prelude::*;

use crate::agent_runner::error_codes_agent_runner::{
    CONTROL_ACTION_UNSUPPORTED, INVALID_RUNTIME_CONTRACT, MODEL_UNAVAILABLE,
    PROTOCOL_VERSION_MISMATCH, RUN_ALREADY_RUNNING, RUN_NOT_FOUND, RUN_TERMINAL,
};
use crate::config::agent_types::Float64;
use crate::rpc::{RpcCode, RpcError};

verus! {

/// `PluginKind` wire value for this kind.
pub const KIND: &'static str = "agent_runner";

/// Per-crate semver protocol version.
pub const PROTOCOL_VERSION: &'static str = "0.1.0";

/// `agent_runner/run` - start a new agent run.
pub const METHOD_AGENT_RUNNER_RUN: &'static str = "agent_runner/run";

/// `agent_runner/control` - apply [`AgentControlAction`] to a running agent.
pub const METHOD_AGENT_RUNNER_CONTROL: &'static str = "agent_runner/control";

/// `agent_runner/agent_status` - point-in-time status for a single run.
pub const METHOD_AGENT_RUNNER_AGENT_STATUS: &'static str = "agent_runner/agent_status";

/// `agent_runner/runner_status` - sidecar-wide active-run count, protocol
/// version, optional metrics.
pub const METHOD_AGENT_RUNNER_RUNNER_STATUS: &'static str = "agent_runner/runner_status";

/// `agent_runner/model_status` - preflight availability check for a list of
/// model ids (is the CLI binary on PATH, is the API key present, has the
/// operator disabled this model, ...).
pub const METHOD_AGENT_RUNNER_MODEL_STATUS: &'static str = "agent_runner/model_status";

/// `agent_runner/event` - JSON-RPC notification (no `id`) the plugin emits to
/// push run lifecycle and output frames to the host.
pub const METHOD_AGENT_RUNNER_EVENT: &'static str = "agent_runner/event";
/// Stable identifier for one agent run.
#[derive(Debug, Clone, PartialEq, Eq, Hash)]
pub struct RunId(pub String);

/// Stable identifier for a coding-agent model.
#[derive(Debug, Clone, PartialEq, Eq, Hash)]
pub struct ModelId(pub String);

/// Parameters for [`METHOD_AGENT_RUNNER_RUN`].
#[derive(Debug, Clone, PartialEq)]
pub struct AgentRunRequest {
    /// Host's reported semver of this crate.
    pub protocol_version: String,
    /// Run id chosen by the host.
    pub run_id: RunId,
    /// Model the host wants the agent to run.
    pub model: ModelId,
    /// Project root the run targets.
    pub project_root: String,
    /// Opaque runtime contract; see the type docstring for well-known keys.
    pub context: serde_json::Value,
    /// Soft wall-clock timeout for the run, in seconds.
    pub timeout_secs: Option<u64>,
}

/// Response for [`METHOD_AGENT_RUNNER_RUN`].
#[derive(Debug, Clone, PartialEq)]
pub struct AgentRunStarted {
    /// Echo of `run_id`.
    pub run_id: RunId,
    /// `true` iff the run was already in flight and this call is effectively
    /// a re-attach to an existing supervisor.
    pub reattached: bool,
    /// RFC 3339 timestamp the plugin recorded as the run's actual start time.
    pub started_at: String,
}

/// Notification payload for [`METHOD_AGENT_RUNNER_EVENT`].
#[derive(Debug, Clone, PartialEq)]
pub struct AgentRunEventParams {
    /// The actual lifecycle / output event.
    pub event: AgentRunEvent,
}

/// One frame in the agent run lifecycle stream.
#[derive(Debug, Clone, PartialEq)]
pub enum AgentRunEvent {
    /// Run was accepted by the supervisor and the agent CLI was spawned (or a
    /// replay session was opened).
    Started {
        /// Run id this event belongs to.
        run_id: RunId,
        /// RFC 3339 spawn timestamp.
        timestamp: String,
    },
    /// One chunk of agent CLI output.
    OutputChunk {
        /// Run id this event belongs to.
        run_id: RunId,
        /// Which stream produced the chunk.
        stream_type: OutputStreamType,
        /// The output bytes interpreted as UTF-8.
        text: String,
    },
    /// Telemetry sample emitted mid-run (cost, token counts, ...).
    Metadata {
        /// Run id this event belongs to.
        run_id: RunId,
        /// Cumulative USD cost reported by the agent CLI, if known.
        cost: Option<Float64>,
        /// Cumulative token usage reported by the agent CLI, if known.
        tokens: Option<TokenUsage>,
    },
    /// Terminal error frame.
    Error {
        /// Run id this event belongs to.
        run_id: RunId,
        /// Human-readable error string.
        error: String,
    },
    /// Terminal completion frame.
    Finished {
        /// Run id this event belongs to.
        run_id: RunId,
        /// Exit code of the agent CLI, if it produced one.
        exit_code: Option<i32>,
        /// Total run wall-clock duration in milliseconds.
        duration_ms: u64,
    },
    /// Agent invoked a tool.
    ToolCall {
        /// Run id this event belongs to.
        run_id: RunId,
        /// Structured tool-call description.
        tool_info: ToolCallInfo,
    },
    /// Tool finished.
    ToolResult {
        /// Run id this event belongs to.
        run_id: RunId,
        /// Structured tool-result description.
        result_info: ToolResultInfo,
    },
    /// Agent produced an artifact (file, code snippet, image, ...).
    Artifact {
        /// Run id this event belongs to.
        run_id: RunId,
        /// Structured artifact description.
        artifact_info: ArtifactInfo,
    },
    /// Agent emitted private chain-of-thought / reasoning text.
    Thinking {
        /// Run id this event belongs to.
        run_id: RunId,
        /// The reasoning text.
        content: String,
    },
}

/// Which stream of the agent CLI a chunk came from.
#[derive(Debug, Clone, Copy, PartialEq, Eq, Structural)]
pub enum OutputStreamType {
    /// Standard output.
    Stdout,
    /// Standard error.
    Stderr,
    /// Synthetic stream the runner uses for sidecar-internal messages.
    /// supervisor warnings) routed through the same event channel.
    System,
}

/// Token usage report attached to a [`Metadata`] frame.
#[derive(Debug, Clone, PartialEq, Eq)]
pub struct TokenUsage {
    /// Input / prompt tokens.
    pub input: u32,
    /// Output / completion tokens.
    pub output: u32,
    /// Reasoning tokens (for models that report them separately).
    pub reasoning: Option<u32>,
    /// Cached-prompt-read tokens.
    pub cache_read: Option<u32>,
    /// Cached-prompt-write tokens.
    pub cache_write: Option<u32>,
}

/// Structured description of one tool invocation.
#[derive(Debug, Clone, PartialEq)]
pub struct ToolCallInfo {
    /// Tool name.
    pub tool_name: String,
    /// Tool parameters, opaque to this crate.
    pub parameters: serde_json::Value,
    /// RFC 3339 invocation timestamp.
    pub timestamp: String,
}

/// Structured description of one tool result.
#[derive(Debug, Clone, PartialEq)]
pub struct ToolResultInfo {
    /// Tool name (matches the corresponding `tool_name`).
    pub tool_name: String,
    /// Tool result payload, opaque to this crate.
    pub result: serde_json::Value,
    /// Wall-clock duration of the tool call in milliseconds.
    pub duration_ms: u64,
    /// `true` iff the tool reported success.
    pub success: bool,
}

/// Structured description of one artifact the agent produced.
#[derive(Debug, Clone, PartialEq)]
pub struct ArtifactInfo {
    /// Stable artifact id.
    pub artifact_id: String,
    /// Coarse artifact category.
    pub artifact_type: ArtifactType,
    /// Filesystem path for file-backed artifacts.
    pub file_path: Option<String>,
    /// Size in bytes, when known.
    pub size_bytes: Option<u64>,
    /// MIME type, when known.
    pub mime_type: Option<String>,
}

/// Coarse classification of an artifact.
#[derive(Debug, Clone, Copy, PartialEq, Eq, Structural)]
pub enum ArtifactType {
    /// File on disk.
    File,
    /// Code snippet.
    Code,
    /// Image.
    Image,
    /// Document.
    Document,
    /// Structured data (JSON, CSV, ...).
    Data,
    /// Anything else.
    Other,
}

/// Parameters for [`METHOD_AGENT_RUNNER_CONTROL`].
#[derive(Debug, Clone, PartialEq)]
pub struct AgentControlRequest {
    /// Run id to act on.
    pub run_id: RunId,
    /// Action to apply.
    pub action: AgentControlAction,
}

/// Lifecycle actions the host can request on a run.
#[derive(Debug, Clone, Copy, PartialEq, Eq, Structural)]
pub enum AgentControlAction {
    /// Pause a running agent (advisory).
    Pause,
    /// Resume a paused agent (advisory).
    Resume,
    /// Forcefully terminate a running agent.
    Terminate,
}

/// Response for [`METHOD_AGENT_RUNNER_CONTROL`].
#[derive(Debug, Clone, PartialEq)]
pub struct AgentControlResponse {
    /// Echo of `run_id`.
    pub run_id: RunId,
    /// `true` iff the requested action was applied.
    pub success: bool,
    /// Optional human-readable detail.
    pub message: Option<String>,
}

/// Parameters for [`METHOD_AGENT_RUNNER_AGENT_STATUS`].
#[derive(Debug, Clone, PartialEq)]
pub struct AgentStatusRequest {
    /// Run id to query.
    pub run_id: RunId,
}

/// Tagged-union response for [`METHOD_AGENT_RUNNER_AGENT_STATUS`].
#[derive(Debug, Clone, PartialEq)]
pub enum AgentStatusQueryResponse {
    /// Run exists and the plugin returned a snapshot.
    Status(AgentStatusResponse),
    /// Run does not exist, or another structured error occurred.
    Error(AgentStatusErrorResponse),
}

/// Snapshot of one run's lifecycle state.
#[derive(Debug, Clone, PartialEq)]
pub struct AgentStatusResponse {
    /// Echo of `run_id`.
    pub run_id: RunId,
    /// Current lifecycle status.
    pub status: AgentStatus,
    /// Wall-clock elapsed time since `started_at`, in milliseconds.
    pub elapsed_ms: u64,
    /// RFC 3339 spawn timestamp.
    pub started_at: String,
    /// RFC 3339 terminal timestamp, if the run has finished.
    pub completed_at: Option<String>,
}

/// Structured error wrapper for [`Error`].
#[derive(Debug, Clone, PartialEq)]
pub struct AgentStatusErrorResponse {
    /// Echo of `run_id`.
    pub run_id: RunId,
    /// Machine-readable error category.
    pub code: AgentStatusErrorCode,
    /// Human-readable detail.
    pub message: String,
}

/// Error categories returned in `code`.
#[derive(Debug, Clone, Copy, PartialEq, Eq, Structural)]
pub enum AgentStatusErrorCode {
    /// The plugin has no record of this run id (never started, or already
    /// evicted from in-memory state).
    NotFound,
}

/// Possible lifecycle states reported by `status`.
#[derive(Debug, Clone, Copy, PartialEq, Eq, Structural)]
pub enum AgentStatus {
    /// Run has been accepted but has not yet emitted [`Started`].
    Starting,
    /// Run is actively producing output.
    Running,
    /// Run is paused (only meaningful if the plugin advertises
    /// `pause_resume_support`).
    Paused,
    /// Run terminated successfully.
    Completed,
    /// Run terminated with an error.
    Failed,
    /// Run terminated because the host's timeout fired.
    Timeout,
    /// Run terminated because a `Terminate` control action was applied.
    Terminated,
}

/// Parameters for [`METHOD_AGENT_RUNNER_RUNNER_STATUS`].
#[derive(Default, Debug, Clone, PartialEq, Eq)]
pub struct RunnerStatusRequest {}

/// Response for [`METHOD_AGENT_RUNNER_RUNNER_STATUS`].
#[derive(Debug, Clone, PartialEq)]
pub struct RunnerStatusResponse {
    /// Number of in-flight runs the plugin is supervising.
    pub active_agents: usize,
    /// Per-crate protocol version the plugin was built against.
    pub protocol_version: String,
    /// Optional build hash so operators can correlate a running sidecar with
    /// a specific binary build.
    pub build_id: Option<String>,
    /// Optional free-form telemetry blob (queue depths, supervisor counters,
    /// ...).
    pub metrics: Option<serde_json::Value>,
}

/// Parameters for [`METHOD_AGENT_RUNNER_MODEL_STATUS`].
#[derive(Debug, Clone, PartialEq)]
pub struct ModelStatusRequest {
    /// Models to probe.
    pub models: Vec<ModelId>,
}

/// Response for [`METHOD_AGENT_RUNNER_MODEL_STATUS`].
#[derive(Debug, Clone, PartialEq)]
pub struct ModelStatusResponse {
    /// One entry per `models` id, in the same order.
    pub statuses: Vec<ModelStatus>,
}

/// Availability snapshot for one model.
#[derive(Debug, Clone, PartialEq)]
pub struct ModelStatus {
    /// Model id this snapshot describes.
    pub model: ModelId,
    /// Availability classification.
    pub availability: ModelAvailability,
    /// Optional human-readable detail (e.g. which env var is missing).
    pub details: Option<String>,
}

/// Availability categories returned in `availability`.
#[derive(Debug, Clone, Copy, PartialEq, Eq, Structural)]
pub enum ModelAvailability {
    /// CLI binary present, API key present, model not disabled.
    Available,
    /// The CLI binary for this model is not on `PATH`.
    MissingCli,
    /// The required API key environment variable is missing.
    MissingApiKey,
    /// The operator disabled this model.
    Disabled,
    /// The plugin couldn't classify availability (unexpected error).
    Error,
}

/// Static manifest an agent-runner plugin declares at install time.
#[derive(Debug, Clone, PartialEq)]
pub struct AgentRunnerManifest {
    /// Plugin name.
    pub name: String,
    /// Plugin semver.
    pub version: String,
    /// Description.
    pub description: String,
    /// Capability flags.
    pub capabilities: AgentRunnerCapabilities,
}

/// Backend-specific capability flags serialized into `extra`.
#[derive(Debug, Clone, PartialEq, Eq)]
pub struct AgentRunnerCapabilities {
    /// Plugin understands [`Pause`] / [`Resume`].
    pub pause_resume_support: bool,
    /// Plugin can re-attach to an in-flight run after a daemon restart,
    /// replaying buffered events on the [`METHOD_AGENT_RUNNER_RUN`] call
    /// rather than rejecting the duplicate.
    pub replay_support: bool,
    /// Plugin emits [`Thinking`] frames for models that expose private
    /// reasoning text.
    pub thinking_events: bool,
    /// Plugin emits [`ToolCall`] / [`ToolResult`] frames.
    pub tool_events: bool,
    /// Plugin emits [`Artifact`] frames.
    pub artifact_events: bool,
    /// Plugin enforces a per-run workspace-guard that refuses to spawn the
    /// agent CLI outside `project_root`.
    pub workspace_guard: bool,
}

impl Default for AgentRunnerCapabilities {
    fn default() -> (r: Self)
        ensures
            !r.pause_resume_support,
            !r.replay_support,
            !r.thinking_events,
            !r.tool_events,
            !r.artifact_events,
            !r.workspace_guard,
    {
        AgentRunnerCapabilities {
            pause_resume_support: false,
            replay_support: false,
            thinking_events: false,
            tool_events: false,
            artifact_events: false,
            workspace_guard: false,
        }
    }
}

/// Errors an agent-runner backend may return.
#[derive(Debug, Clone)]
pub enum AgentRunnerBackendError {
    /// Caller addressed a `run_id` the plugin has no record of.
    RunNotFound(String),
    /// Caller tried to start a new run with a `run_id` already in flight.
    RunAlreadyRunning(String),
    /// Run is in a terminal state.
    RunTerminal(String),
    /// Requested control action is not supported by this plugin.
    ControlActionUnsupported(String),
    /// Model id is not mapped to a CLI invocation.
    ModelUnavailable(String),
    /// `context` failed plugin-side validation.
    InvalidRuntimeContract(String),
    /// Host-reported protocol version is incompatible.
    ProtocolVersionMismatch(String),
    /// Request was malformed at the domain level.
    InvalidRequest(String),
    /// Backend (or its upstream) is temporarily unavailable.
    Unavailable(String),
    /// Anything else.
    Other(String),
}

// ---------------------------------------------------------------------
// Ids
// ---------------------------------------------------------------------

impl RunId {
    /// The id with this text.
    pub fn new(id: String) -> (r: Self)
        ensures
            r.0 == id,
    {
        RunId(id)
    }

    /// The id's text.
    pub fn as_str(&self) -> (r: &str)
        ensures
            r@ == self.0@,
    {
        self.0.as_str()
    }
}

impl ModelId {
    /// The id with this text.
    pub fn new(id: String) -> (r: Self)
        ensures
            r.0 == id,
    {
        ModelId(id)
    }

    /// The id's text.
    pub fn as_str(&self) -> (r: &str)
        ensures
            r@ == self.0@,
    {
        self.0.as_str()
    }
}

// ---------------------------------------------------------------------
// Errors as answers
// ---------------------------------------------------------------------

impl AgentRunnerBackendError {
    /// What the error says about the case at hand.
    pub open spec fn detail(self) -> Seq<char> {
        match self {
            AgentRunnerBackendError::RunNotFound(detail) => detail@,
            AgentRunnerBackendError::RunAlreadyRunning(detail) => detail@,
            AgentRunnerBackendError::RunTerminal(detail) => detail@,
            AgentRunnerBackendError::ControlActionUnsupported(detail) => detail@,
            AgentRunnerBackendError::ModelUnavailable(detail) => detail@,
            AgentRunnerBackendError::InvalidRuntimeContract(detail) => detail@,
            AgentRunnerBackendError::ProtocolVersionMismatch(detail) => detail@,
            AgentRunnerBackendError::InvalidRequest(detail) => detail@,
            AgentRunnerBackendError::Unavailable(detail) => detail@,
            AgentRunnerBackendError::Other(detail) => detail@,
        }
    }

    /// What stands before the detail in the error's text.
    pub open spec fn heading(self) -> Seq<char> {
        match self {
            AgentRunnerBackendError::RunNotFound(_) => "run not found: "@,
            AgentRunnerBackendError::RunAlreadyRunning(_) => "run already running: "@,
            AgentRunnerBackendError::RunTerminal(_) => "run terminal: "@,
            AgentRunnerBackendError::ControlActionUnsupported(_)
            => "control action unsupported: "@,
            AgentRunnerBackendError::ModelUnavailable(_) => "model unavailable: "@,
            AgentRunnerBackendError::InvalidRuntimeContract(_) => "invalid runtime contract: "@,
            AgentRunnerBackendError::ProtocolVersionMismatch(_)
            => "protocol version mismatch: "@,
            AgentRunnerBackendError::InvalidRequest(_) => "invalid request: "@,
            AgentRunnerBackendError::Unavailable(_) => "backend unavailable: "@,
            AgentRunnerBackendError::Other(_) => ""@,
        }
    }

    /// The code of an answer with this error.
    pub open spec fn code(self) -> RpcCode {
        match self {
            AgentRunnerBackendError::RunNotFound(_) => RpcCode::Kind(RUN_NOT_FOUND),
            AgentRunnerBackendError::RunAlreadyRunning(_) => RpcCode::Kind(RUN_ALREADY_RUNNING),
            AgentRunnerBackendError::RunTerminal(_) => RpcCode::Kind(RUN_TERMINAL),
            AgentRunnerBackendError::ControlActionUnsupported(_) => RpcCode::Kind(
                CONTROL_ACTION_UNSUPPORTED,
            ),
            AgentRunnerBackendError::ModelUnavailable(_) => RpcCode::Kind(MODEL_UNAVAILABLE),
            AgentRunnerBackendError::InvalidRuntimeContract(_) => RpcCode::Kind(
                INVALID_RUNTIME_CONTRACT,
            ),
            AgentRunnerBackendError::ProtocolVersionMismatch(_) => RpcCode::Kind(
                PROTOCOL_VERSION_MISMATCH,
            ),
            AgentRunnerBackendError::InvalidRequest(_) => RpcCode::InvalidParams,
            AgentRunnerBackendError::Unavailable(_) => RpcCode::InternalError,
            AgentRunnerBackendError::Other(_) => RpcCode::InternalError,
        }
    }

    /// The category of an answer with this error.
    pub open spec fn category(self) -> Seq<char> {
        match self {
            AgentRunnerBackendError::RunNotFound(_) => "run_not_found"@,
            AgentRunnerBackendError::RunAlreadyRunning(_) => "run_already_running"@,
            AgentRunnerBackendError::RunTerminal(_) => "run_terminal"@,
            AgentRunnerBackendError::ControlActionUnsupported(_) => "control_action_unsupported"@,
            AgentRunnerBackendError::ModelUnavailable(_) => "model_unavailable"@,
            AgentRunnerBackendError::InvalidRuntimeContract(_) => "invalid_runtime_contract"@,
            AgentRunnerBackendError::ProtocolVersionMismatch(_) => "protocol_version_mismatch"@,
            AgentRunnerBackendError::InvalidRequest(_) => "invalid_request"@,
            AgentRunnerBackendError::Unavailable(_) => "unavailable"@,
            AgentRunnerBackendError::Other(_) => "other"@,
        }
    }

    /// The message of an answer with this error: the detail alone, unless the
    /// backend is unavailable.
    pub open spec fn answer(self) -> Seq<char> {
        match self {
            AgentRunnerBackendError::Unavailable(detail) => "backend unavailable: "@ + detail@,
            _ => self.detail(),
        }
    }

    /// The error as one line of text.
    pub fn message(&self) -> (r: String)
        ensures
            r@ == self.heading() + self.detail(),
    {
        let (heading, detail) = match self {
            AgentRunnerBackendError::RunNotFound(detail) => ("run not found: ", detail),
            AgentRunnerBackendError::RunAlreadyRunning(detail) => ("run already running: ", detail),
            AgentRunnerBackendError::RunTerminal(detail) => ("run terminal: ", detail),
            AgentRunnerBackendError::ControlActionUnsupported(detail) => (
                "control action unsupported: ",
                detail,
            ),
            AgentRunnerBackendError::ModelUnavailable(detail) => ("model unavailable: ", detail),
            AgentRunnerBackendError::InvalidRuntimeContract(detail) => (
                "invalid runtime contract: ",
                detail,
            ),
            AgentRunnerBackendError::ProtocolVersionMismatch(detail) => (
                "protocol version mismatch: ",
                detail,
            ),
            AgentRunnerBackendError::InvalidRequest(detail) => ("invalid request: ", detail),
            AgentRunnerBackendError::Unavailable(detail) => ("backend unavailable: ", detail),
            AgentRunnerBackendError::Other(detail) => ("", detail),
        };
        let mut out = heading.to_owned();
        out.append(detail.as_str());
        out
    }

    /// The error as an answer.
    pub fn into_rpc_error(self) -> (r: RpcError)
        ensures
            r.says(self.code(), self.answer(), self.category()),
    {
        match self {
            AgentRunnerBackendError::RunNotFound(message) => RpcError::with_category(
                RpcCode::Kind(RUN_NOT_FOUND),
                message,
                "run_not_found",
            ),
            AgentRunnerBackendError::RunAlreadyRunning(message) => RpcError::with_category(
                RpcCode::Kind(RUN_ALREADY_RUNNING),
                message,
                "run_already_running",
            ),
            AgentRunnerBackendError::RunTerminal(message) => RpcError::with_category(
                RpcCode::Kind(RUN_TERMINAL),
                message,
                "run_terminal",
            ),
            AgentRunnerBackendError::ControlActionUnsupported(message) => RpcError::with_category(
                RpcCode::Kind(CONTROL_ACTION_UNSUPPORTED),
                message,
                "control_action_unsupported",
            ),
            AgentRunnerBackendError::ModelUnavailable(message) => RpcError::with_category(
                RpcCode::Kind(MODEL_UNAVAILABLE),
                message,
                "model_unavailable",
            ),
            AgentRunnerBackendError::InvalidRuntimeContract(message) => RpcError::with_category(
                RpcCode::Kind(INVALID_RUNTIME_CONTRACT),
                message,
                "invalid_runtime_contract",
            ),
            AgentRunnerBackendError::ProtocolVersionMismatch(message) => RpcError::with_category(
                RpcCode::Kind(PROTOCOL_VERSION_MISMATCH),
                message,
                "protocol_version_mismatch",
            ),
            AgentRunnerBackendError::InvalidRequest(message) => RpcError::with_category(
                RpcCode::InvalidParams,
                message,
                "invalid_request",
            ),
            AgentRunnerBackendError::Unavailable(detail) => {
                let mut message = "backend unavailable: ".to_owned();
                message.append(detail.as_str());
                RpcError::with_category(RpcCode::InternalError, message, "unavailable")
            },
            AgentRunnerBackendError::Other(message) => RpcError::with_category(
                RpcCode::InternalError,
                message,
                "other",
            ),
        }
    }
}

/// A code of this kind of plugin tells the error apart from every other one.
pub proof fn kind_codes_tell_errors_apart(a: AgentRunnerBackendError, b: AgentRunnerBackendError)
    requires
        a.code() is Kind,
        a.code() == b.code(),
    ensures
        a.category() == b.category(),
        a.heading() == b.heading(),
{
}

/// Codes of this kind of plugin stay in the range that is reserved for it.
pub proof fn kind_codes_stay_in_range(error: AgentRunnerBackendError)
    requires
        error.code() is Kind,
    ensures
        -32599 <= error.code()->Kind_0 <= -32500,
{
}

/// Each kind of error has its category and its code, and keeps what it was given
/// to say; where the backend is unavailable the answer says so in front.
pub proof fn errors_are_answered_by_their_kind(error: AgentRunnerBackendError)
    ensures
        error matches AgentRunnerBackendError::RunNotFound(detail) ==> error.category() == "run_not_found"@
            && error.code() == RpcCode::Kind(-32502i32) && error.detail() == detail@ && error.answer() == detail@,
        error matches AgentRunnerBackendError::RunAlreadyRunning(detail) ==> error.category() == "run_already_running"@
            && error.code() == RpcCode::Kind(-32503i32) && error.detail() == detail@ && error.answer() == detail@,
        error matches AgentRunnerBackendError::RunTerminal(detail) ==> error.category() == "run_terminal"@
            && error.code() == RpcCode::Kind(-32504i32) && error.detail() == detail@ && error.answer() == detail@,
        error matches AgentRunnerBackendError::ControlActionUnsupported(detail) ==> error.category() == "control_action_unsupported"@
            && error.code() == RpcCode::Kind(-32505i32) && error.detail() == detail@ && error.answer() == detail@,
        error matches AgentRunnerBackendError::ModelUnavailable(detail) ==> error.category() == "model_unavailable"@
            && error.code() == RpcCode::Kind(-32506i32) && error.detail() == detail@ && error.answer() == detail@,
        error matches AgentRunnerBackendError::InvalidRuntimeContract(detail) ==> error.category() == "invalid_runtime_contract"@
            && error.code() == RpcCode::Kind(-32507i32) && error.detail() == detail@ && error.answer() == detail@,
        error matches AgentRunnerBackendError::ProtocolVersionMismatch(detail) ==> error.category() == "protocol_version_mismatch"@
            && error.code() == RpcCode::Kind(-32501i32) && error.detail() == detail@ && error.answer() == detail@,
        error matches AgentRunnerBackendError::InvalidRequest(detail) ==> error.category() == "invalid_request"@
            && error.code() == RpcCode::InvalidParams && error.detail() == detail@ && error.answer() == detail@,
        error matches AgentRunnerBackendError::Unavailable(detail) ==> error.category() == "unavailable"@
            && error.code() == RpcCode::InternalError && error.detail() == detail@ && error.answer() == "backend unavailable: "@ + detail@,
        error matches AgentRunnerBackendError::Other(detail) ==> error.category() == "other"@
            && error.code() == RpcCode::InternalError && error.detail() == detail@ && error.answer() == detail@,
{
}

} // verus!
