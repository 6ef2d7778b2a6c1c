//! What the control methods ask and answer.
//!
//! Subjects, their filters and patches, and log entries are carried as the
//! JSON that their own protocols define.

use vstd::prelude::*;

use crate::actor::Actor;
use crate::text_map::TextMap;
use crate::time::Timestamp;

verus! {

/// One entry of the daemon's log.
pub type DaemonLogEntry = serde_json::Value;

/// Request for `subject/list`.
#[derive(Debug, Clone, PartialEq)]
pub struct SubjectListRequest {
    /// Filter constraints.
    pub filter: serde_json::Value,
}

/// Response for `subject/list`.
#[derive(Debug, Clone, PartialEq)]
pub struct SubjectListResponse {
    /// Subjects in this page.
    pub subjects: Vec<serde_json::Value>,
    /// Opaque cursor for the next page, or `None` if exhausted.
    pub next_cursor: Option<String>,
    /// When the snapshot was taken.
    pub fetched_at: Timestamp,
}

/// Request for `subject/get`.
#[derive(Debug, Clone, PartialEq)]
pub struct SubjectGetRequest {
    /// Subject id to fetch.
    pub id: String,
}

/// Request for `subject/create`.
#[derive(Debug, Clone, PartialEq)]
pub struct SubjectCreateRequest {
    /// Subject kind.
    pub kind: String,
    /// Short title.
    pub title: String,
    /// Long-form body (markdown encouraged).
    pub body: Option<String>,
    /// Initial normalized status.
    pub status: Option<String>,
    /// Optional priority on a 0..=4 scale.
    pub priority: Option<u8>,
    /// Optional labels.
    pub labels: Vec<String>,
    /// Optional initial assignee.
    pub assignee: Option<String>,
    /// Optional backend-specific custom fields.
    pub custom: TextMap<serde_json::Value>,
}

/// Request for `subject/update`.
#[derive(Debug, Clone, PartialEq)]
pub struct SubjectUpdateRequest {
    /// Subject id to update.
    pub id: String,
    /// Patch to apply.
    pub patch: serde_json::Value,
}

/// Request for `subject/next`.
#[derive(Debug, Clone, PartialEq)]
pub struct SubjectNextRequest {
    /// Restrict to a specific subject kind.
    pub kind: Option<String>,
}

impl Default for SubjectNextRequest {
    fn default() -> (r: Self)
        ensures
            r.kind is None,
    {
        SubjectNextRequest {
            kind: None,
        }
    }
}

/// Response for `subject/next` - the next ready subject, or `None` if the
/// queue is drained.
#[derive(Debug, Clone, PartialEq)]
pub struct SubjectNextResponse {
    /// The next dispatchable subject, if any.
    pub subject: Option<serde_json::Value>,
}

/// Request for `subject/status`.
#[derive(Debug, Clone, PartialEq)]
pub struct SubjectStatusRequest {
    /// Subject id to update.
    pub id: String,
    /// New normalized status.
    pub status: String,
}

/// Request for `subject/watch`.
#[derive(Debug, Clone, PartialEq)]
pub struct SubjectWatchRequest {
    /// Restrict to a specific subject kind.
    pub kind: Option<String>,
    /// Optional filter applied to emitted events.
    pub filter: Option<serde_json::Value>,
}

impl Default for SubjectWatchRequest {
    fn default() -> (r: Self)
        ensures
            r.kind is None,
            r.filter is None,
    {
        SubjectWatchRequest {
            kind: None,
            filter: None,
        }
    }
}

/// Request for `plugin/list`.
#[derive(Debug, Clone, PartialEq)]
pub struct PluginListRequest {
    /// Include manifest warnings in the response.
    pub include_warnings: bool,
    /// Restrict to one plugin kind.
    pub kind: Option<String>,
}

impl Default for PluginListRequest {
    fn default() -> (r: Self)
        ensures
            !r.include_warnings,
            r.kind is None,
    {
        PluginListRequest {
            include_warnings: false,
            kind: None,
        }
    }
}

/// Response for `plugin/list`.
#[derive(Debug, Clone, PartialEq)]
pub struct PluginListResponse {
    /// Installed plugins.
    pub plugins: Vec<PluginInfo>,
    /// Manifest warnings, present when `include_warnings = true`.
    pub warnings: Vec<PluginWarning>,
}

/// One installed plugin, returned by `plugin/list` and `plugin/info`.
#[derive(Debug, Clone, PartialEq)]
pub struct PluginInfo {
    /// Plugin name (manifest `name`).
    pub name: String,
    /// Semantic version from the manifest.
    pub version: String,
    /// Plugin kind: `"provider"`, `"subject_backend"`, `"trigger_backend"`,
    /// `"log_storage_backend"`, or `"custom"`.
    pub kind: String,
    /// Installation source (registry id, local path, git URL).
    pub source: Option<String>,
    /// Whether the plugin's signature has been verified.
    pub signature_verified: bool,
    /// Free-form description.
    pub description: Option<String>,
    /// Resolved binary path on disk.
    pub binary_path: Option<String>,
}

/// A non-fatal manifest warning for an installed plugin.
#[derive(Debug, Clone, PartialEq)]
pub struct PluginWarning {
    /// Plugin the warning applies to.
    pub plugin: String,
    /// Human-readable message.
    pub message: String,
}

/// Request for `plugin/info`.
#[derive(Debug, Clone, PartialEq)]
pub struct PluginInfoRequest {
    /// Plugin name.
    pub name: String,
}

/// Request for `plugin/install`.
#[derive(Debug, Clone, PartialEq)]
pub struct PluginInstallRequest {
    /// Source - registry id, local path, or git URL.
    pub source: String,
    /// Optional pinned version.
    pub version: Option<String>,
    /// Skip interactive confirmation prompts.
    pub yes: bool,
    /// Skip signature verification (insecure; disallowed in CI).
    pub allow_unsigned: bool,
}

/// Response for `plugin/install`.
#[derive(Debug, Clone, PartialEq)]
pub struct PluginInstallResponse {
    /// The freshly installed plugin.
    pub plugin: PluginInfo,
    /// Install transcript (binary copy, signature check, lifecycle ping).
    pub steps: Vec<String>,
}

/// Request for `plugin/uninstall`.
#[derive(Debug, Clone, PartialEq)]
pub struct PluginUninstallRequest {
    /// Plugin name.
    pub name: String,
}

/// Request for `plugin/ping`.
#[derive(Debug, Clone, PartialEq)]
pub struct PluginPingRequest {
    /// Plugin name.
    pub name: String,
}

/// Response for `plugin/ping`.
#[derive(Debug, Clone, PartialEq)]
pub struct PluginPingResponse {
    /// Whether the plugin responded to the lifecycle ping.
    pub ok: bool,
    /// Round-trip latency in milliseconds.
    pub latency_ms: Option<u64>,
    /// Error category if `ok = false`.
    pub error: Option<String>,
}

/// Request for `plugin/call`.
#[derive(Debug, Clone, PartialEq)]
pub struct PluginCallRequest {
    /// Plugin name.
    pub name: String,
    /// JSON-RPC method to invoke inside the plugin.
    pub method: String,
    /// JSON-RPC params.
    pub params: serde_json::Value,
}

/// Response for `plugin/call` - the plugin's raw JSON result.
#[derive(Debug, Clone, PartialEq)]
pub struct PluginCallResponse(pub serde_json::Value);

/// Request for `plugin/search`.
#[derive(Debug, Clone, PartialEq)]
pub struct PluginSearchRequest {
    /// Free-text query string.
    pub query: String,
    /// Restrict to a plugin kind.
    pub kind: Option<String>,
    /// Restrict to a tag.
    pub tag: Option<String>,
}

impl Default for PluginSearchRequest {
    fn default() -> (r: Self)
        ensures
            r.query@.len() == 0,
            r.kind is None,
            r.tag is None,
    {
        PluginSearchRequest {
            query: String::new(),
            kind: None,
            tag: None,
        }
    }
}

/// One plugin registry entry.
#[derive(Debug, Clone, PartialEq)]
pub struct PluginRegistryEntry {
    /// Registry id.
    pub id: String,
    /// Plugin display name.
    pub name: String,
    /// Latest published version.
    pub version: String,
    /// Plugin kind.
    pub kind: String,
    /// Free-form description.
    pub description: Option<String>,
    /// Source URL (registry, git).
    pub url: Option<String>,
    /// Tags.
    pub tags: Vec<String>,
    /// Whether this entry is already installed locally.
    pub installed: bool,
}

/// Response for `plugin/search` and `plugin/browse`.
#[derive(Debug, Clone, PartialEq)]
pub struct PluginSearchResponse {
    /// Matched registry entries.
    pub entries: Vec<PluginRegistryEntry>,
}

/// Request for `plugin/browse`.
#[derive(Debug, Clone, PartialEq)]
pub struct PluginBrowseRequest {
    /// Restrict to a plugin kind.
    pub kind: Option<String>,
    /// Only include installed plugins.
    pub installed: bool,
    /// Only include not-yet-installed plugins.
    pub available: bool,
}

impl Default for PluginBrowseRequest {
    fn default() -> (r: Self)
        ensures
            r.kind is None,
            !r.installed,
            !r.available,
    {
        PluginBrowseRequest {
            kind: None,
            installed: false,
            available: false,
        }
    }
}

/// Request for `plugin/update`.
#[derive(Debug, Clone, PartialEq)]
pub struct PluginUpdateRequest {
    /// Restrict to a single plugin.
    pub name: Option<String>,
    /// Restrict to a release tag.
    pub tag: Option<String>,
    /// If true, list available upgrades without applying them.
    pub dry_run: bool,
}

impl Default for PluginUpdateRequest {
    fn default() -> (r: Self)
        ensures
            r.name is None,
            r.tag is None,
            !r.dry_run,
    {
        PluginUpdateRequest {
            name: None,
            tag: None,
            dry_run: false,
        }
    }
}

/// Response for `plugin/update`.
#[derive(Debug, Clone, PartialEq)]
pub struct PluginUpdateResponse {
    /// Per-plugin update results.
    pub updates: Vec<PluginUpdateEntry>,
}

/// One row of the `plugin/update` response.
#[derive(Debug, Clone, PartialEq)]
pub struct PluginUpdateEntry {
    /// Plugin name.
    pub name: String,
    /// Currently installed version.
    pub from_version: String,
    /// Latest available version.
    pub to_version: String,
    /// Whether an upgrade was applied (always `false` when `dry_run = true`).
    pub applied: bool,
}

/// Response for `daemon/status`.
#[derive(Debug, Clone, PartialEq)]
pub struct DaemonStatusResponse {
    /// Whether the daemon process is running.
    pub running: bool,
    /// PID, when running.
    pub pid: Option<u32>,
    /// Uptime in seconds.
    pub uptime_seconds: Option<u64>,
    /// Daemon version string.
    pub version: Option<String>,
    /// Project root the daemon is scoped to.
    pub project_root: Option<String>,
    /// Path to the daemon log file.
    pub log_path: Option<String>,
}

/// Response for `daemon/health`.
#[derive(Debug, Clone, PartialEq)]
pub struct DaemonHealthResponse {
    /// Top-level health verdict.
    pub status: DaemonHealthStatus,
    /// Per-plugin health.
    pub plugins: Vec<PluginHealth>,
    /// Last-error string, when degraded/unhealthy.
    pub last_error: Option<String>,
}

/// Coarse health verdict reported by `daemon/health`.
#[derive(Debug, Clone, Copy, PartialEq, Eq, Structural)]
pub enum DaemonHealthStatus {
    /// All subsystems healthy.
    Healthy,
    /// At least one non-critical subsystem is degraded.
    Degraded,
    /// A critical subsystem is failing.
    Unhealthy,
    /// Daemon is not running.
    Down,
}

/// Health snapshot for a single plugin process.
#[derive(Debug, Clone, PartialEq)]
pub struct PluginHealth {
    /// Plugin name.
    pub name: String,
    /// Plugin kind.
    pub kind: String,
    /// Health verdict.
    pub status: DaemonHealthStatus,
    /// Uptime in milliseconds.
    pub uptime_ms: Option<u64>,
    /// Last error string from the plugin, if any.
    pub last_error: Option<String>,
}

/// Response for `daemon/agents`.
#[derive(Debug, Clone, PartialEq)]
pub struct DaemonAgentsResponse {
    /// Currently active agents.
    pub agents: Vec<AgentInfo>,
}

/// One active agent session.
#[derive(Debug, Clone, PartialEq)]
pub struct AgentInfo {
    /// Session id.
    pub session_id: String,
    /// Provider name (`"codex"`, `"gemini"`, ...).
    pub provider: String,
    /// Model name.
    pub model: String,
    /// Workflow id this agent is bound to, if any.
    pub workflow_id: Option<String>,
    /// Phase id within the workflow, if any.
    pub phase_id: Option<String>,
    /// When the session started.
    pub started_at: Timestamp,
}

/// Request for `daemon/events`.
#[derive(Debug, Clone, PartialEq)]
pub struct DaemonEventsRequest {
    /// Start from events after this timestamp.
    pub since: Option<Timestamp>,
}

impl Default for DaemonEventsRequest {
    fn default() -> (r: Self)
        ensures
            r.since is None,
    {
        DaemonEventsRequest {
            since: None,
        }
    }
}

/// One event delivered by the `daemon/events` stream.
#[derive(Debug, Clone, PartialEq)]
pub struct DaemonRunEvent {
    /// Event id (monotonic per daemon process).
    pub id: String,
    /// When the event occurred.
    pub occurred_at: Timestamp,
    /// Event kind discriminator.
    pub kind: String,
    /// Free-form event payload.
    pub payload: serde_json::Value,
}

/// Request for `daemon/logs`.
#[derive(Debug, Clone, PartialEq)]
pub struct DaemonLogsRequest {
    /// Start from entries at or after this timestamp.
    pub since: Option<Timestamp>,
    /// Minimum severity.
    pub level: Option<String>,
    /// Restrict to one plugin's logs.
    pub plugin: Option<String>,
    /// If `true`, continue streaming after the historical tail.
    pub follow: bool,
}

impl Default for DaemonLogsRequest {
    fn default() -> (r: Self)
        ensures
            r.since is None,
            r.level is None,
            r.plugin is None,
            !r.follow,
    {
        DaemonLogsRequest {
            since: None,
            level: None,
            plugin: None,
            follow: false,
        }
    }
}

/// A workflow's lifecycle status.
#[derive(Debug, Clone, Copy, PartialEq, Eq, Structural)]
pub enum WorkflowStatus {
    /// Queued but not yet started.
    Pending,
    /// Currently running.
    Running,
    /// Paused waiting on a checkpoint.
    Paused,
    /// Finished successfully.
    Completed,
    /// Finished with a failure.
    Failed,
    /// Cancelled by an operator.
    Cancelled,
}

/// Request for `workflow/list`.
#[derive(Debug, Clone, PartialEq)]
pub struct WorkflowListRequest {
    /// Restrict to runs in this status.
    pub status: Option<WorkflowStatus>,
    /// Pagination cursor returned by a prior call.
    pub cursor: Option<String>,
    /// Page size.
    pub limit: Option<u32>,
}

impl Default for WorkflowListRequest {
    fn default() -> (r: Self)
        ensures
            r.status is None,
            r.cursor is None,
            r.limit is None,
    {
        WorkflowListRequest {
            status: None,
            cursor: None,
            limit: None,
        }
    }
}

/// Response for `workflow/list`.
#[derive(Debug, Clone, PartialEq)]
pub struct WorkflowListResponse {
    /// Workflow run summaries in this page.
    pub runs: Vec<WorkflowRunSummary>,
    /// Next-page cursor, or `None` if exhausted.
    pub next_cursor: Option<String>,
}

/// One row of `workflow/list`.
#[derive(Debug, Clone, PartialEq)]
pub struct WorkflowRunSummary {
    /// Workflow run id.
    pub id: String,
    /// Workflow definition name.
    pub definition: String,
    /// Current status.
    pub status: WorkflowStatus,
    /// Subject id this run is bound to.
    pub subject_id: Option<String>,
    /// When the run started.
    pub started_at: Timestamp,
    /// When the run finished, if it has.
    pub finished_at: Option<Timestamp>,
}

/// Request for `workflow/get`.
#[derive(Debug, Clone, PartialEq)]
pub struct WorkflowGetRequest {
    /// Workflow run id.
    pub id: String,
}

/// Detailed workflow run, returned by `workflow/get`.
#[derive(Debug, Clone, PartialEq)]
pub struct WorkflowRun {
    /// Summary fields.
    pub summary: WorkflowRunSummary,
    /// Full run detail.
    pub detail: serde_json::Value,
}

/// Request for `workflow/run`.
#[derive(Debug, Clone, PartialEq)]
pub struct WorkflowRunRequest {
    /// Task / subject id to run a workflow for.
    pub task_id: String,
    /// Workflow definition name.
    pub definition: Option<String>,
    /// Free-form parameters passed into the workflow template context.
    pub params: TextMap<serde_json::Value>,
    /// Transport-asserted caller identity, relayed verbatim by the daemon to
    /// the workflow runner and downstream plugins for scoping.
    pub actor: Option<Actor>,
}

/// Response for `workflow/run` and `workflow/execute`.
#[derive(Debug, Clone, PartialEq)]
pub struct WorkflowRunStart {
    /// The freshly created workflow run id.
    pub workflow_id: String,
    /// Status the run was initialized in (typically `pending` or `running`).
    pub status: WorkflowStatus,
    /// When the run started.
    pub started_at: Timestamp,
}

/// Request for `workflow/execute`.
#[derive(Debug, Clone, PartialEq)]
pub struct WorkflowExecuteRequest {
    /// Workflow definition name.
    pub definition: String,
    /// Free-form parameters passed into the workflow template context.
    pub params: TextMap<serde_json::Value>,
    /// Optional subject id to associate the run with.
    pub subject_id: Option<String>,
    /// Transport-asserted caller identity (see `actor`).
    pub actor: Option<Actor>,
}

/// Request for `workflow/pause`.
#[derive(Debug, Clone, PartialEq)]
pub struct WorkflowPauseRequest {
    /// Workflow run id.
    pub id: String,
}

/// Request for `workflow/resume`.
#[derive(Debug, Clone, PartialEq)]
pub struct WorkflowResumeRequest {
    /// Workflow run id.
    pub id: String,
    /// Optional human feedback to inject when resuming an approval-gated
    /// workflow.
    pub feedback: Option<String>,
}

/// Request for `workflow/events`.
#[derive(Debug, Clone, PartialEq)]
pub struct WorkflowEventsRequest {
    /// Restrict the stream to events for a single workflow run.
    pub workflow_id: Option<String>,
    /// Restrict the stream to specific event kinds.
    pub kinds: Option<Vec<String>>,
}

impl Default for WorkflowEventsRequest {
    fn default() -> (r: Self)
        ensures
            r.workflow_id is None,
            r.kinds is None,
    {
        WorkflowEventsRequest {
            workflow_id: None,
            kinds: None,
        }
    }
}

/// One event delivered by the `workflow/events` stream.
#[derive(Debug, Clone, PartialEq)]
pub struct WorkflowEvent {
    /// Workflow run id this event belongs to.
    pub workflow_id: String,
    /// Event kind discriminator.
    pub kind: String,
    /// Free-form, kind-specific event payload.
    pub payload: serde_json::Value,
    /// When the event occurred.
    pub occurred_at: Timestamp,
}

/// Request for `workflow/cancel`.
#[derive(Debug, Clone, PartialEq)]
pub struct WorkflowCancelRequest {
    /// Workflow run id.
    pub id: String,
    /// Optional reason recorded with the cancellation.
    pub reason: Option<String>,
}

/// Request for `agent/run`.
#[derive(Debug, Clone, PartialEq)]
pub struct AgentRunRequest {
    /// Provider name (`"codex"`, `"gemini"`, ...).
    pub provider: String,
    /// Model name.
    pub model: String,
    /// Prompt text.
    pub prompt: String,
    /// Optional system message.
    pub system: Option<String>,
    /// Optional working directory override.
    pub cwd: Option<String>,
    /// Optional environment overrides.
    pub env: TextMap<String>,
}

/// Response for `agent/run`.
#[derive(Debug, Clone, PartialEq)]
pub struct AgentRunResult {
    /// Session id used to subsequently call `agent/status` / `agent/cancel`.
    pub session_id: String,
    /// Provider-reported model.
    pub model: String,
    /// Final response text.
    pub output: String,
    /// Optional token usage stats.
    pub usage: Option<AgentUsage>,
}

/// Token usage reported by an agent session.
#[derive(Debug, Clone, PartialEq)]
pub struct AgentUsage {
    /// Prompt tokens consumed.
    pub prompt_tokens: u64,
    /// Response tokens generated.
    pub completion_tokens: u64,
    /// Total cost in micro-USD, when reported.
    pub cost_micro_usd: Option<u64>,
}

/// Request for `agent/status`.
#[derive(Debug, Clone, PartialEq)]
pub struct AgentStatusRequest {
    /// Session id.
    pub id: String,
}

/// Response for `agent/status`.
#[derive(Debug, Clone, PartialEq)]
pub struct AgentStatus {
    /// Session id.
    pub session_id: String,
    /// Lifecycle status.
    pub status: AgentLifecycle,
    /// Provider.
    pub provider: String,
    /// Model.
    pub model: String,
    /// When the session started.
    pub started_at: Timestamp,
    /// When the session ended, if it has.
    pub finished_at: Option<Timestamp>,
    /// Final error string if status is [`Failed`].
    pub last_error: Option<String>,
}

/// Lifecycle states for an agent session.
#[derive(Debug, Clone, Copy, PartialEq, Eq, Structural)]
pub enum AgentLifecycle {
    /// Session is in flight.
    Running,
    /// Session finished successfully.
    Completed,
    /// Session failed.
    Failed,
    /// Session was cancelled.
    Cancelled,
}

/// Request for `agent/cancel`.
#[derive(Debug, Clone, PartialEq)]
pub struct AgentCancelRequest {
    /// Session id to cancel.
    pub session_id: String,
}

/// Coarse status of a queue entry.
#[derive(Debug, Clone, Copy, PartialEq, Eq, Structural)]
pub enum QueueEntryStatus {
    /// Eligible to dispatch.
    Ready,
    /// Held by an operator.
    Held,
    /// Currently dispatched to a workflow run.
    InFlight,
    /// Dispatched and completed.
    Done,
    /// Dropped (removed without dispatch).
    Dropped,
}

/// One queue entry.
#[derive(Debug, Clone, PartialEq)]
pub struct QueueEntry {
    /// Queue entry id.
    pub id: String,
    /// Subject id the entry references.
    pub subject_id: String,
    /// Current status.
    pub status: QueueEntryStatus,
    /// Priority on a 0..=4 scale (0 = none, 4 = critical).
    pub priority: u8,
    /// When the entry was enqueued.
    pub enqueued_at: Timestamp,
    /// Optional reason set with `queue/hold`.
    pub hold_reason: Option<String>,
}

/// Request for `queue/list`.
#[derive(Debug, Clone, PartialEq)]
pub struct QueueListRequest {
    /// Restrict to entries in this status.
    pub status: Option<QueueEntryStatus>,
    /// Pagination cursor.
    pub cursor: Option<String>,
    /// Page size.
    pub limit: Option<u32>,
}

impl Default for QueueListRequest {
    fn default() -> (r: Self)
        ensures
            r.status is None,
            r.cursor is None,
            r.limit is None,
    {
        QueueListRequest {
            status: None,
            cursor: None,
            limit: None,
        }
    }
}

/// Response for `queue/list`.
#[derive(Debug, Clone, PartialEq)]
pub struct QueueListResponse {
    /// Queue entries in this page.
    pub entries: Vec<QueueEntry>,
    /// Next-page cursor.
    pub next_cursor: Option<String>,
}

/// Request for `queue/enqueue`.
#[derive(Debug, Clone, PartialEq)]
pub struct QueueEnqueueRequest {
    /// Subject / task id to enqueue.
    pub task_id: String,
    /// Optional priority (0..=4).
    pub priority: Option<u8>,
}

/// Request for `queue/drop`.
#[derive(Debug, Clone, PartialEq)]
pub struct QueueDropRequest {
    /// Queue entry id.
    pub id: String,
}

/// Request for `queue/hold`.
#[derive(Debug, Clone, PartialEq)]
pub struct QueueHoldRequest {
    /// Queue entry id.
    pub id: String,
    /// Optional reason.
    pub reason: Option<String>,
}

/// Request for `queue/release`.
#[derive(Debug, Clone, PartialEq)]
pub struct QueueReleaseRequest {
    /// Queue entry id.
    pub id: String,
}

/// Request for `queue/reorder`.
#[derive(Debug, Clone, PartialEq)]
pub struct QueueReorderRequest {
    /// Queue entry id to move (single-entry form).
    pub id: Option<String>,
    /// Queue entry ids to move as a contiguous group (multi-entry form).
    pub subject_ids: Vec<String>,
    /// Optional anchor entry id.
    pub anchor_id: Option<String>,
    /// Where to place the entries relative to the anchor (or the queue ends
    /// if `anchor_id` is `None`).
    pub position: QueueReorderPosition,
}

/// Placement directive used by `queue/reorder`.
#[derive(Debug, Clone, Copy, PartialEq, Eq, Structural)]
pub enum QueueReorderPosition {
    /// Place at the front of the queue (or before the anchor).
    Front,
    /// Place at the back of the queue (or after the anchor).
    Back,
    /// Place immediately before the anchor.
    Before,
    /// Place immediately after the anchor.
    After,
}

/// Response for `queue/stats`.
#[derive(Debug, Clone, PartialEq)]
pub struct QueueStats {
    /// Number of entries currently ready.
    pub ready: u64,
    /// Number of entries currently held.
    pub held: u64,
    /// Number of entries currently in flight.
    pub in_flight: u64,
    /// Entries completed in the recent window.
    pub done_recent: u64,
    /// Entries dropped in the recent window.
    pub dropped_recent: u64,
}

/// Request for `project/init`.
#[derive(Debug, Clone, PartialEq)]
pub struct ProjectInitRequest {
    /// Optional project template name.
    pub template: Option<String>,
    /// Skip interactive prompts.
    pub yes: bool,
}

impl Default for ProjectInitRequest {
    fn default() -> (r: Self)
        ensures
            r.template is None,
            !r.yes,
    {
        ProjectInitRequest {
            template: None,
            yes: false,
        }
    }
}

/// Request for `project/setup`.
#[derive(Debug, Clone, PartialEq)]
pub struct ProjectSetupRequest {
    /// Whether to wire up MCP configuration.
    pub mcp: bool,
    /// Whether to start the daemon as part of setup.
    pub start_daemon: bool,
}

impl Default for ProjectSetupRequest {
    fn default() -> (r: Self)
        ensures
            !r.mcp,
            !r.start_daemon,
    {
        ProjectSetupRequest {
            mcp: false,
            start_daemon: false,
        }
    }
}

/// Response shared by `project/init` and `project/setup`.
#[derive(Debug, Clone, PartialEq)]
pub struct ProjectInfo {
    /// Project root directory.
    pub project_root: String,
    /// Repo scope identifier used for runtime state path.
    pub repo_scope: String,
    /// Whether `.animus/` was newly created.
    pub created: bool,
}

/// Response for `project/status`.
#[derive(Debug, Clone, PartialEq)]
pub struct ProjectStatusResponse {
    /// Project root directory.
    pub project_root: String,
    /// Repo scope identifier.
    pub repo_scope: String,
    /// Number of workflow definitions visible to the project.
    pub workflow_definition_count: usize,
    /// Number of tracked subjects (tasks).
    pub task_count: usize,
    /// Number of active workflow runs.
    pub active_runs: usize,
    /// Number of queue entries.
    pub queue_size: usize,
}

/// Payload carried by the `subscription/closed` notification.
#[derive(Debug, Clone, PartialEq)]
pub struct SubscriptionClosedPayload {
    /// Originating streaming request id (the `params.id` of every
    /// notification that belongs to this subscription).
    pub id: serde_json::Value,
    /// Operator-facing close reason.
    pub reason: String,
}

/// Empty response body.
#[derive(Default, Debug, Clone, Copy, PartialEq, Eq)]
pub struct Unit {}

} // verus!
