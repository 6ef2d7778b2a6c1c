//! The workflow configuration model: workflows and their phases, variables,
//! worktrees, schedules, triggers and the integrations of a project.

use vstd::prelude::*;

use crate::config::agent_types::{
    AgentProfileOverlay, Float64, PhaseExecutionDefinition,
};
use crate::config::yaml_types::YamlPhaseWorktree;
use crate::json::{json_content, open_value, JsonRef};
use crate::text::{copy_opt, copy_strings, lower, lower_text, opt_text, texts, trim, trimmed_text};
use crate::text_map::TextMap;

verus! {

pub const WORKFLOW_CONFIG_SCHEMA_ID: &'static str = "animus.workflow-config.v2";

pub const WORKFLOW_CONFIG_VERSION: u32 = 2;

pub const WORKFLOW_CONFIG_FILE_NAME: &'static str = "workflow-config.v2.json";

/// Default number of checkpoints retained per phase.
pub const DEFAULT_CHECKPOINT_RETENTION_KEEP_LAST_PER_PHASE: usize = 3;

/// How a phase is shown.
#[derive(Debug, Clone)]
pub struct PhaseUiDefinition {
    pub label: String,
    pub description: String,
    pub category: String,
    pub icon: Option<String>,
    pub docs_url: Option<String>,
    pub tags: Vec<String>,
    pub visible: bool,
}

/// Where a verdict leads.
#[derive(Debug)]
pub struct PhaseTransitionConfig {
    pub target: String,
    pub guard: Option<String>,
    pub allow_agent_target: bool,
    pub allowed_targets: Vec<String>,
}

/// What the workflow runner should do when a [`BudgetConfig`] cap is hit.
#[derive(Debug, Clone, Copy, PartialEq, Eq, Structural)]
pub enum BudgetOnExceed {
    /// Move the workflow into a manual-approval state with reason `budget_exceeded`.
    Pause,
    /// Terminate the workflow as failed.
    Fail,
    /// Emit a warning to logs + events and continue running.
    Warn,
}

/// Cost ceiling declared on a [`WorkflowDefinition`] or a phase entry.
///
/// Workflow caps subsume phase caps: a workflow cap that is lower than
/// any individual phase cap is still authoritative.
#[derive(Debug, Clone, Copy, PartialEq)]
pub struct BudgetConfig {
    /// Combined input + output + reasoning token ceiling. `None` means
    /// no token ceiling for this scope.
    pub max_tokens: Option<u64>,
    /// USD ceiling with cents precision. `None` means no cost ceiling.
    pub max_cost_usd: Option<Float64>,
    /// Action to take when either ceiling is crossed.
    pub on_exceed: BudgetOnExceed,
}

/// A phase of a workflow with its own settings.
#[derive(Debug)]
pub struct WorkflowPhaseConfig {
    pub id: String,
    pub max_rework_attempts: u32,
    pub on_verdict: TextMap<PhaseTransitionConfig>,
    pub skip_if: Vec<String>,
    pub budget: Option<BudgetConfig>,
    /// Environment plugin id (or an [`EnvironmentRouting`] rule key) this phase
    /// should run in, overriding the workflow- and config-level defaults.
    /// `None` falls through to the workflow's `environment`, then to
    /// [`EnvironmentRouting`].
    pub environment: Option<String>,
    /// Named [`Workspace`] (repo set) this phase runs against, overriding the
    /// workflow-level `workspace`. `None` inherits the workflow default.
    pub workspace: Option<String>,
}

/// A reference to another workflow, whose phases take its place.
#[derive(Debug)]
pub struct SubWorkflowRef {
    pub workflow_ref: String,
}

/// One entry of the phase list of a workflow.
#[derive(Debug)]
pub enum WorkflowPhaseEntry {
    SubWorkflow(SubWorkflowRef),
    Simple(String),
    Rich(WorkflowPhaseConfig),
}

/// A variable that a workflow takes.
#[derive(Debug, Clone)]
pub struct WorkflowVariable {
    pub name: String,
    pub description: Option<String>,
    pub required: bool,
    pub default: Option<String>,
}

/// Whether a worktree is made.
#[derive(Debug, Clone, Copy, PartialEq, Eq, Structural)]
pub enum WorktreeMode {
    /// Create a worktree when the subject implies write work .
    Auto,
    /// Always require a fresh worktree; fail-fast if it can't be created.
    Required,
    /// Never create a worktree; the phase runs in the project root.
    Skip,
}

/// Workflow- or phase-level worktree control. Authors may shorten to a single
/// `worktree: skip` scalar in YAML; the parser expands that into
/// `{ mode: Skip, .. }` with defaults.
#[derive(Debug, Clone, PartialEq)]
pub struct WorktreeConfig {
    pub mode: WorktreeMode,
    pub cleanup: bool,
    pub base_ref: Option<String>,
}

/// A single repository in a named [`Workspace`] (repo set). Mirrors the
/// `RepoRef` wire type in `animus-environment-protocol`; this is the
/// YAML/postgres-authorable config form the kernel compiles into an
/// `EnvironmentSpec`.
#[derive(Debug, Clone, PartialEq)]
pub struct WorkspaceRepo {
    /// Clone URL or local path for the repository.
    pub url: String,
    /// Subdirectory to check the repo out under. Defaults to the last path
    /// segment of [`Self::url`] when unset.
    pub name: Option<String>,
    /// Git ref (branch, tag, or commit) to check out. Defaults to the remote's
    /// default branch when unset.
    pub git_ref: Option<String>,
    /// Marks the primary repo in the set (the default command `cwd`). At most
    /// one repo should be primary; when none is, the first entry wins.
    pub primary: bool,
}

/// A named repo set an environment materializes as a single workspace.
/// Referenced by name from `workflow.workspace` / `phase.workspace`.
#[derive(Debug, Clone, PartialEq)]
pub struct Workspace {
    /// Repositories that make up the workspace, each checked out under its own
    /// subdirectory in the environment's workspace root.
    pub repos: Vec<WorkspaceRepo>,
}

/// Config-level environment routing: the default environment plugin and an
/// ordered list of match rules. The kernel evaluates [`Self::rules`] top-to-
/// bottom and falls back to [`Self::default`] when none match.
#[derive(Debug, Clone, PartialEq)]
pub struct EnvironmentRouting {
    /// Environment plugin id used when no rule matches (and no workflow/phase
    /// override applies). `None` means "no explicit environment" - the runner
    /// falls back to its built-in local behavior.
    pub default: Option<String>,
    /// Ordered match rules, evaluated first-match-wins.
    pub rules: Vec<EnvironmentRule>,
}

/// One environment-routing rule: a match predicate plus the environment (and
/// optional spec overrides) to use when it matches.
#[derive(Debug, Clone, PartialEq)]
pub struct EnvironmentRule {
    /// Predicate this rule matches on. An empty match matches everything.
    pub match_on: EnvironmentMatch,
    /// Environment plugin id to route matching work to.
    pub environment: String,
    /// Optional spec overrides (image, resources, env, ...) merged into the
    /// compiled `EnvironmentSpec` for matching work. Carried opaquely.
    pub spec: Option<TextMap<serde_json::Value>>,
}

/// Match predicate for an [`EnvironmentRule`]. Fields are ANDed; an unset field
/// is a wildcard. An all-unset match matches everything (useful as a
/// catch-all).
#[derive(Debug, Clone, PartialEq)]
pub struct EnvironmentMatch {
    /// Match on subject kind (e.g. `"task"`, `"requirement"`).
    pub kind: Option<String>,
    /// Match on harness / provider tool id (e.g. `"codex"`).
    pub harness: Option<String>,
}

/// Top-level declarative secret reference. `${secret.<key>}` interpolation
/// resolves the named env var at compile time; required-but-unset fails the
/// compile with a file path + line number diagnostic.
#[derive(Debug, Clone, PartialEq)]
pub struct SecretRef {
    pub env: String,
    pub required: bool,
    pub description: Option<String>,
}

/// A workflow.
#[derive(Debug, Clone)]
pub struct WorkflowDefinition {
    pub id: String,
    pub name: String,
    pub description: String,
    pub phases: Vec<WorkflowPhaseEntry>,
    pub variables: Vec<WorkflowVariable>,
    pub worktree: Option<WorktreeConfig>,
    pub budget: Option<BudgetConfig>,
    /// Environment plugin id (or an [`EnvironmentRouting`] rule key) every phase
    /// in this workflow runs in unless the phase overrides it. `None` falls
    /// through to [`EnvironmentRouting`].
    pub environment: Option<String>,
    /// Named [`Workspace`] (repo set) this workflow runs against. `None` uses
    /// the environment's default single-repo workspace.
    pub workspace: Option<String>,
}

/// How many checkpoints are kept.
#[derive(Debug, Clone, Copy, PartialEq, Eq, Structural)]
pub struct WorkflowCheckpointRetentionConfig {
    pub keep_last_per_phase: usize,
    pub max_age_hours: Option<u64>,
    pub auto_prune_on_completion: bool,
}

/// An MCP server.
#[derive(Debug, Clone)]
pub struct McpServerDefinition {
    pub command: String,
    pub args: Vec<String>,
    /// Transport type: "stdio" (default) or "http".
    pub transport: Option<String>,
    /// HTTP endpoint URL. Required when transport is "http".
    pub url: Option<String>,
    pub config: TextMap<serde_json::Value>,
    pub tools: Vec<String>,
    pub env: TextMap<String>,
    /// OAuth broker configuration for HTTP-transport MCP servers. When set,
    /// the daemon resolves a bearer token (caching under
    /// `~/.animus/<scope>/mcp-oauth-cache/`) and injects it as an
    /// `Authorization: Bearer <token>` header into the additional MCP
    /// server entry passed to the agent. Only valid with `transport: http`.
    pub oauth: Option<OauthConfig>,
}

/// OAuth flow shape attached to an HTTP-transport MCP server.
///
/// All credential material is read from env vars (`*_env` fields) rather
/// than baked into the YAML, so workflow files stay safe to commit.
#[derive(Debug, Clone)]
pub struct OauthConfig {
    pub flow: OauthFlow,
    /// Token endpoint for `client_credentials` and `refresh_token` flows.
    pub token_url: Option<String>,
    /// Env var name that holds the OAuth client id (required for
    /// `client_credentials` and `refresh_token`).
    pub client_id_env: Option<String>,
    /// Env var name that holds the OAuth client secret (required for
    /// `client_credentials`; optional for `refresh_token`).
    pub client_secret_env: Option<String>,
    /// Env var name that holds a long-lived refresh token (required for
    /// `refresh_token`).
    pub refresh_token_env: Option<String>,
    /// Env var name that holds a pre-baked bearer token (required for
    /// `manual_bearer`).
    pub bearer_env: Option<String>,
    /// OAuth scopes requested at token exchange.
    pub scopes: Vec<String>,
    /// Optional `audience` parameter (e.g. for Auth0-style flows).
    pub audience: Option<String>,
    /// When false, disable the on-disk token cache and re-fetch on every
    /// contract assembly. Defaults to true.
    pub cache: bool,
    /// Pre-registered OAuth client id for the interactive
    /// `authorization_code` flow. When unset, the daemon performs Dynamic
    /// Client Registration (RFC 7591) against the discovered registration
    /// endpoint. Ignored by the machine-to-machine flows.
    pub client_id: Option<String>,
}

/// OAuth flow of an MCP server.
#[derive(Debug, Clone, Copy, PartialEq, Eq, Structural)]
pub enum OauthFlow {
    ClientCredentials,
    RefreshToken,
    ManualBearer,
    /// Interactive OAuth 2.1 authorization-code + PKCE flow. The daemon
    /// drives discovery, Dynamic Client Registration, browser login, and
    /// token exchange via `animus mcp auth <server>`, then repoints the
    /// agent at a local auth-free stdio proxy (`animus-mcp-proxy`) instead
    /// of injecting a bearer header. Tokens persist in the OS keychain.
    AuthorizationCode,
}

/// MCP servers bound to a phase.
#[derive(Debug, Clone, PartialEq)]
pub struct PhaseMcpBinding {
    pub servers: Vec<String>,
}

/// A coding-agent tool.
#[derive(Debug, Clone)]
pub struct ToolDefinition {
    pub executable: String,
    pub supports_mcp: Option<bool>,
    pub supports_write: Option<bool>,
    pub context_window: Option<usize>,
    pub base_args: Vec<String>,
    pub supports_streaming: Option<bool>,
    pub supports_tool_use: Option<bool>,
    pub supports_vision: Option<bool>,
    pub supports_long_context: Option<bool>,
    pub read_only_flag: Option<String>,
    pub response_schema_flag: Option<String>,
}

/// Task tracker integration.
#[derive(Debug, Clone)]
pub struct TaskIntegrationConfig {
    pub provider: String,
    pub config: TextMap<serde_json::Value>,
}

/// Git hosting integration.
#[derive(Debug, Clone)]
pub struct GitIntegrationConfig {
    pub provider: String,
    pub base_branch: Option<String>,
    pub config: TextMap<serde_json::Value>,
}

/// Integrations of a project.
#[derive(Debug, Clone)]
pub struct IntegrationsConfig {
    pub tasks: Option<TaskIntegrationConfig>,
    pub git: Option<GitIntegrationConfig>,
}

/// A workflow started by a schedule.
#[derive(Debug, Clone)]
pub struct WorkflowSchedule {
    pub id: String,
    pub cron: String,
    pub workflow_ref: Option<String>,
    pub command: Option<String>,
    pub input: Option<serde_json::Value>,
    pub enabled: bool,
    /// Optional config-declared owner. When set, the daemon scheduler mints a
    /// system actor for this `user_id` and runs the
    /// dispatched workflow as that user (resolving their config partition and
    /// integrations). `None` keeps the global dispatch, without an actor.
    ///
    /// TRUST BOUNDARY: the owner is asserted at config-authoring time - the
    /// workflow config is itself owner-scoped / admin-authored (e.g. served by
    /// `config-postgres` team_* rows or admin-curated YAML), never derived from
    /// runtime or agent-generated content. Minting an actor here therefore
    /// respects the transport-asserted-identity model: it is the one place the
    /// kernel constructs an actor rather than relaying one, and the assertion
    /// originates from a trusted, authored source.
    pub owner_id: Option<String>,
    /// Optional advisory claims minted alongside [`owner_id`](Self::owner_id)
    /// (e.g. `["admin"]`). Ignored when `owner_id` is `None`. Mirrors
    /// the claims of an actor: advisory only, the
    /// kernel never branches on them.
    pub claims: Vec<String>,
}

/// Type of event trigger.
#[derive(Debug, Clone, Copy, PartialEq, Eq, Structural)]
pub enum TriggerType {
    /// Watch local filesystem paths for changes and fire on modification.
    FileWatcher,
    /// Inbound HTTP webhook (generic).
    Webhook,
    /// GitHub webhook with event filtering.
    GithubWebhook,
    /// External trigger backend plugin (Slack, file watchers, custom adapters).
    ///
    /// The daemon spawns the plugin via the stdio plugin host and forwards
    /// `trigger/event` notifications into the same `pending_events` queue
    /// used by webhook triggers. Plugin-routed events are drained by
    /// `TriggerDispatch::process_due_triggers` each tick.
    Plugin,
}

/// An event-driven trigger that enqueues a workflow when an external event fires.
///
/// Triggers live in workflow YAML alongside `schedules:` and are processed each
/// daemon tick after the cron schedule block.
#[derive(Debug)]
pub struct WorkflowTrigger {
    /// Unique identifier for this trigger within the project.
    pub id: String,
    /// The kind of event source.
    pub trigger_type: TriggerType,
    /// Workflow to enqueue when the trigger fires.
    pub workflow_ref: Option<String>,
    /// Whether this trigger is active.
    pub enabled: bool,
    /// Type-specific configuration (paths, debounce, etc.).
    pub config: serde_json::Value,
    /// Optional static input forwarded to the spawned workflow.
    pub input: Option<serde_json::Value>,
}

/// Parsed configuration for a `file_watcher` trigger.
#[derive(Debug, Clone)]
pub struct FileWatcherTriggerConfig {
    /// Glob patterns (relative to project root) to watch.
    pub paths: Vec<String>,
    /// Debounce window in seconds before re-dispatching. Defaults to 5.
    pub debounce_secs: u64,
    /// Glob patterns to ignore (relative to project root).
    pub ignore: Vec<String>,
}

/// Parsed configuration for a `webhook` (or `github_webhook`) trigger.
///
/// The daemon HTTP server registers a `POST /triggers/{id}` route for each
/// enabled webhook trigger.  Requests are validated against an optional
/// HMAC-SHA256 signature and rate-limited to `max_triggers_per_minute`.
#[derive(Debug, Clone)]
pub struct WebhookTriggerConfig {
    /// Environment variable whose value is used as the HMAC-SHA256 signing
    /// secret.  When set, the handler validates the request signature header
    /// (`sha256=<hex>`) as defined by the installed webhook trigger plugin.
    /// When absent, signature verification is skipped.
    pub secret_env: Option<String>,
    /// Maximum dispatches allowed in any rolling 60-second window.
    /// Requests exceeding this limit receive HTTP 429.  Default: 10.
    pub max_triggers_per_minute: u32,
}

/// Daemon settings of a project.
#[derive(Debug, Clone)]
pub struct DaemonConfig {
    pub active_hours: Option<String>,
    pub phase_routing: Option<serde_json::Value>,
    pub mcp: Option<serde_json::Value>,
    /// Fleet-level daily spend cap. Distinct from per-workflow / per-phase
    /// [`BudgetConfig`]: this bounds the daemon's TOTAL rolling-24h spend
    /// and pauses new dispatch when crossed. The scoped daemon runtime
    /// config (`max_daily_usd`, set by `animus daemon config
    /// --max-daily-usd`) takes precedence over this YAML block.
    pub budget: Option<DaemonBudgetConfig>,
}

/// Fleet/daemon-level daily spend cap declared under the workflow YAML
/// `daemon.budget` block.
#[derive(Debug, Clone, Copy, PartialEq)]
pub struct DaemonBudgetConfig {
    /// USD ceiling for the daemon's total rolling-24h spend. `None` (or a
    /// non-positive value) means no fleet cap.
    pub max_cost_usd_per_day: Option<Float64>,
    /// Action when the daily cap is crossed. Only `pause` is honored today
    /// (new dispatch stops until spend ages out of the window or the cap is
    /// raised); the field is carried for forward compatibility.
    pub on_exceed: BudgetOnExceed,
}

/// A channel that agents talk on.
#[derive(Debug, Clone, PartialEq)]
pub struct AgentChannelConfig {
    pub description: Option<String>,
    pub participants: Vec<String>,
    pub max_context_chars: Option<usize>,
}

/// The canonical workflow configuration.
#[derive(Debug)]
pub struct WorkflowConfig {
    pub schema: String,
    pub version: u32,
    pub default_workflow_ref: String,
    pub phase_catalog: TextMap<PhaseUiDefinition>,
    pub workflows: Vec<WorkflowDefinition>,
    pub checkpoint_retention: WorkflowCheckpointRetentionConfig,
    pub phase_definitions: TextMap<PhaseExecutionDefinition>,
    pub agent_profiles: TextMap<AgentProfileOverlay>,
    pub agent_channels: TextMap<AgentChannelConfig>,
    pub tools_allowlist: Vec<String>,
    pub mcp_servers: TextMap<McpServerDefinition>,
    pub phase_mcp_bindings: TextMap<PhaseMcpBinding>,
    pub tools: TextMap<ToolDefinition>,
    pub integrations: Option<IntegrationsConfig>,
    pub schedules: Vec<WorkflowSchedule>,
    pub triggers: Vec<WorkflowTrigger>,
    pub daemon: Option<DaemonConfig>,
    pub secrets: TextMap<SecretRef>,
    /// Named repo sets ([`Workspace`]) workflows/phases can reference by name.
    ///
    pub workspaces: TextMap<Workspace>,
    /// Config-level environment routing (default + match rules). Workflow- and
    /// phase-level `environment` overrides win over these.
    pub environment_routing: Option<EnvironmentRouting>,
}

/// Where a configuration was loaded from.
#[derive(Debug, Clone, Copy, PartialEq, Eq, Structural)]
pub enum WorkflowConfigSource {
    Json,
    Yaml,
    Builtin,
    BuiltinFallback,
}

/// What is known of a loaded configuration.
#[derive(Debug, Clone)]
pub struct WorkflowConfigMetadata {
    pub schema: String,
    pub version: u32,
    pub hash: String,
    pub source: WorkflowConfigSource,
}

/// A configuration with where it came from.
#[derive(Debug)]
pub struct LoadedWorkflowConfig {
    pub config: WorkflowConfig,
    pub metadata: WorkflowConfigMetadata,
    pub path: String,
}

// ---------------------------------------------------------------------
// Defaults
// ---------------------------------------------------------------------

pub fn default_max_rework_attempts() -> (r: u32)
    ensures
        r == 3,
{
    3
}

pub fn default_worktree_cleanup() -> (r: bool)
    ensures
        r,
{
    true
}

pub fn default_secret_required() -> (r: bool)
    ensures
        r,
{
    true
}

pub fn default_oauth_cache() -> (r: bool)
    ensures
        r,
{
    true
}

pub fn default_schedule_enabled() -> (r: bool)
    ensures
        r,
{
    true
}

pub fn default_trigger_enabled() -> (r: bool)
    ensures
        r,
{
    true
}

pub fn default_debounce_secs() -> (r: u64)
    ensures
        r == 5,
{
    5
}

pub fn default_max_triggers_per_minute() -> (r: u32)
    ensures
        r == 10,
{
    10
}

pub fn default_visible() -> (r: bool)
    ensures
        r,
{
    true
}

pub fn default_keep_last_per_phase() -> (r: usize)
    ensures
        r == DEFAULT_CHECKPOINT_RETENTION_KEEP_LAST_PER_PHASE,
{
    DEFAULT_CHECKPOINT_RETENTION_KEEP_LAST_PER_PHASE
}

/// The retention that stands for an absent one.
pub open spec fn default_retention() -> WorkflowCheckpointRetentionConfig {
    WorkflowCheckpointRetentionConfig {
        keep_last_per_phase: DEFAULT_CHECKPOINT_RETENTION_KEEP_LAST_PER_PHASE,
        max_age_hours: None,
        auto_prune_on_completion: false,
    }
}

impl Default for WorkflowCheckpointRetentionConfig {
    fn default() -> (r: Self)
        ensures
            r == default_retention(),
    {
        WorkflowCheckpointRetentionConfig {
            keep_last_per_phase: default_keep_last_per_phase(),
            max_age_hours: None,
            auto_prune_on_completion: false,
        }
    }
}

impl Default for BudgetOnExceed {
    fn default() -> (r: Self)
        ensures
            r == BudgetOnExceed::Pause,
    {
        BudgetOnExceed::Pause
    }
}

impl Default for BudgetConfig {
    fn default() -> (r: Self)
        ensures
            r.max_tokens is None,
            r.max_cost_usd is None,
            r.on_exceed == BudgetOnExceed::Pause,
    {
        BudgetConfig { max_tokens: None, max_cost_usd: None, on_exceed: BudgetOnExceed::Pause }
    }
}

impl Default for DaemonBudgetConfig {
    fn default() -> (r: Self)
        ensures
            r.max_cost_usd_per_day is None,
            r.on_exceed == BudgetOnExceed::Pause,
    {
        DaemonBudgetConfig { max_cost_usd_per_day: None, on_exceed: BudgetOnExceed::Pause }
    }
}

impl Default for WorktreeMode {
    fn default() -> (r: Self)
        ensures
            r == WorktreeMode::Auto,
    {
        WorktreeMode::Auto
    }
}

impl Default for Workspace {
    fn default() -> (r: Self)
        ensures
            r.repos@.len() == 0,
    {
        Workspace { repos: Vec::new() }
    }
}

impl Default for EnvironmentRouting {
    fn default() -> (r: Self)
        ensures
            r.default is None,
            r.rules@.len() == 0,
    {
        EnvironmentRouting { default: None, rules: Vec::new() }
    }
}

impl Default for EnvironmentMatch {
    fn default() -> (r: Self)
        ensures
            r.kind is None,
            r.harness is None,
    {
        EnvironmentMatch { kind: None, harness: None }
    }
}

impl Default for PhaseTransitionConfig {
    fn default() -> (r: Self)
        ensures
            r.target@.len() == 0,
            r.guard is None,
            !r.allow_agent_target,
            r.allowed_targets@.len() == 0,
    {
        PhaseTransitionConfig {
            target: String::new(),
            guard: None,
            allow_agent_target: false,
            allowed_targets: Vec::new(),
        }
    }
}

impl Default for PhaseMcpBinding {
    fn default() -> (r: Self)
        ensures
            r.servers@.len() == 0,
    {
        PhaseMcpBinding { servers: Vec::new() }
    }
}

impl Default for TaskIntegrationConfig {
    fn default() -> (r: Self)
        ensures
            r.provider@.len() == 0,
            r.config@ == Map::<Seq<char>, serde_json::Value>::empty(),
    {
        TaskIntegrationConfig { provider: String::new(), config: TextMap::new() }
    }
}

impl Default for GitIntegrationConfig {
    fn default() -> (r: Self)
        ensures
            r.provider@.len() == 0,
            r.base_branch is None,
            r.config@ == Map::<Seq<char>, serde_json::Value>::empty(),
    {
        GitIntegrationConfig { provider: String::new(), base_branch: None, config: TextMap::new() }
    }
}

impl Default for IntegrationsConfig {
    fn default() -> (r: Self)
        ensures
            r.tasks is None,
            r.git is None,
    {
        IntegrationsConfig { tasks: None, git: None }
    }
}

impl Default for AgentChannelConfig {
    fn default() -> (r: Self)
        ensures
            r.description is None,
            r.participants@.len() == 0,
            r.max_context_chars is None,
    {
        AgentChannelConfig { description: None, participants: Vec::new(), max_context_chars: None }
    }
}

// ---------------------------------------------------------------------
// Names on the wire
// ---------------------------------------------------------------------

impl BudgetOnExceed {
    pub open spec fn name(self) -> Seq<char> {
        match self {
            BudgetOnExceed::Pause => "pause"@,
            BudgetOnExceed::Fail => "fail"@,
            BudgetOnExceed::Warn => "warn"@,
        }
    }

    pub fn as_str(self) -> (r: &'static str)
        ensures
            r@ == self.name(),
    {
        match self {
            BudgetOnExceed::Pause => "pause",
            BudgetOnExceed::Fail => "fail",
            BudgetOnExceed::Warn => "warn",
        }
    }
}

impl OauthFlow {
    pub open spec fn name(self) -> Seq<char> {
        match self {
            OauthFlow::ClientCredentials => "client_credentials"@,
            OauthFlow::RefreshToken => "refresh_token"@,
            OauthFlow::ManualBearer => "manual_bearer"@,
            OauthFlow::AuthorizationCode => "authorization_code"@,
        }
    }

    pub fn as_str(self) -> (r: &'static str)
        ensures
            r@ == self.name(),
    {
        match self {
            OauthFlow::ClientCredentials => "client_credentials",
            OauthFlow::RefreshToken => "refresh_token",
            OauthFlow::ManualBearer => "manual_bearer",
            OauthFlow::AuthorizationCode => "authorization_code",
        }
    }
}

impl WorkflowConfigSource {
    pub open spec fn name(self) -> Seq<char> {
        match self {
            WorkflowConfigSource::Json => "json"@,
            WorkflowConfigSource::Yaml => "yaml"@,
            WorkflowConfigSource::Builtin => "builtin"@,
            WorkflowConfigSource::BuiltinFallback => "builtin_fallback"@,
        }
    }

    pub fn as_str(&self) -> (r: &'static str)
        ensures
            r@ == self.name(),
    {
        match self {
            WorkflowConfigSource::Json => "json",
            WorkflowConfigSource::Yaml => "yaml",
            WorkflowConfigSource::Builtin => "builtin",
            WorkflowConfigSource::BuiltinFallback => "builtin_fallback",
        }
    }
}

impl BudgetConfig {
    /// Whether a cap is set, on tokens or on cost.
    pub open spec fn caps_something(self) -> bool {
        self.max_tokens is Some || self.max_cost_usd is Some
    }

    /// True when no cap is set: the config is effectively a no-op.
    pub fn is_empty(&self) -> (r: bool)
        ensures
            r == (self.max_tokens is None && self.max_cost_usd is None),
            r == !self.caps_something(),
    {
        self.max_tokens.is_none() && self.max_cost_usd.is_none()
    }
}

// ---------------------------------------------------------------------
// Trigger settings
// ---------------------------------------------------------------------

impl Default for FileWatcherTriggerConfig {
    fn default() -> (r: Self)
        ensures
            r.paths@.len() == 0,
            r.debounce_secs == 5,
            r.ignore@.len() == 0,
    {
        FileWatcherTriggerConfig {
            paths: Vec::new(),
            debounce_secs: default_debounce_secs(),
            ignore: Vec::new(),
        }
    }
}

impl FileWatcherTriggerConfig {
    /// Whether this is what stands for an absent or unreadable configuration.
    pub open spec fn is_default(self) -> bool {
        self.paths@.len() == 0 && self.debounce_secs == 5 && self.ignore@.len() == 0
    }

    /// The settings a trigger's configuration value stands for: the defaults for
    /// `null`, what reading the value gave (`parsed`) otherwise.
    pub fn try_from_value<E>(value: &serde_json::Value, parsed: Result<Self, E>) -> (r: Result<
        Self,
        E,
    >)
        ensures
            json_content(*value) is Null ==> r is Ok && (r->Ok_0).is_default(),
            !(json_content(*value) is Null) ==> r == parsed,
    {
        match open_value(value) {
            JsonRef::Null => Ok(Self::default()),
            _ => parsed,
        }
    }

    /// As [`Self::try_from_value`], with the defaults for an unreadable value.
    pub fn from_value<E>(value: &serde_json::Value, parsed: Result<Self, E>) -> (r: Self)
        ensures
            !(json_content(*value) is Null) && parsed is Ok ==> r == parsed->Ok_0,
            json_content(*value) is Null || parsed is Err ==> r.is_default(),
    {
        match Self::try_from_value(value, parsed) {
            Ok(config) => config,
            Err(_) => Self::default(),
        }
    }
}

impl Default for WebhookTriggerConfig {
    fn default() -> (r: Self)
        ensures
            r.secret_env is None,
            r.max_triggers_per_minute == 10,
    {
        WebhookTriggerConfig {
            secret_env: None,
            max_triggers_per_minute: default_max_triggers_per_minute(),
        }
    }
}

impl WebhookTriggerConfig {
    /// Whether this is what stands for an absent or unreadable configuration.
    pub open spec fn is_default(self) -> bool {
        self.secret_env is None && self.max_triggers_per_minute == 10
    }

    /// The settings a trigger's configuration value stands for: the defaults for
    /// `null`, what reading the value gave (`parsed`) otherwise.
    pub fn try_from_value<E>(value: &serde_json::Value, parsed: Result<Self, E>) -> (r: Result<
        Self,
        E,
    >)
        ensures
            json_content(*value) is Null ==> r is Ok && (r->Ok_0).is_default(),
            !(json_content(*value) is Null) ==> r == parsed,
    {
        match open_value(value) {
            JsonRef::Null => Ok(Self::default()),
            _ => parsed,
        }
    }

    /// As [`Self::try_from_value`], with the defaults for an unreadable value.
    pub fn from_value<E>(value: &serde_json::Value, parsed: Result<Self, E>) -> (r: Self)
        ensures
            !(json_content(*value) is Null) && parsed is Ok ==> r == parsed->Ok_0,
            json_content(*value) is Null || parsed is Err ==> r.is_default(),
    {
        match Self::try_from_value(value, parsed) {
            Ok(config) => config,
            Err(_) => Self::default(),
        }
    }
}

// ---------------------------------------------------------------------
// Worktrees
// ---------------------------------------------------------------------

/// The settings of a worktree that only its mode is given for.
pub open spec fn plain_worktree(mode: WorktreeMode) -> WorktreeConfig {
    WorktreeConfig { mode, cleanup: true, base_ref: None }
}

/// The worktree mode that a text names: surrounding white space and ASCII case
/// do not count.
pub open spec fn worktree_mode_of(value: Seq<char>) -> Option<WorktreeMode> {
    let name = lower(trim(value));
    if name == "auto"@ {
        Some(WorktreeMode::Auto)
    } else if name == "required"@ {
        Some(WorktreeMode::Required)
    } else if name == "skip"@ {
        Some(WorktreeMode::Skip)
    } else {
        None
    }
}

/// What is said about a text that names no worktree mode.
pub open spec fn worktree_mode_error(value: Seq<char>) -> Seq<char> {
    "invalid worktree mode '"@ + lower(trim(value)) + "' (expected auto, required, or skip)"@
}

/// The settings that a worktree block of the YAML form stands for.
pub open spec fn worktree_of(yaml: YamlPhaseWorktree) -> Result<WorktreeConfig, Seq<char>> {
    match yaml {
        YamlPhaseWorktree::Bool(flag) => Ok(
            plain_worktree(
                if flag {
                    WorktreeMode::Auto
                } else {
                    WorktreeMode::Skip
                },
            ),
        ),
        YamlPhaseWorktree::Mode(scalar) => match worktree_mode_of(scalar@) {
            Some(mode) => Ok(plain_worktree(mode)),
            None => Err(worktree_mode_error(scalar@)),
        },
        YamlPhaseWorktree::Full(config) => Ok(config),
    }
}

impl Default for WorktreeConfig {
    fn default() -> (r: Self)
        ensures
            r == plain_worktree(WorktreeMode::Auto),
    {
        WorktreeConfig {
            mode: WorktreeMode::Auto,
            cleanup: default_worktree_cleanup(),
            base_ref: None,
        }
    }
}

impl WorktreeConfig {
    pub fn skip() -> (r: Self)
        ensures
            r == plain_worktree(WorktreeMode::Skip),
    {
        WorktreeConfig {
            mode: WorktreeMode::Skip,
            cleanup: default_worktree_cleanup(),
            base_ref: None,
        }
    }

    pub fn required() -> (r: Self)
        ensures
            r == plain_worktree(WorktreeMode::Required),
    {
        WorktreeConfig {
            mode: WorktreeMode::Required,
            cleanup: default_worktree_cleanup(),
            base_ref: None,
        }
    }

    /// The mode that a text names.
    pub fn parse_mode(value: &str) -> (r: Result<WorktreeMode, String>)
        ensures
            match r {
                Ok(mode) => worktree_mode_of(value@) == Some(mode),
                Err(e) => worktree_mode_of(value@) is None && e@ == worktree_mode_error(value@),
            },
    {
        let name = lower_text(trimmed_text(value).as_str());
        if crate::text::same_text(name.as_str(), "auto") {
            return Ok(WorktreeMode::Auto);
        }
        if crate::text::same_text(name.as_str(), "required") {
            return Ok(WorktreeMode::Required);
        }
        if crate::text::same_text(name.as_str(), "skip") {
            return Ok(WorktreeMode::Skip);
        }
        let mut e = String::new();
        e.append("invalid worktree mode '");
        e.append(name.as_str());
        e.append("' (expected auto, required, or skip)");
        proof {
            assert(e@ =~= worktree_mode_error(value@));
        }
        Err(e)
    }

    /// The settings that a worktree block of the YAML form stands for.
    pub fn from_yaml(yaml: YamlPhaseWorktree) -> (r: Result<Self, String>)
        ensures
            match r {
                Ok(config) => worktree_of(yaml) == Ok::<WorktreeConfig, Seq<char>>(config),
                Err(e) => worktree_of(yaml) == Err::<WorktreeConfig, Seq<char>>(e@),
            },
    {
        match yaml {
            YamlPhaseWorktree::Bool(flag) => {
                let mode = if flag {
                    WorktreeMode::Auto
                } else {
                    WorktreeMode::Skip
                };
                Ok(WorktreeConfig { mode, cleanup: default_worktree_cleanup(), base_ref: None })
            },
            YamlPhaseWorktree::Mode(scalar) => match Self::parse_mode(scalar.as_str()) {
                Ok(mode) => Ok(
                    WorktreeConfig { mode, cleanup: default_worktree_cleanup(), base_ref: None },
                ),
                Err(e) => Err(e),
            },
            YamlPhaseWorktree::Full(config) => Ok(config),
        }
    }
}

// ---------------------------------------------------------------------
// Phase entries
// ---------------------------------------------------------------------

/// View of [`PhaseTransitionConfig`].
pub struct PhaseTransitionView {
    pub target: Seq<char>,
    pub guard: Option<Seq<char>>,
    pub allow_agent_target: bool,
    pub allowed_targets: Seq<Seq<char>>,
}

impl View for PhaseTransitionConfig {
    type V = PhaseTransitionView;

    open spec fn view(&self) -> PhaseTransitionView {
        PhaseTransitionView {
            target: self.target@,
            guard: opt_text(self.guard),
            allow_agent_target: self.allow_agent_target,
            allowed_targets: texts(self.allowed_targets@),
        }
    }
}

impl Clone for PhaseTransitionConfig {
    fn clone(&self) -> (r: Self)
        ensures
            r@ == self@,
    {
        PhaseTransitionConfig {
            target: self.target.clone(),
            guard: copy_opt(&self.guard),
            allow_agent_target: self.allow_agent_target,
            allowed_targets: copy_strings(&self.allowed_targets),
        }
    }
}

/// View of [`WorkflowPhaseConfig`].
pub struct WorkflowPhaseConfigView {
    pub id: Seq<char>,
    pub max_rework_attempts: u32,
    pub on_verdict: Map<Seq<char>, PhaseTransitionView>,
    pub skip_if: Seq<Seq<char>>,
    pub budget: Option<BudgetConfig>,
    pub environment: Option<Seq<char>>,
    pub workspace: Option<Seq<char>>,
}

/// A map of transitions by their views.
pub open spec fn transitions_view(
    m: Map<Seq<char>, PhaseTransitionConfig>,
) -> Map<Seq<char>, PhaseTransitionView> {
    m.map_values(|t: PhaseTransitionConfig| t@)
}

impl View for WorkflowPhaseConfig {
    type V = WorkflowPhaseConfigView;

    open spec fn view(&self) -> WorkflowPhaseConfigView {
        WorkflowPhaseConfigView {
            id: self.id@,
            max_rework_attempts: self.max_rework_attempts,
            on_verdict: transitions_view(self.on_verdict@),
            skip_if: texts(self.skip_if@),
            budget: self.budget,
            environment: opt_text(self.environment),
            workspace: opt_text(self.workspace),
        }
    }
}

impl Clone for WorkflowPhaseConfig {
    fn clone(&self) -> (r: Self)
        ensures
            r@ == self@,
    {
        let on_verdict = self.on_verdict.clone();
        proof {
            assert(transitions_view(on_verdict@) =~= transitions_view(self.on_verdict@)) by {
                assert forall|k: Seq<char>| self.on_verdict@.contains_key(k) implies #[trigger]
                on_verdict@[k]@ == self.on_verdict@[k]@ by {
                    assert(cloned(self.on_verdict@[k], on_verdict@[k]));
                }
            }
        }
        WorkflowPhaseConfig {
            id: self.id.clone(),
            max_rework_attempts: self.max_rework_attempts,
            on_verdict,
            skip_if: copy_strings(&self.skip_if),
            budget: self.budget,
            environment: copy_opt(&self.environment),
            workspace: copy_opt(&self.workspace),
        }
    }
}

/// View of [`WorkflowPhaseEntry`].
pub enum WorkflowPhaseEntryView {
    SubWorkflow(Seq<char>),
    Simple(Seq<char>),
    Rich(WorkflowPhaseConfigView),
}

impl View for WorkflowPhaseEntry {
    type V = WorkflowPhaseEntryView;

    open spec fn view(&self) -> WorkflowPhaseEntryView {
        match self {
            WorkflowPhaseEntry::SubWorkflow(sub) => WorkflowPhaseEntryView::SubWorkflow(
                sub.workflow_ref@,
            ),
            WorkflowPhaseEntry::Simple(id) => WorkflowPhaseEntryView::Simple(id@),
            WorkflowPhaseEntry::Rich(config) => WorkflowPhaseEntryView::Rich(config@),
        }
    }
}

impl Clone for SubWorkflowRef {
    fn clone(&self) -> (r: Self)
        ensures
            r == *self,
    {
        SubWorkflowRef { workflow_ref: self.workflow_ref.clone() }
    }
}

impl Clone for WorkflowPhaseEntry {
    fn clone(&self) -> (r: Self)
        ensures
            r@ == self@,
    {
        match self {
            WorkflowPhaseEntry::SubWorkflow(sub) => WorkflowPhaseEntry::SubWorkflow(sub.clone()),
            WorkflowPhaseEntry::Simple(id) => WorkflowPhaseEntry::Simple(id.clone()),
            WorkflowPhaseEntry::Rich(config) => WorkflowPhaseEntry::Rich(config.clone()),
        }
    }
}

/// The views of a list of phase entries.
pub open spec fn entry_views(v: Seq<WorkflowPhaseEntry>) -> Seq<WorkflowPhaseEntryView> {
    v.map_values(|e: WorkflowPhaseEntry| e@)
}

impl WorkflowPhaseEntry {
    /// The id of the phase, or the reference of a sub-workflow.
    pub open spec fn id_text(&self) -> Seq<char> {
        match self {
            WorkflowPhaseEntry::Simple(id) => id@,
            WorkflowPhaseEntry::Rich(config) => config.id@,
            WorkflowPhaseEntry::SubWorkflow(sub) => sub.workflow_ref@,
        }
    }

    pub fn phase_id(&self) -> (r: &str)
        ensures
            r@ == self.id_text(),
    {
        match self {
            WorkflowPhaseEntry::Simple(id) => id.as_str(),
            WorkflowPhaseEntry::Rich(config) => config.id.as_str(),
            WorkflowPhaseEntry::SubWorkflow(sub) => sub.workflow_ref.as_str(),
        }
    }

    /// The transitions of a rich entry that has any.
    pub fn on_verdict(&self) -> (r: Option<&TextMap<PhaseTransitionConfig>>)
        ensures
            match r {
                Some(m) => *self matches WorkflowPhaseEntry::Rich(config) && *m
                    == config.on_verdict && config.on_verdict@ != Map::<
                    Seq<char>,
                    PhaseTransitionConfig,
                >::empty(),
                None => *self matches WorkflowPhaseEntry::Rich(config) ==> config.on_verdict@
                    == Map::<Seq<char>, PhaseTransitionConfig>::empty(),
            },
    {
        match self {
            WorkflowPhaseEntry::Rich(config) => {
                if config.on_verdict.is_empty() {
                    None
                } else {
                    Some(&config.on_verdict)
                }
            },
            _ => None,
        }
    }

    pub fn max_rework_attempts(&self) -> (r: Option<u32>)
        ensures
            r == match *self {
                WorkflowPhaseEntry::Rich(config) => Some(config.max_rework_attempts),
                _ => None,
            },
    {
        match self {
            WorkflowPhaseEntry::Rich(config) => Some(config.max_rework_attempts),
            _ => None,
        }
    }

    /// The conditions under which a rich entry is skipped; none for the others.
    pub fn skip_if(&self) -> (r: &[String])
        ensures
            r@ == match *self {
                WorkflowPhaseEntry::Rich(config) => config.skip_if@,
                _ => Seq::<String>::empty(),
            },
    {
        match self {
            WorkflowPhaseEntry::Rich(config) => config.skip_if.as_slice(),
            _ => {
                let none: &[String] = &[];
                assert(none@ =~= Seq::<String>::empty());
                none
            },
        }
    }

    pub fn is_sub_workflow(&self) -> (r: bool)
        ensures
            r == (*self is SubWorkflow),
    {
        matches!(self, WorkflowPhaseEntry::SubWorkflow(_))
    }

    /// Phase-level budget cap declared inline on a rich phase entry.
    pub fn budget(&self) -> (r: Option<&BudgetConfig>)
        ensures
            match r {
                Some(b) => *self matches WorkflowPhaseEntry::Rich(config) && config.budget == Some(
                    *b,
                ),
                None => *self matches WorkflowPhaseEntry::Rich(config) ==> config.budget is None,
            },
    {
        match self {
            WorkflowPhaseEntry::Rich(config) => config.budget.as_ref(),
            _ => None,
        }
    }
}

impl From<String> for WorkflowPhaseEntry {
    fn from(id: String) -> (r: Self) {
        WorkflowPhaseEntry::Simple(id)
    }
}

impl vstd::std_specs::convert::FromSpecImpl<String> for WorkflowPhaseEntry {
    open spec fn obeys_from_spec() -> bool {
        true
    }

    open spec fn from_spec(id: String) -> Self {
        WorkflowPhaseEntry::Simple(id)
    }
}

/// The trimmed, non-empty ids of a list of entries.
pub open spec fn trimmed_ids(phases: Seq<WorkflowPhaseEntry>) -> Seq<Seq<char>>
    decreases phases.len(),
{
    if phases.len() == 0 {
        Seq::empty()
    } else {
        let rest = trimmed_ids(phases.drop_last());
        let id = trim(phases.last().id_text());
        if id.len() == 0 {
            rest
        } else {
            rest.push(id)
        }
    }
}

impl WorkflowDefinition {
    /// The ids of the workflow's entries, trimmed, without empty ones.
    pub fn phase_ids(&self) -> (r: Vec<String>)
        ensures
            texts(r@) == trimmed_ids(self.phases@),
    {
        let mut ids: Vec<String> = Vec::new();
        let mut i: usize = 0;
        proof {
            assert(texts(ids@) =~= Seq::empty());
        }
        while i < self.phases.len()
            invariant
                i <= self.phases@.len(),
                texts(ids@) == trimmed_ids(self.phases@.take(i as int)),
            decreases self.phases@.len() - i,
        {
            let ghost before = ids@;
            let id = trimmed_text(self.phases[i].phase_id());
            proof {
                assert(self.phases@.take(i as int + 1).drop_last() =~= self.phases@.take(
                    i as int,
                ));
            }
            if !id.as_str().is_empty() {
                ids.push(id);
                proof {
                    assert(texts(ids@) =~= texts(before).push(id@));
                }
            }
            i += 1;
        }
        proof {
            assert(self.phases@.take(i as int) =~= self.phases@);
        }
        ids
    }
}

// ---------------------------------------------------------------------
// Laws
// ---------------------------------------------------------------------

/// A worktree block in its short forms is cleaned up and has no base of its own:
/// `true` leaves the mode to the runner, `false` skips the worktree, and a word
/// names its mode, whatever the white space around it and its ASCII case. Other
/// words are refused, and a block that is written out is kept.
pub proof fn worktree_blocks_say_their_mode(scalar: String, config: WorktreeConfig)
    ensures
        worktree_of(YamlPhaseWorktree::Bool(true)) == Ok::<WorktreeConfig, Seq<char>>(
            WorktreeConfig { mode: WorktreeMode::Auto, cleanup: true, base_ref: None },
        ),
        worktree_of(YamlPhaseWorktree::Bool(false)) == Ok::<WorktreeConfig, Seq<char>>(
            WorktreeConfig { mode: WorktreeMode::Skip, cleanup: true, base_ref: None },
        ),
        worktree_of(YamlPhaseWorktree::Full(config)) == Ok::<WorktreeConfig, Seq<char>>(config),
        crate::text::same_ignoring_case(trim(scalar@), "auto"@) <==> worktree_of(
            YamlPhaseWorktree::Mode(scalar),
        ) == Ok::<WorktreeConfig, Seq<char>>(
            WorktreeConfig { mode: WorktreeMode::Auto, cleanup: true, base_ref: None },
        ),
        crate::text::same_ignoring_case(trim(scalar@), "required"@) <==> worktree_of(
            YamlPhaseWorktree::Mode(scalar),
        ) == Ok::<WorktreeConfig, Seq<char>>(
            WorktreeConfig { mode: WorktreeMode::Required, cleanup: true, base_ref: None },
        ),
        crate::text::same_ignoring_case(trim(scalar@), "skip"@) <==> worktree_of(
            YamlPhaseWorktree::Mode(scalar),
        ) == Ok::<WorktreeConfig, Seq<char>>(
            WorktreeConfig { mode: WorktreeMode::Skip, cleanup: true, base_ref: None },
        ),
        !crate::text::same_ignoring_case(trim(scalar@), "auto"@) && !crate::text::same_ignoring_case(
            trim(scalar@),
            "required"@,
        ) && !crate::text::same_ignoring_case(trim(scalar@), "skip"@) ==> worktree_of(
            YamlPhaseWorktree::Mode(scalar),
        ) is Err,
{
    reveal_strlit("auto");
    reveal_strlit("required");
    reveal_strlit("skip");
    assert(lower("auto"@) =~= "auto"@);
    assert(lower("required"@) =~= "required"@);
    assert(lower("skip"@) =~= "skip"@);
    assert("auto"@.len() == 4 && "required"@.len() == 8 && "skip"@.len() == 4);
    assert("auto"@[0] == 'a' && "skip"@[0] == 's');
}

/// The ids of a workflow's entries come in their order, each trimmed, and those
/// that are blank are left out.
pub proof fn entry_ids_come_in_order(
    front: Seq<WorkflowPhaseEntry>,
    entry: WorkflowPhaseEntry,
    back: Seq<WorkflowPhaseEntry>,
)
    ensures
        trimmed_ids(front + back) == trimmed_ids(front) + trimmed_ids(back),
        trimmed_ids(seq![entry]) == if trim(entry.id_text()).len() == 0 {
            Seq::empty()
        } else {
            seq![trim(entry.id_text())]
        },
        entry matches WorkflowPhaseEntry::Simple(id) ==> entry.id_text() == id@,
        entry matches WorkflowPhaseEntry::Rich(config) ==> entry.id_text() == config.id@,
        entry matches WorkflowPhaseEntry::SubWorkflow(sub) ==> entry.id_text() == sub.workflow_ref@,
    decreases back.len(),
{
    assert(seq![entry].drop_last() =~= Seq::empty());
    assert(trimmed_ids(Seq::<WorkflowPhaseEntry>::empty()) =~= Seq::empty());
    assert(trimmed_ids(seq![entry]) =~= if trim(entry.id_text()).len() == 0 {
        Seq::empty()
    } else {
        seq![trim(entry.id_text())]
    });
    if back.len() == 0 {
        assert(front + back =~= front);
        assert(trimmed_ids(front) + trimmed_ids(back) =~= trimmed_ids(front));
    } else {
        entry_ids_come_in_order(front, entry, back.drop_last());
        assert((front + back).drop_last() =~= front + back.drop_last());
        assert(trimmed_ids(front + back) =~= trimmed_ids(front) + trimmed_ids(back));
    }
}

/// Every word on the wire stands for one value.
pub proof fn words_tell_values_apart(
    budget: BudgetOnExceed,
    flow: OauthFlow,
    source: WorkflowConfigSource,
)
    ensures
        budget.name() == "pause"@ <==> budget == BudgetOnExceed::Pause,
        budget.name() == "fail"@ <==> budget == BudgetOnExceed::Fail,
        budget.name() == "warn"@ <==> budget == BudgetOnExceed::Warn,
        flow.name() == "client_credentials"@ <==> flow == OauthFlow::ClientCredentials,
        flow.name() == "refresh_token"@ <==> flow == OauthFlow::RefreshToken,
        flow.name() == "manual_bearer"@ <==> flow == OauthFlow::ManualBearer,
        flow.name() == "authorization_code"@ <==> flow == OauthFlow::AuthorizationCode,
        source.name() == "json"@ <==> source == WorkflowConfigSource::Json,
        source.name() == "yaml"@ <==> source == WorkflowConfigSource::Yaml,
        source.name() == "builtin"@ <==> source == WorkflowConfigSource::Builtin,
        source.name() == "builtin_fallback"@ <==> source == WorkflowConfigSource::BuiltinFallback,
{
    reveal_strlit("pause");
    reveal_strlit("fail");
    reveal_strlit("warn");
    assert("pause"@.len() == 5 && "fail"@[0] == 'f' && "warn"@[0] == 'w');
    reveal_strlit("client_credentials");
    reveal_strlit("refresh_token");
    reveal_strlit("manual_bearer");
    reveal_strlit("authorization_code");
    assert("client_credentials"@[0] == 'c' && "refresh_token"@[0] == 'r' && "manual_bearer"@[0]
        == 'm' && "authorization_code"@[0] == 'a');
    reveal_strlit("json");
    reveal_strlit("yaml");
    reveal_strlit("builtin");
    reveal_strlit("builtin_fallback");
    assert("json"@[0] == 'j' && "yaml"@[0] == 'y' && "builtin"@.len() == 7
        && "builtin_fallback"@.len() == 16);
}

/// What stands for absent settings: five seconds of quiet for a file watcher, ten
/// dispatches a minute for a webhook, and checkpoints that are not pruned by
/// themselves and do not age.
pub proof fn absent_settings_have_their_defaults(
    watcher: FileWatcherTriggerConfig,
    webhook: WebhookTriggerConfig,
)
    ensures
        watcher.is_default() <==> watcher.paths@.len() == 0 && watcher.ignore@.len() == 0
            && watcher.debounce_secs == 5,
        webhook.is_default() <==> webhook.secret_env is None && webhook.max_triggers_per_minute
            == 10,
        default_retention().max_age_hours is None,
        !default_retention().auto_prune_on_completion,
        default_retention().keep_last_per_phase
            == DEFAULT_CHECKPOINT_RETENTION_KEEP_LAST_PER_PHASE,
{
}

/// Either cap makes a budget one: only without both it caps nothing.
pub proof fn either_cap_makes_a_budget(budget: BudgetConfig)
    ensures
        budget.max_tokens is Some ==> budget.caps_something(),
        budget.max_cost_usd is Some ==> budget.caps_something(),
        budget.max_tokens is None && budget.max_cost_usd is None ==> !budget.caps_something(),
{
}

} // verus!
