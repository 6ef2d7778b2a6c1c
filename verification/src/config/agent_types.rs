//! Agent profiles and phase execution: the types of the configuration model, the
//! policies an agent works under, and the layering of profile overlays.

use vstd::prelude::*;

use crate::config::workflow_types::WorktreeConfig;
use crate::text::{chars_of, same_ignoring_case, same_text_ignoring_case};
use crate::text_map::TextMap;

verus! {

/// A 32-bit floating point number by its IEEE 754 bits.
#[derive(Debug, Clone, Copy, PartialEq, Eq, Structural)]
pub struct Float32 {
    pub bits: u32,
}

/// A 64-bit floating point number by its IEEE 754 bits.
#[derive(Debug, Clone, Copy, PartialEq, Eq, Structural)]
pub struct Float64 {
    pub bits: u64,
}

/// How risky a decision is rated. Only the rating that stands for an absent one
/// is told apart; any other is carried by its name.
#[derive(Debug, Clone, PartialEq)]
pub enum WorkflowDecisionRisk {
    Medium,
    Named(String),
}

/// Shape of one field of a structured phase output.
#[derive(Debug)]
pub struct PhaseFieldDefinition {
    pub field_type: String,
    pub required: bool,
    pub description: Option<String>,
    pub enum_values: Vec<String>,
    pub items: Option<Box<PhaseFieldDefinition>>,
    /// Nested fields by name; `None` stands for none.
    pub fields: Option<Box<TextMap<PhaseFieldDefinition>>>,
}

/// Fields a phase output has to hold.
#[derive(Debug)]
pub struct PhaseOutputContract {
    pub kind: String,
    pub required_fields: Vec<String>,
    pub fields: TextMap<PhaseFieldDefinition>,
}

/// What a phase decision has to show before it is accepted.
#[derive(Debug)]
pub struct PhaseDecisionContract {
    pub required_evidence: Vec<String>,
    pub min_confidence: Float32,
    pub max_risk: WorkflowDecisionRisk,
    pub allow_missing_decision: bool,
    pub extra_json_schema: Option<serde_json::Value>,
    pub fields: TextMap<PhaseFieldDefinition>,
}

/// Waiting time between attempts.
#[derive(Debug, Clone)]
pub struct BackoffConfig {
    pub initial_secs: u64,
    pub factor: Float64,
    pub max_secs: Option<u64>,
}

/// How often a phase is attempted.
#[derive(Debug, Clone)]
pub struct PhaseRetryConfig {
    pub max_attempts: u32,
    pub backoff: Option<BackoffConfig>,
}

/// Who carries a phase out.
#[derive(Debug, Clone, Copy, PartialEq, Eq, Structural)]
pub enum PhaseExecutionMode {
    Agent,
    Command,
    Manual,
}

/// Directory a command phase runs in.
#[derive(Debug, Clone, Copy, PartialEq, Eq, Structural)]
pub enum CommandCwdMode {
    ProjectRoot,
    TaskRoot,
    Path,
}

/// Runtime settings of a phase that replace those of its agent.
#[derive(Debug, Clone)]
pub struct AgentRuntimeOverrides {
    pub tool: Option<String>,
    pub tool_profile: Option<String>,
    pub model: Option<String>,
    pub fallback_models: Vec<String>,
    /// Optional explicit tool overrides for each fallback model.
    /// When non-empty, `fallback_tools[i]` is used for `fallback_models[i]`.
    /// If shorter than `fallback_models`, missing entries are auto-derived.
    pub fallback_tools: Vec<String>,
    pub reasoning_effort: Option<String>,
    /// Permission mode of the provider, passed on as it is.
    pub permission_mode: Option<String>,
    pub web_search: Option<bool>,
    pub network_access: Option<bool>,
    pub timeout_secs: Option<u64>,
    pub max_attempts: Option<usize>,
    /// Failure-class tokens that SHOULD be retried by the agent-call retry
    /// loop. When empty (the default), the runner keeps its current behavior
    /// of retrying all transient failures. When non-empty, only failures
    /// whose classified token appears in this list are eligible for retry.
    ///
    /// Precedence: [`Self::no_retry_on`] always wins - a token listed in
    /// `no_retry_on` is never retried even if it also appears here.
    ///
    /// Tokens are free-form strings matched against the runner's failure
    /// classifier. The authoritative token vocabulary is owned by the runner
    /// (the consumer of this config); this crate treats them as opaque
    /// strings and does no validation of the values.
    pub retry_on: Vec<String>,
    /// Failure-class tokens that must NEVER be retried. Takes precedence over
    /// [`Self::retry_on`]: a token present here is never retried regardless of
    /// any other setting (fail-fast for known-permanent failures).
    ///
    /// Tokens are free-form strings matched against the runner's failure
    /// classifier (vocabulary owned by the runner - see [`Self::retry_on`]).
    pub no_retry_on: Vec<String>,
    pub extra_args: Vec<String>,
    pub codex_config_overrides: Vec<String>,
    pub max_continuations: Option<usize>,
}

/// Which tools an agent may call: `deny` wins, an empty `allow` allows all.
#[derive(Debug, Clone, PartialEq)]
pub struct AgentToolPolicy {
    pub allow: Vec<String>,
    pub deny: Vec<String>,
}

/// Author-controlled harness-hook configuration for an agent profile:
/// guardrail rules, carried as they are, and harness events to be recorded.
#[derive(Debug, Clone, PartialEq)]
pub struct AgentHooksConfig {
    /// Author-supplied guardrail rules merged into the compiled hook policy.
    pub policy_rules: Vec<serde_json::Value>,
    /// Harness events the author wants additionally routed to `animus-hook`.
    pub observers: Vec<AgentHookObserver>,
}

/// A single author-requested observability hook. Constrained to a named
/// built-in action over a set of harness events - never an arbitrary command.
#[derive(Debug, Clone, PartialEq)]
pub struct AgentHookObserver {
    /// Harness event names to additionally route through the Animus hook spine
    /// (e.g. `PostToolUse`, `Stop`, `SessionEnd`). Empty is rejected by
    /// config validation - an observer with no events is meaningless.
    pub events: Vec<String>,
    /// The built-in action. Only [`AgentHookAction::Record`] exists this wave;
    /// it routes the named events to `animus-hook emit` (observability only,
    /// never a gate). The enum exists so future safe built-ins can be added
    /// without ever admitting arbitrary shell.
    pub action: AgentHookAction,
}

/// Named, kernel-controlled observer action. Deliberately a closed enum: an
/// author can only select a built-in behavior, never supply a command line.
#[derive(Debug, Clone, Copy, PartialEq, Eq, Structural)]
pub enum AgentHookAction {
    /// Route the event to `animus-hook emit` for recording (no policy gate).
    Record,
}

/// What happens to a request that no pattern decides.
#[derive(Debug, Clone, Copy, PartialEq, Eq, Structural)]
pub enum ApprovalPolicyDefault {
    /// Manual mode: escalate to a pending human interaction (the default).
    Ask,
    /// "Dangerous" / approve-everything mode: auto-allow without escalating.
    Allow,
    /// Auto-deny without escalating (fail closed).
    Deny,
    /// Auto-approve mode backed by an LLM: a judge model reads the tool call
    /// (and best-effort run context) and returns allow/deny. Configured via
    /// [`ApprovalPolicy::evaluator_model`] / [`ApprovalPolicy::evaluator_instructions`].
    /// The caller falls back to manual escalation (`Ask`) if the evaluator is
    /// unavailable or errors, so an LLM outage never silently auto-allows.
    Llm,
}

/// Outcome of an approval policy.
#[derive(Debug, Clone, Copy, PartialEq, Eq, Structural)]
pub enum ApprovalPolicyDecision {
    Ask,
    Allow,
    Deny,
    /// Defer to the configured LLM evaluator (see [`ApprovalPolicyDefault::Llm`]).
    Evaluate,
}

/// Per-agent policy for `animus.agent.request_approval` escalations.
///
/// Patterns in `auto_allow` / `auto_deny` are matched against the request's
/// `tool_name` when present, otherwise against its `action` string, using the
/// same `*`-wildcard glob semantics as [`AgentToolPolicy`] (a bare prefix like
/// `git.` only matches with an explicit trailing `*`, e.g. `git.*`). `auto_deny`
/// is checked first and wins on overlap (fail closed). When neither list
/// matches, `default` applies: `ask` escalates to a pending human interaction,
/// `allow` / `deny` short-circuit without one.
#[derive(Debug, Clone, PartialEq)]
pub struct ApprovalPolicy {
    pub auto_allow: Vec<String>,
    pub auto_deny: Vec<String>,
    pub default: ApprovalPolicyDefault,
    /// Model id for the LLM judge when `default: llm`. When unset the kernel
    /// falls back to the agent's own model / the compiled default. Ignored
    /// unless the default (or a future per-pattern rule) selects LLM mode.
    pub evaluator_model: Option<String>,
    /// Extra, operator-authored guidance appended to the judge's system prompt
    /// (e.g. "deny anything that touches production or deletes data"). The base
    /// judge rubric is built in to the kernel; this narrows it per agent.
    pub evaluator_instructions: Option<String>,
}

/// Where an MCP server definition comes from.
#[derive(Debug, Clone, Copy, PartialEq, Eq, Structural)]
pub enum AgentMcpServerSource {
    Builtin,
    Custom,
}

/// Settings of one MCP server of an agent.
#[derive(Debug, Clone, PartialEq)]
pub struct AgentMcpServerConfig {
    pub source: AgentMcpServerSource,
    pub tool_policy: AgentToolPolicy,
    pub env: TextMap<String>,
}

/// Recognized agent capability flags.
///
/// `capabilities` on an [`AgentProfile`] is an open-ended `BTreeMap<String, bool>`, but the
/// orchestrator gives special meaning to a few well-known keys. Workflow YAML authors should
/// prefer these names when expressing intent:
///
/// - `memory` - when `true`, the daemon injects the project-scoped memory MCP server
///   (`animus.memory.*` tools) into the agent's runtime contract so the spawned CLI can read and
///   write its own memory document. When `false` or absent, the memory MCP server is omitted.
///   Retention is bounded by [`AgentMemoryConfig::max_entries`] (FIFO, default
///   [`DEFAULT_AGENT_MEMORY_MAX_ENTRIES`]).
/// - `planning`, `queue_management`, `scheduling` - surfaced on engineering-manager personas
///   for prompt rendering and dispatch heuristics.
/// - `requirements_authoring`, `acceptance_validation` - product-owner persona signals.
/// - `implementation`, `testing`, `code_review` - software-engineer persona signals.
///
/// Unknown keys are preserved verbatim and exposed to prompt templates and downstream tools,
/// but receive no special handling by the orchestrator.
#[derive(Debug, Clone, PartialEq)]
pub struct AgentCapabilities {
    pub flags: TextMap<bool>,
}

/// Tone and instructions of an agent.
#[derive(Debug, Clone, PartialEq)]
pub struct AgentPersonaConfig {
    pub style: Option<String>,
    pub traits: Vec<String>,
    pub instructions: Option<String>,
    pub customizations: TextMap<serde_json::Value>,
}

/// When an agent writes to its memory.
#[derive(Debug, Clone, Copy, PartialEq, Eq, Structural)]
pub enum AgentMemoryWritePolicy {
    Explicit,
    PhaseSummary,
}

/// Memory of an agent.
#[derive(Debug, Clone, PartialEq)]
pub struct AgentMemoryConfig {
    pub enabled: bool,
    pub scope: Option<String>,
    pub max_context_chars: Option<usize>,
    /// FIFO retention cap on stored memory entries. When set, an append that
    /// would push the document past this many entries trims the oldest
    /// entries first (front of the vector). `None` falls back to
    /// [`DEFAULT_AGENT_MEMORY_MAX_ENTRIES`] at the store layer so memory can
    /// never grow unbounded. A value of `0` is rejected by config validation.
    pub max_entries: Option<usize>,
    pub write_policy: AgentMemoryWritePolicy,
}

/// Channels an agent talks on.
#[derive(Debug, Clone, PartialEq)]
pub struct AgentCommunicationConfig {
    pub enabled: bool,
    pub channels: Vec<String>,
    pub can_message: Vec<String>,
    pub max_context_chars: Option<usize>,
}

/// Settings of an agent for one project.
#[derive(Debug, Clone)]
pub struct AgentProjectOverrides {
    pub tool: Option<String>,
    pub model: Option<String>,
    pub extra_args: Vec<String>,
    pub env: TextMap<String>,
}

/// A complete agent profile.
#[derive(Debug, Clone)]
pub struct AgentProfile {
    pub name: Option<String>,
    pub description: String,
    pub system_prompt: String,
    pub system_prompt_file: Option<String>,
    pub role: Option<String>,
    pub persona: Option<AgentPersonaConfig>,
    pub memory: AgentMemoryConfig,
    pub communication: AgentCommunicationConfig,
    pub mcp_servers: Vec<String>,
    pub tool_policy: AgentToolPolicy,
    pub approval_policy: Option<ApprovalPolicy>,
    /// Optional author-controlled harness-hook configuration (guardrail policy
    /// rules + constrained observers). Additive: a profile without a `hooks`
    /// block loads unchanged.
    pub hooks: AgentHooksConfig,
    pub skills: Vec<String>,
    pub capabilities: TextMap<bool>,
    pub mcp_server_configs: Option<TextMap<AgentMcpServerConfig>>,
    pub structured_capabilities: Option<AgentCapabilities>,
    pub project_overrides: Option<TextMap<AgentProjectOverrides>>,
    /// Named model references from the top-level `models:` registry.
    /// First entry is the primary model, remaining entries are fallbacks.
    /// During compilation, these are expanded into `model` + `fallback_models`.
    pub models: Vec<String>,
    pub tool: Option<String>,
    pub tool_profile: Option<String>,
    pub model: Option<String>,
    pub fallback_models: Vec<String>,
    /// Optional explicit tool overrides for each fallback model.
    /// When non-empty, `fallback_tools[i]` is used for `fallback_models[i]`.
    /// If shorter than `fallback_models`, missing entries are auto-derived.
    pub fallback_tools: Vec<String>,
    pub reasoning_effort: Option<String>,
    /// Permission mode of the provider, passed on as it is.
    pub permission_mode: Option<String>,
    pub web_search: Option<bool>,
    pub network_access: Option<bool>,
    pub timeout_secs: Option<u64>,
    pub max_attempts: Option<usize>,
    /// Profile-level default for the agent-call retry loop's retry-eligible
    /// failure classes (see [`AgentRuntimeOverrides::retry_on`]). A phase
    /// `runtime.retry_on` falls back to this when unset.
    pub retry_on: Vec<String>,
    /// Profile-level default for never-retry failure classes (see
    /// [`AgentRuntimeOverrides::no_retry_on`]). A phase `runtime.no_retry_on`
    /// falls back to this when unset.
    pub no_retry_on: Vec<String>,
    pub extra_args: Vec<String>,
    pub codex_config_overrides: Vec<String>,
    pub max_continuations: Option<usize>,
}

/// Presence-aware overlay shape for [`AgentProfile`]. Every field is
/// `Option`-wrapped so a YAML/JSON overlay that explicitly sets a field to
/// its default value (e.g. `memory: { enabled: false }` or `mcp_servers: []`)
/// still wins over the base profile, while an omitted field inherits the
/// base value. Serialization skips absent fields, and deserialization
/// accepts the exact same input shape as [`AgentProfile`].
#[derive(Debug, Clone)]
pub struct AgentProfileOverlay {
    pub name: Option<String>,
    pub description: Option<String>,
    pub system_prompt: Option<String>,
    pub system_prompt_file: Option<String>,
    pub role: Option<String>,
    pub persona: Option<AgentPersonaConfig>,
    pub memory: Option<AgentMemoryConfig>,
    pub communication: Option<AgentCommunicationConfig>,
    pub mcp_servers: Option<Vec<String>>,
    pub tool_policy: Option<AgentToolPolicy>,
    pub approval_policy: Option<ApprovalPolicy>,
    pub hooks: Option<AgentHooksConfig>,
    pub skills: Option<Vec<String>>,
    pub capabilities: Option<TextMap<bool>>,
    pub mcp_server_configs: Option<TextMap<AgentMcpServerConfig>>,
    pub structured_capabilities: Option<AgentCapabilities>,
    pub project_overrides: Option<TextMap<AgentProjectOverrides>>,
    pub models: Option<Vec<String>>,
    pub tool: Option<String>,
    pub tool_profile: Option<String>,
    pub model: Option<String>,
    pub fallback_models: Option<Vec<String>>,
    pub fallback_tools: Option<Vec<String>>,
    pub reasoning_effort: Option<String>,
    pub permission_mode: Option<String>,
    pub web_search: Option<bool>,
    pub network_access: Option<bool>,
    pub timeout_secs: Option<u64>,
    pub max_attempts: Option<usize>,
    pub retry_on: Option<Vec<String>>,
    pub no_retry_on: Option<Vec<String>>,
    pub extra_args: Option<Vec<String>>,
    pub codex_config_overrides: Option<Vec<String>>,
    pub max_continuations: Option<usize>,
}

/// The command of a command phase.
#[derive(Debug, Clone)]
pub struct PhaseCommandDefinition {
    pub program: String,
    pub args: Vec<String>,
    pub env: TextMap<String>,
    pub cwd_mode: CommandCwdMode,
    pub cwd_path: Option<String>,
    pub timeout_secs: Option<u64>,
    pub success_exit_codes: Vec<i32>,
    pub parse_json_output: bool,
    pub expected_result_kind: Option<String>,
    pub expected_schema: Option<serde_json::Value>,
    pub category: Option<String>,
    pub failure_pattern: Option<String>,
    pub excerpt_max_chars: Option<usize>,
    pub on_success_verdict: Option<String>,
    pub on_failure_verdict: Option<String>,
    pub confidence: Option<Float32>,
    pub failure_risk: Option<String>,
}

/// The instructions of a manual phase.
#[derive(Debug, Clone)]
pub struct PhaseManualDefinition {
    pub instructions: String,
    pub approval_note_required: bool,
    pub timeout_secs: Option<u64>,
}

/// Whether a phase may be repeated safely.
#[derive(Debug, Clone, Copy, PartialEq, Eq, Structural)]
pub enum Idempotency {
    Idempotent,
    Sideeffecting,
    Unknown,
}

/// Kind of eval check. See `EvalCheck` for the structured contract per kind.
#[derive(Debug, Clone, Copy, PartialEq, Eq, Structural)]
pub enum EvalKind {
    /// Run a shell command in the phase's working directory. Pass on exit code match.
    Command,
    /// Dispatch a one-shot agent call. Pass when the response begins with "PASS".
    LlmJudge,
}

/// What to do when an eval gate fails. `Rework` re-executes the phase (up to
/// `max_reworks`) with the eval failure context injected into the next prompt;
/// `Block` pauses the workflow and emits a manual gate.
#[derive(Debug, Clone, Copy, PartialEq, Eq, Structural)]
pub enum EvalOnFail {
    Rework,
    Block,
}

/// A single eval check declared on a phase's `evals.checks` list. The `kind`
/// discriminates which fields apply: `command` checks require `command` (+
/// optional `args`, `working_dir`, `timeout_secs`, `expected_exit`);
/// `llm_judge` checks require `agent` and `prompt`. Cross-kind field
/// requirements are enforced by the validator.
#[derive(Debug, Clone)]
pub struct EvalCheck {
    pub id: String,
    pub kind: EvalKind,
    pub command: Option<String>,
    pub args: Vec<String>,
    pub working_dir: Option<String>,
    pub timeout_secs: Option<u64>,
    pub expected_exit: i32,
    pub agent: Option<String>,
    pub prompt: Option<String>,
}

/// Eval gate declared on a phase. Runs after the phase produces an
/// `advance` decision; pass rate is the fraction of `checks` that passed.
/// If `pass_rate >= pass_threshold` the phase advances; otherwise
/// `on_fail` controls whether to rework (up to `max_reworks`) or block.
///
/// Defaults:
/// - `pass_threshold` defaults to `1.0` (all checks must pass);
/// - `on_fail` defaults to `block` (no automatic rework);
/// - `max_reworks` defaults to `0` and is only honoured when
///   `on_fail = rework`.
#[derive(Debug, Clone)]
pub struct EvalsConfig {
    pub pass_threshold: Float32,
    pub on_fail: EvalOnFail,
    pub max_reworks: u32,
    pub checks: Vec<EvalCheck>,
}

/// How a phase is executed.
#[derive(Debug)]
pub struct PhaseExecutionDefinition {
    pub mode: PhaseExecutionMode,
    pub agent_id: Option<String>,
    pub directive: Option<String>,
    pub system_prompt: Option<String>,
    pub runtime: Option<AgentRuntimeOverrides>,
    pub capabilities: Option<serde_json::Value>,
    pub output_contract: Option<PhaseOutputContract>,
    pub output_json_schema: Option<serde_json::Value>,
    pub decision_contract: Option<PhaseDecisionContract>,
    pub retry: Option<PhaseRetryConfig>,
    pub skills: Vec<String>,
    pub command: Option<PhaseCommandDefinition>,
    pub manual: Option<PhaseManualDefinition>,
    pub default_tool: Option<String>,
    pub idempotency: Idempotency,
    pub worktree: Option<WorktreeConfig>,
    pub evals: Option<EvalsConfig>,
}

// ---------------------------------------------------------------------
// Defaults
// ---------------------------------------------------------------------

pub const DEFAULT_MAX_REWORK_ATTEMPTS: u32 = 3;

/// Default FIFO retention cap applied by the agent-memory store when an agent
/// profile does not set [`AgentMemoryConfig::max_entries`].
pub const DEFAULT_AGENT_MEMORY_MAX_ENTRIES: usize = 200;

/// Capability key that gates exposure of the project-scoped memory MCP server to a spawned agent.
pub const AGENT_CAPABILITY_MEMORY: &'static str = "memory";

/// The bits of 1.0.
pub fn default_backoff_factor() -> (r: Float64)
    ensures
        r.bits == 0x3FF0_0000_0000_0000,
{
    Float64 { bits: 0x3FF0_0000_0000_0000 }
}

pub fn default_max_rework_attempts() -> (r: u32)
    ensures
        r == DEFAULT_MAX_REWORK_ATTEMPTS,
{
    DEFAULT_MAX_REWORK_ATTEMPTS
}

/// The bits of 0.6.
pub fn default_min_confidence() -> (r: Float32)
    ensures
        r.bits == 0x3F19_999A,
{
    Float32 { bits: 0x3F19_999A }
}

pub fn default_max_risk() -> (r: WorkflowDecisionRisk)
    ensures
        r == WorkflowDecisionRisk::Medium,
{
    WorkflowDecisionRisk::Medium
}

pub fn default_true() -> (r: bool)
    ensures
        r,
{
    true
}

/// The bits of 1.0: every check has to pass.
pub fn default_eval_pass_threshold() -> (r: Float32)
    ensures
        r.bits == 0x3F80_0000,
{
    Float32 { bits: 0x3F80_0000 }
}

pub fn default_eval_expected_exit() -> (r: i32)
    ensures
        r == 0,
{
    0
}

pub fn default_command_cwd_mode() -> (r: CommandCwdMode)
    ensures
        r == CommandCwdMode::TaskRoot,
{
    CommandCwdMode::TaskRoot
}

pub fn default_success_exit_codes() -> (r: Vec<i32>)
    ensures
        r@ == seq![0i32],
{
    let mut r: Vec<i32> = Vec::new();
    r.push(0);
    r
}

impl Default for PhaseRetryConfig {
    fn default() -> (r: Self)
        ensures
            r.max_attempts == DEFAULT_MAX_REWORK_ATTEMPTS,
            r.backoff is None,
    {
        PhaseRetryConfig { max_attempts: DEFAULT_MAX_REWORK_ATTEMPTS, backoff: None }
    }
}

impl Default for EvalsConfig {
    fn default() -> (r: Self)
        ensures
            r.pass_threshold.bits == 0x3F80_0000,
            r.on_fail == EvalOnFail::Block,
            r.max_reworks == 0,
            r.checks@.len() == 0,
    {
        EvalsConfig {
            pass_threshold: default_eval_pass_threshold(),
            on_fail: EvalOnFail::default(),
            max_reworks: 0,
            checks: Vec::new(),
        }
    }
}

impl AgentHookAction {
    /// Whether this is the value that stands for an absent field.
    pub open spec fn is_default(self) -> bool {
        self == AgentHookAction::Record
    }
}

impl Default for AgentHookAction {
    fn default() -> (r: Self)
        ensures
            r.is_default(),
    {
        AgentHookAction::Record
    }
}

impl ApprovalPolicyDefault {
    /// Whether this is the value that stands for an absent field.
    pub open spec fn is_default(self) -> bool {
        self == ApprovalPolicyDefault::Ask
    }
}

impl Default for ApprovalPolicyDefault {
    fn default() -> (r: Self)
        ensures
            r.is_default(),
    {
        ApprovalPolicyDefault::Ask
    }
}

impl AgentMcpServerSource {
    /// Whether this is the value that stands for an absent field.
    pub open spec fn is_default(self) -> bool {
        self == AgentMcpServerSource::Builtin
    }
}

impl Default for AgentMcpServerSource {
    fn default() -> (r: Self)
        ensures
            r.is_default(),
    {
        AgentMcpServerSource::Builtin
    }
}

impl AgentMemoryWritePolicy {
    /// Whether this is the value that stands for an absent field.
    pub open spec fn is_default(self) -> bool {
        self == AgentMemoryWritePolicy::Explicit
    }
}

impl Default for AgentMemoryWritePolicy {
    fn default() -> (r: Self)
        ensures
            r.is_default(),
    {
        AgentMemoryWritePolicy::Explicit
    }
}

impl Idempotency {
    /// Whether this is the value that stands for an absent field.
    pub open spec fn is_default(self) -> bool {
        self == Idempotency::Unknown
    }
}

impl Default for Idempotency {
    fn default() -> (r: Self)
        ensures
            r.is_default(),
    {
        Idempotency::Unknown
    }
}

impl EvalOnFail {
    /// Whether this is the value that stands for an absent field.
    pub open spec fn is_default(self) -> bool {
        self == EvalOnFail::Block
    }
}

impl Default for EvalOnFail {
    fn default() -> (r: Self)
        ensures
            r.is_default(),
    {
        EvalOnFail::Block
    }
}

impl AgentToolPolicy {
    /// Whether every field has the value that stands for an absent one.
    pub open spec fn is_default(self) -> bool {
        &&& self.allow@.len() == 0
        &&& self.deny@.len() == 0
    }
}

impl Default for AgentToolPolicy {
    fn default() -> (r: Self)
        ensures
            r.is_default(),
    {
        AgentToolPolicy {
            allow: Vec::new(),
            deny: Vec::new(),
        }
    }
}

impl AgentHooksConfig {
    /// Whether every field has the value that stands for an absent one.
    pub open spec fn is_default(self) -> bool {
        &&& self.policy_rules@.len() == 0
        &&& self.observers@.len() == 0
    }
}

impl Default for AgentHooksConfig {
    fn default() -> (r: Self)
        ensures
            r.is_default(),
    {
        AgentHooksConfig {
            policy_rules: Vec::new(),
            observers: Vec::new(),
        }
    }
}

impl ApprovalPolicy {
    /// Whether every field has the value that stands for an absent one.
    pub open spec fn is_default(self) -> bool {
        &&& self.auto_allow@.len() == 0
        &&& self.auto_deny@.len() == 0
        &&& self.default.is_default()
        &&& self.evaluator_model is None
        &&& self.evaluator_instructions is None
    }
}

impl Default for ApprovalPolicy {
    fn default() -> (r: Self)
        ensures
            r.is_default(),
    {
        ApprovalPolicy {
            auto_allow: Vec::new(),
            auto_deny: Vec::new(),
            default: ApprovalPolicyDefault::default(),
            evaluator_model: None,
            evaluator_instructions: None,
        }
    }
}

impl AgentMcpServerConfig {
    /// Whether every field has the value that stands for an absent one.
    pub open spec fn is_default(self) -> bool {
        &&& self.source.is_default()
        &&& self.tool_policy.is_default()
        &&& self.env@ == Map::<Seq<char>, String>::empty()
    }
}

impl Default for AgentMcpServerConfig {
    fn default() -> (r: Self)
        ensures
            r.is_default(),
    {
        AgentMcpServerConfig {
            source: AgentMcpServerSource::default(),
            tool_policy: AgentToolPolicy::default(),
            env: TextMap::new(),
        }
    }
}

impl AgentCapabilities {
    /// Whether every field has the value that stands for an absent one.
    pub open spec fn is_default(self) -> bool {
        &&& self.flags@ == Map::<Seq<char>, bool>::empty()
    }
}

impl Default for AgentCapabilities {
    fn default() -> (r: Self)
        ensures
            r.is_default(),
    {
        AgentCapabilities {
            flags: TextMap::new(),
        }
    }
}

impl AgentPersonaConfig {
    /// Whether every field has the value that stands for an absent one.
    pub open spec fn is_default(self) -> bool {
        &&& self.style is None
        &&& self.traits@.len() == 0
        &&& self.instructions is None
        &&& self.customizations@ == Map::<Seq<char>, serde_json::Value>::empty()
    }
}

impl Default for AgentPersonaConfig {
    fn default() -> (r: Self)
        ensures
            r.is_default(),
    {
        AgentPersonaConfig {
            style: None,
            traits: Vec::new(),
            instructions: None,
            customizations: TextMap::new(),
        }
    }
}

impl AgentMemoryConfig {
    /// Whether every field has the value that stands for an absent one.
    pub open spec fn is_default(self) -> bool {
        &&& !self.enabled
        &&& self.scope is None
        &&& self.max_context_chars is None
        &&& self.max_entries is None
        &&& self.write_policy.is_default()
    }
}

impl Default for AgentMemoryConfig {
    fn default() -> (r: Self)
        ensures
            r.is_default(),
    {
        AgentMemoryConfig {
            enabled: false,
            scope: None,
            max_context_chars: None,
            max_entries: None,
            write_policy: AgentMemoryWritePolicy::default(),
        }
    }
}

impl AgentCommunicationConfig {
    /// Whether every field has the value that stands for an absent one.
    pub open spec fn is_default(self) -> bool {
        &&& !self.enabled
        &&& self.channels@.len() == 0
        &&& self.can_message@.len() == 0
        &&& self.max_context_chars is None
    }
}

impl Default for AgentCommunicationConfig {
    fn default() -> (r: Self)
        ensures
            r.is_default(),
    {
        AgentCommunicationConfig {
            enabled: false,
            channels: Vec::new(),
            can_message: Vec::new(),
            max_context_chars: None,
        }
    }
}

impl AgentProjectOverrides {
    /// Whether every field has the value that stands for an absent one.
    pub open spec fn is_default(self) -> bool {
        &&& self.tool is None
        &&& self.model is None
        &&& self.extra_args@.len() == 0
        &&& self.env@ == Map::<Seq<char>, String>::empty()
    }
}

impl Default for AgentProjectOverrides {
    fn default() -> (r: Self)
        ensures
            r.is_default(),
    {
        AgentProjectOverrides {
            tool: None,
            model: None,
            extra_args: Vec::new(),
            env: TextMap::new(),
        }
    }
}

impl AgentRuntimeOverrides {
    /// Whether every field has the value that stands for an absent one.
    pub open spec fn is_default(self) -> bool {
        &&& self.tool is None
        &&& self.tool_profile is None
        &&& self.model is None
        &&& self.fallback_models@.len() == 0
        &&& self.fallback_tools@.len() == 0
        &&& self.reasoning_effort is None
        &&& self.permission_mode is None
        &&& self.web_search is None
        &&& self.network_access is None
        &&& self.timeout_secs is None
        &&& self.max_attempts is None
        &&& self.retry_on@.len() == 0
        &&& self.no_retry_on@.len() == 0
        &&& self.extra_args@.len() == 0
        &&& self.codex_config_overrides@.len() == 0
        &&& self.max_continuations is None
    }
}

impl Default for AgentRuntimeOverrides {
    fn default() -> (r: Self)
        ensures
            r.is_default(),
    {
        AgentRuntimeOverrides {
            tool: None,
            tool_profile: None,
            model: None,
            fallback_models: Vec::new(),
            fallback_tools: Vec::new(),
            reasoning_effort: None,
            permission_mode: None,
            web_search: None,
            network_access: None,
            timeout_secs: None,
            max_attempts: None,
            retry_on: Vec::new(),
            no_retry_on: Vec::new(),
            extra_args: Vec::new(),
            codex_config_overrides: Vec::new(),
            max_continuations: None,
        }
    }
}

impl AgentProfile {
    /// Whether every field has the value that stands for an absent one.
    pub open spec fn is_default(self) -> bool {
        &&& self.name is None
        &&& self.description@.len() == 0
        &&& self.system_prompt@.len() == 0
        &&& self.system_prompt_file is None
        &&& self.role is None
        &&& self.persona is None
        &&& self.memory.is_default()
        &&& self.communication.is_default()
        &&& self.mcp_servers@.len() == 0
        &&& self.tool_policy.is_default()
        &&& self.approval_policy is None
        &&& self.hooks.is_default()
        &&& self.skills@.len() == 0
        &&& self.capabilities@ == Map::<Seq<char>, bool>::empty()
        &&& self.mcp_server_configs is None
        &&& self.structured_capabilities is None
        &&& self.project_overrides is None
        &&& self.models@.len() == 0
        &&& self.tool is None
        &&& self.tool_profile is None
        &&& self.model is None
        &&& self.fallback_models@.len() == 0
        &&& self.fallback_tools@.len() == 0
        &&& self.reasoning_effort is None
        &&& self.permission_mode is None
        &&& self.web_search is None
        &&& self.network_access is None
        &&& self.timeout_secs is None
        &&& self.max_attempts is None
        &&& self.retry_on@.len() == 0
        &&& self.no_retry_on@.len() == 0
        &&& self.extra_args@.len() == 0
        &&& self.codex_config_overrides@.len() == 0
        &&& self.max_continuations is None
    }
}

impl Default for AgentProfile {
    fn default() -> (r: Self)
        ensures
            r.is_default(),
    {
        AgentProfile {
            name: None,
            description: String::new(),
            system_prompt: String::new(),
            system_prompt_file: None,
            role: None,
            persona: None,
            memory: AgentMemoryConfig::default(),
            communication: AgentCommunicationConfig::default(),
            mcp_servers: Vec::new(),
            tool_policy: AgentToolPolicy::default(),
            approval_policy: None,
            hooks: AgentHooksConfig::default(),
            skills: Vec::new(),
            capabilities: TextMap::new(),
            mcp_server_configs: None,
            structured_capabilities: None,
            project_overrides: None,
            models: Vec::new(),
            tool: None,
            tool_profile: None,
            model: None,
            fallback_models: Vec::new(),
            fallback_tools: Vec::new(),
            reasoning_effort: None,
            permission_mode: None,
            web_search: None,
            network_access: None,
            timeout_secs: None,
            max_attempts: None,
            retry_on: Vec::new(),
            no_retry_on: Vec::new(),
            extra_args: Vec::new(),
            codex_config_overrides: Vec::new(),
            max_continuations: None,
        }
    }
}

impl AgentProfileOverlay {
    /// Whether every field has the value that stands for an absent one.
    pub open spec fn is_default(self) -> bool {
        &&& self.name is None
        &&& self.description is None
        &&& self.system_prompt is None
        &&& self.system_prompt_file is None
        &&& self.role is None
        &&& self.persona is None
        &&& self.memory is None
        &&& self.communication is None
        &&& self.mcp_servers is None
        &&& self.tool_policy is None
        &&& self.approval_policy is None
        &&& self.hooks is None
        &&& self.skills is None
        &&& self.capabilities is None
        &&& self.mcp_server_configs is None
        &&& self.structured_capabilities is None
        &&& self.project_overrides is None
        &&& self.models is None
        &&& self.tool is None
        &&& self.tool_profile is None
        &&& self.model is None
        &&& self.fallback_models is None
        &&& self.fallback_tools is None
        &&& self.reasoning_effort is None
        &&& self.permission_mode is None
        &&& self.web_search is None
        &&& self.network_access is None
        &&& self.timeout_secs is None
        &&& self.max_attempts is None
        &&& self.retry_on is None
        &&& self.no_retry_on is None
        &&& self.extra_args is None
        &&& self.codex_config_overrides is None
        &&& self.max_continuations is None
    }
}

impl Default for AgentProfileOverlay {
    fn default() -> (r: Self)
        ensures
            r.is_default(),
    {
        AgentProfileOverlay {
            name: None,
            description: None,
            system_prompt: None,
            system_prompt_file: None,
            role: None,
            persona: None,
            memory: None,
            communication: None,
            mcp_servers: None,
            tool_policy: None,
            approval_policy: None,
            hooks: None,
            skills: None,
            capabilities: None,
            mcp_server_configs: None,
            structured_capabilities: None,
            project_overrides: None,
            models: None,
            tool: None,
            tool_profile: None,
            model: None,
            fallback_models: None,
            fallback_tools: None,
            reasoning_effort: None,
            permission_mode: None,
            web_search: None,
            network_access: None,
            timeout_secs: None,
            max_attempts: None,
            retry_on: None,
            no_retry_on: None,
            extra_args: None,
            codex_config_overrides: None,
            max_continuations: None,
        }
    }
}

// ---------------------------------------------------------------------
// Phases
// ---------------------------------------------------------------------

impl PhaseExecutionMode {
    /// The mode's name.
    pub open spec fn name(self) -> Seq<char> {
        match self {
            PhaseExecutionMode::Agent => "agent"@,
            PhaseExecutionMode::Command => "command"@,
            PhaseExecutionMode::Manual => "manual"@,
        }
    }

    /// The mode's name.
    pub fn as_str(self) -> (r: &'static str)
        ensures
            r@ == self.name(),
    {
        match self {
            PhaseExecutionMode::Agent => "agent",
            PhaseExecutionMode::Command => "command",
            PhaseExecutionMode::Manual => "manual",
        }
    }
}

impl PhaseFieldDefinition {
    pub fn has_nested_fields(&self) -> (r: bool)
        ensures
            r == match self.fields {
                Some(fields) => fields@ != Map::<Seq<char>, PhaseFieldDefinition>::empty(),
                None => false,
            },
    {
        match &self.fields {
            Some(fields) => !fields.is_empty(),
            None => false,
        }
    }
}

impl PhaseOutputContract {
    /// Whether the contract requires a field: it lists the field's name, or
    /// defines it as required. Names are compared without regard to ASCII case.
    pub open spec fn requires_name(&self, field: Seq<char>) -> bool {
        ||| exists|i: int|
            0 <= i < self.required_fields@.len() && same_ignoring_case(
                (#[trigger] self.required_fields@[i])@,
                field,
            )
        ||| exists|k: Seq<char>| #[trigger]
            self.fields@.contains_key(k) && self.fields@[k].required && same_ignoring_case(k, field)
    }

    pub fn requires_field(&self, field: &str) -> (r: bool)
        ensures
            r == self.requires_name(field@),
    {
        let mut i: usize = 0;
        while i < self.required_fields.len()
            invariant
                i <= self.required_fields@.len(),
                forall|j: int|
                    0 <= j < i ==> !same_ignoring_case(
                        (#[trigger] self.required_fields@[j])@,
                        field@,
                    ),
            decreases self.required_fields@.len() - i,
        {
            if same_text_ignoring_case(self.required_fields[i].as_str(), field) {
                return true;
            }
            i += 1;
        }
        let n = self.fields.len();
        let mut k: usize = 0;
        while k < n
            invariant
                k <= n,
                n == self.fields.names().len(),
                forall|j: int|
                    0 <= j < self.required_fields@.len() ==> !same_ignoring_case(
                        (#[trigger] self.required_fields@[j])@,
                        field@,
                    ),
                forall|j: int|
                    0 <= j < k ==> !(self.fields@[#[trigger] self.fields.names()[j]].required
                        && same_ignoring_case(self.fields.names()[j], field@)),
                forall|name: Seq<char>| #[trigger]
                    self.fields@.contains_key(name) <==> self.fields.names().contains(name),
            decreases n - k,
        {
            let name = self.fields.key_at(k);
            if self.fields.value_at(k).required && same_text_ignoring_case(name.as_str(), field) {
                assert(self.fields@.contains_key(name@));
                return true;
            }
            k += 1;
        }
        false
    }
}

// ---------------------------------------------------------------------
// Policies
// ---------------------------------------------------------------------

/// Whether a pattern matches a text: `*` stands for any run of characters, every
/// other character for itself.
pub open spec fn glob(pattern: Seq<char>, text: Seq<char>) -> bool
    decreases pattern.len() + text.len(),
{
    if pattern.len() == 0 {
        text.len() == 0
    } else if pattern[0] == '*' {
        glob(pattern.drop_first(), text) || (text.len() > 0 && glob(pattern, text.drop_first()))
    } else {
        text.len() > 0 && pattern[0] == text[0] && glob(pattern.drop_first(), text.drop_first())
    }
}

/// Whether some pattern of a list matches a text.
pub open spec fn any_glob(patterns: Seq<String>, text: Seq<char>) -> bool {
    exists|i: int| 0 <= i < patterns.len() && glob((#[trigger] patterns[i])@, text)
}

/// Whether a pattern with `*` wildcards matches a text.
pub fn glob_match(pattern: &str, value: &str) -> (r: bool)
    ensures
        r == glob(pattern@, value@),
{
    let pat = chars_of(pattern);
    let val = chars_of(value);
    proof {
        assert(pat@.skip(0) =~= pat@);
        assert(val@.skip(0) =~= val@);
    }
    glob_match_inner(&pat, &val, 0, 0)
}

fn glob_match_inner(pat: &Vec<char>, val: &Vec<char>, i: usize, j: usize) -> (r: bool)
    requires
        i <= pat@.len(),
        j <= val@.len(),
    ensures
        r == glob(pat@.skip(i as int), val@.skip(j as int)),
    decreases pat@.len() - i + val@.len() - j,
{
    proof {
        if i < pat@.len() {
            assert(pat@.skip(i as int).drop_first() =~= pat@.skip(i + 1));
        }
        if j < val@.len() {
            assert(val@.skip(j as int).drop_first() =~= val@.skip(j + 1));
        }
    }
    if i == pat.len() {
        j == val.len()
    } else if pat[i] == '*' {
        glob_match_inner(pat, val, i + 1, j) || (j < val.len() && glob_match_inner(
            pat,
            val,
            i,
            j + 1,
        ))
    } else {
        j < val.len() && pat[i] == val[j] && glob_match_inner(pat, val, i + 1, j + 1)
    }
}

/// Whether some pattern of a list matches a text.
fn matches_any(patterns: &Vec<String>, text: &str) -> (r: bool)
    ensures
        r == any_glob(patterns@, text@),
{
    let mut i: usize = 0;
    while i < patterns.len()
        invariant
            i <= patterns@.len(),
            forall|j: int| 0 <= j < i ==> !glob((#[trigger] patterns@[j])@, text@),
        decreases patterns@.len() - i,
    {
        if glob_match(patterns[i].as_str(), text) {
            return true;
        }
        i += 1;
    }
    false
}

/// A lone `*` matches every text.
pub proof fn star_matches_everything(pattern: Seq<char>, text: Seq<char>)
    requires
        pattern == seq!['*'],
    ensures
        glob(pattern, text),
    decreases text.len(),
{
    if text.len() > 0 {
        star_matches_everything(pattern, text.drop_first());
    } else {
        assert(pattern.drop_first() =~= Seq::<char>::empty());
        assert(glob(pattern.drop_first(), text));
    }
}

/// A pattern without `*` matches exactly itself: a bare prefix needs a trailing
/// `*` to match more.
pub proof fn literal_matches_only_itself(pattern: Seq<char>, text: Seq<char>)
    requires
        forall|i: int| 0 <= i < pattern.len() ==> pattern[i] != '*',
    ensures
        glob(pattern, text) <==> pattern == text,
    decreases pattern.len(),
{
    if pattern.len() == 0 {
        if text.len() == 0 {
            assert(pattern =~= text);
        }
    } else if text.len() > 0 {
        literal_matches_only_itself(pattern.drop_first(), text.drop_first());
        assert(pattern =~= seq![pattern[0]] + pattern.drop_first());
        assert(text =~= seq![text[0]] + text.drop_first());
    }
}

/// A literal prefix followed by `*` matches exactly the texts that start with
/// the prefix.
pub proof fn prefix_pattern_matches_prefix(prefix: Seq<char>, text: Seq<char>)
    requires
        forall|i: int| 0 <= i < prefix.len() ==> prefix[i] != '*',
    ensures
        glob(prefix + seq!['*'], text) <==> crate::text::starts_with(text, prefix),
    decreases prefix.len(),
{
    let pattern = prefix + seq!['*'];
    if prefix.len() == 0 {
        assert(pattern =~= seq!['*']);
        star_matches_everything(pattern, text);
        assert(text.take(0) =~= prefix);
    } else if text.len() > 0 {
        prefix_pattern_matches_prefix(prefix.drop_first(), text.drop_first());
        assert(pattern.drop_first() =~= prefix.drop_first() + seq!['*']);
        if prefix.len() <= text.len() {
            assert(text.drop_first().take(prefix.len() - 1) =~= text.take(
                prefix.len() as int,
            ).drop_first());
            assert(prefix =~= seq![prefix[0]] + prefix.drop_first());
            assert(text.take(prefix.len() as int) =~= seq![text[0]] + text.take(
                prefix.len() as int,
            ).drop_first());
        }
    }
}

impl AgentToolPolicy {
    /// Whether the policy permits a tool: it matches an allow pattern, or there
    /// is none, and it matches no deny pattern.
    pub open spec fn permits(&self, tool: Seq<char>) -> bool {
        (self.allow@.len() == 0 || any_glob(self.allow@, tool)) && !any_glob(self.deny@, tool)
    }

    pub fn is_tool_permitted(&self, tool_name: &str) -> (r: bool)
        ensures
            r == self.permits(tool_name@),
    {
        let allowed = self.allow.len() == 0 || matches_any(&self.allow, tool_name);
        allowed && !matches_any(&self.deny, tool_name)
    }
}

impl AgentHooksConfig {
    pub fn is_empty(&self) -> (r: bool)
        ensures
            r == (self.policy_rules@.len() == 0 && self.observers@.len() == 0),
    {
        self.policy_rules.len() == 0 && self.observers.len() == 0
    }
}

impl ApprovalPolicy {
    /// The decision on a subject: a deny pattern denies, otherwise an allow
    /// pattern allows, otherwise the default applies.
    pub open spec fn decision(&self, subject: Seq<char>) -> ApprovalPolicyDecision {
        if any_glob(self.auto_deny@, subject) {
            ApprovalPolicyDecision::Deny
        } else if any_glob(self.auto_allow@, subject) {
            ApprovalPolicyDecision::Allow
        } else {
            match self.default {
                ApprovalPolicyDefault::Ask => ApprovalPolicyDecision::Ask,
                ApprovalPolicyDefault::Allow => ApprovalPolicyDecision::Allow,
                ApprovalPolicyDefault::Deny => ApprovalPolicyDecision::Deny,
                ApprovalPolicyDefault::Llm => ApprovalPolicyDecision::Evaluate,
            }
        }
    }

    pub fn evaluate(&self, subject: &str) -> (r: ApprovalPolicyDecision)
        ensures
            r == self.decision(subject@),
    {
        if matches_any(&self.auto_deny, subject) {
            return ApprovalPolicyDecision::Deny;
        }
        if matches_any(&self.auto_allow, subject) {
            return ApprovalPolicyDecision::Allow;
        }
        match self.default {
            ApprovalPolicyDefault::Ask => ApprovalPolicyDecision::Ask,
            ApprovalPolicyDefault::Allow => ApprovalPolicyDecision::Allow,
            ApprovalPolicyDefault::Deny => ApprovalPolicyDecision::Deny,
            ApprovalPolicyDefault::Llm => ApprovalPolicyDecision::Evaluate,
        }
    }
}

/// Deny wins over allow: whatever else a policy lists, what a deny pattern
/// matches is neither permitted nor allowed.
pub proof fn deny_wins(tools: AgentToolPolicy, approvals: ApprovalPolicy, subject: Seq<char>)
    ensures
        any_glob(tools.deny@, subject) ==> !tools.permits(subject),
        any_glob(approvals.auto_deny@, subject) ==> approvals.decision(subject)
            == ApprovalPolicyDecision::Deny,
{
}

/// Whether the profile has the `memory` capability flag explicitly enabled.
pub fn agent_memory_capability_enabled(profile: &AgentProfile) -> (r: bool)
    ensures
        r == (profile.capabilities@.contains_key(AGENT_CAPABILITY_MEMORY@)
            && profile.capabilities@[AGENT_CAPABILITY_MEMORY@]),
        r == has_capability(*profile, AGENT_CAPABILITY_MEMORY@),
{
    match profile.capabilities.get(AGENT_CAPABILITY_MEMORY) {
        Some(enabled) => *enabled,
        None => false,
    }
}

// ---------------------------------------------------------------------
// Overlays
// ---------------------------------------------------------------------

/// The overlay's value where it declares one, the base's otherwise.
pub open spec fn declared<T>(overlay: Option<T>, base: T) -> T {
    match overlay {
        Some(v) => v,
        None => base,
    }
}

/// The overlay's value where it declares one, the base's otherwise, where the
/// base may have none.
pub open spec fn declared_opt<T>(overlay: Option<T>, base: Option<T>) -> Option<T> {
    match overlay {
        Some(v) => Some(v),
        None => base,
    }
}

/// A profile with every field that the overlay declares replaced.
pub open spec fn merged_profile(base: AgentProfile, overlay: AgentProfileOverlay) -> AgentProfile {
    AgentProfile {
        name: declared_opt(overlay.name, base.name),
        description: declared(overlay.description, base.description),
        system_prompt: declared(overlay.system_prompt, base.system_prompt),
        system_prompt_file: declared_opt(overlay.system_prompt_file, base.system_prompt_file),
        role: declared_opt(overlay.role, base.role),
        persona: declared_opt(overlay.persona, base.persona),
        memory: declared(overlay.memory, base.memory),
        communication: declared(overlay.communication, base.communication),
        mcp_servers: declared(overlay.mcp_servers, base.mcp_servers),
        tool_policy: declared(overlay.tool_policy, base.tool_policy),
        approval_policy: declared_opt(overlay.approval_policy, base.approval_policy),
        hooks: declared(overlay.hooks, base.hooks),
        skills: declared(overlay.skills, base.skills),
        capabilities: declared(overlay.capabilities, base.capabilities),
        mcp_server_configs: declared_opt(overlay.mcp_server_configs, base.mcp_server_configs),
        structured_capabilities: declared_opt(overlay.structured_capabilities, base.structured_capabilities),
        project_overrides: declared_opt(overlay.project_overrides, base.project_overrides),
        models: declared(overlay.models, base.models),
        tool: declared_opt(overlay.tool, base.tool),
        tool_profile: declared_opt(overlay.tool_profile, base.tool_profile),
        model: declared_opt(overlay.model, base.model),
        fallback_models: declared(overlay.fallback_models, base.fallback_models),
        fallback_tools: declared(overlay.fallback_tools, base.fallback_tools),
        reasoning_effort: declared_opt(overlay.reasoning_effort, base.reasoning_effort),
        permission_mode: declared_opt(overlay.permission_mode, base.permission_mode),
        web_search: declared_opt(overlay.web_search, base.web_search),
        network_access: declared_opt(overlay.network_access, base.network_access),
        timeout_secs: declared_opt(overlay.timeout_secs, base.timeout_secs),
        max_attempts: declared_opt(overlay.max_attempts, base.max_attempts),
        retry_on: declared(overlay.retry_on, base.retry_on),
        no_retry_on: declared(overlay.no_retry_on, base.no_retry_on),
        extra_args: declared(overlay.extra_args, base.extra_args),
        codex_config_overrides: declared(overlay.codex_config_overrides, base.codex_config_overrides),
        max_continuations: declared_opt(overlay.max_continuations, base.max_continuations),
    }
}

/// The overlay's value where it declares one, the base's otherwise.
fn take_declared<T>(overlay: Option<T>, base: T) -> (r: T)
    ensures
        r == declared(overlay, base),
{
    match overlay {
        Some(v) => v,
        None => base,
    }
}

/// The overlay's value where it declares one, the base's otherwise, where the
/// base may have none.
fn take_declared_opt<T>(overlay: Option<T>, base: Option<T>) -> (r: Option<T>)
    ensures
        r == declared_opt(overlay, base),
{
    match overlay {
        Some(v) => Some(v),
        None => base,
    }
}

/// Replaces every field of `base` that `overlay` declares.
pub fn merge_agent_profile(base: &mut AgentProfile, overlay: AgentProfileOverlay)
    ensures
        *final(base) == merged_profile(*old(base), overlay),
{
    let mut held = AgentProfile::default();
    std::mem::swap(&mut held, base);
    *base =
    AgentProfile {
        name: take_declared_opt(overlay.name, held.name),
        description: take_declared(overlay.description, held.description),
        system_prompt: take_declared(overlay.system_prompt, held.system_prompt),
        system_prompt_file: take_declared_opt(overlay.system_prompt_file, held.system_prompt_file),
        role: take_declared_opt(overlay.role, held.role),
        persona: take_declared_opt(overlay.persona, held.persona),
        memory: take_declared(overlay.memory, held.memory),
        communication: take_declared(overlay.communication, held.communication),
        mcp_servers: take_declared(overlay.mcp_servers, held.mcp_servers),
        tool_policy: take_declared(overlay.tool_policy, held.tool_policy),
        approval_policy: take_declared_opt(overlay.approval_policy, held.approval_policy),
        hooks: take_declared(overlay.hooks, held.hooks),
        skills: take_declared(overlay.skills, held.skills),
        capabilities: take_declared(overlay.capabilities, held.capabilities),
        mcp_server_configs: take_declared_opt(overlay.mcp_server_configs, held.mcp_server_configs),
        structured_capabilities: take_declared_opt(overlay.structured_capabilities, held.structured_capabilities),
        project_overrides: take_declared_opt(overlay.project_overrides, held.project_overrides),
        models: take_declared(overlay.models, held.models),
        tool: take_declared_opt(overlay.tool, held.tool),
        tool_profile: take_declared_opt(overlay.tool_profile, held.tool_profile),
        model: take_declared_opt(overlay.model, held.model),
        fallback_models: take_declared(overlay.fallback_models, held.fallback_models),
        fallback_tools: take_declared(overlay.fallback_tools, held.fallback_tools),
        reasoning_effort: take_declared_opt(overlay.reasoning_effort, held.reasoning_effort),
        permission_mode: take_declared_opt(overlay.permission_mode, held.permission_mode),
        web_search: take_declared_opt(overlay.web_search, held.web_search),
        network_access: take_declared_opt(overlay.network_access, held.network_access),
        timeout_secs: take_declared_opt(overlay.timeout_secs, held.timeout_secs),
        max_attempts: take_declared_opt(overlay.max_attempts, held.max_attempts),
        retry_on: take_declared(overlay.retry_on, held.retry_on),
        no_retry_on: take_declared(overlay.no_retry_on, held.no_retry_on),
        extra_args: take_declared(overlay.extra_args, held.extra_args),
        codex_config_overrides: take_declared(overlay.codex_config_overrides, held.codex_config_overrides),
        max_continuations: take_declared_opt(overlay.max_continuations, held.max_continuations),
    };
}

/// `base` with every field that `overlay` declares replaced.
pub open spec fn layered(
    base: AgentProfileOverlay,
    overlay: AgentProfileOverlay,
) -> AgentProfileOverlay {
    AgentProfileOverlay {
        name: declared_opt(overlay.name, base.name),
        description: declared_opt(overlay.description, base.description),
        system_prompt: declared_opt(overlay.system_prompt, base.system_prompt),
        system_prompt_file: declared_opt(overlay.system_prompt_file, base.system_prompt_file),
        role: declared_opt(overlay.role, base.role),
        persona: declared_opt(overlay.persona, base.persona),
        memory: declared_opt(overlay.memory, base.memory),
        communication: declared_opt(overlay.communication, base.communication),
        mcp_servers: declared_opt(overlay.mcp_servers, base.mcp_servers),
        tool_policy: declared_opt(overlay.tool_policy, base.tool_policy),
        approval_policy: declared_opt(overlay.approval_policy, base.approval_policy),
        hooks: declared_opt(overlay.hooks, base.hooks),
        skills: declared_opt(overlay.skills, base.skills),
        capabilities: declared_opt(overlay.capabilities, base.capabilities),
        mcp_server_configs: declared_opt(overlay.mcp_server_configs, base.mcp_server_configs),
        structured_capabilities: declared_opt(overlay.structured_capabilities, base.structured_capabilities),
        project_overrides: declared_opt(overlay.project_overrides, base.project_overrides),
        models: declared_opt(overlay.models, base.models),
        tool: declared_opt(overlay.tool, base.tool),
        tool_profile: declared_opt(overlay.tool_profile, base.tool_profile),
        model: declared_opt(overlay.model, base.model),
        fallback_models: declared_opt(overlay.fallback_models, base.fallback_models),
        fallback_tools: declared_opt(overlay.fallback_tools, base.fallback_tools),
        reasoning_effort: declared_opt(overlay.reasoning_effort, base.reasoning_effort),
        permission_mode: declared_opt(overlay.permission_mode, base.permission_mode),
        web_search: declared_opt(overlay.web_search, base.web_search),
        network_access: declared_opt(overlay.network_access, base.network_access),
        timeout_secs: declared_opt(overlay.timeout_secs, base.timeout_secs),
        max_attempts: declared_opt(overlay.max_attempts, base.max_attempts),
        retry_on: declared_opt(overlay.retry_on, base.retry_on),
        no_retry_on: declared_opt(overlay.no_retry_on, base.no_retry_on),
        extra_args: declared_opt(overlay.extra_args, base.extra_args),
        codex_config_overrides: declared_opt(overlay.codex_config_overrides, base.codex_config_overrides),
        max_continuations: declared_opt(overlay.max_continuations, base.max_continuations),
    }
}

/// The overlay that declares everything a profile holds.
pub open spec fn full_overlay(profile: AgentProfile) -> AgentProfileOverlay {
    AgentProfileOverlay {
        name: profile.name,
        description: Some(profile.description),
        system_prompt: Some(profile.system_prompt),
        system_prompt_file: profile.system_prompt_file,
        role: profile.role,
        persona: profile.persona,
        memory: Some(profile.memory),
        communication: Some(profile.communication),
        mcp_servers: Some(profile.mcp_servers),
        tool_policy: Some(profile.tool_policy),
        approval_policy: profile.approval_policy,
        hooks: Some(profile.hooks),
        skills: Some(profile.skills),
        capabilities: Some(profile.capabilities),
        mcp_server_configs: profile.mcp_server_configs,
        structured_capabilities: profile.structured_capabilities,
        project_overrides: profile.project_overrides,
        models: Some(profile.models),
        tool: profile.tool,
        tool_profile: profile.tool_profile,
        model: profile.model,
        fallback_models: Some(profile.fallback_models),
        fallback_tools: Some(profile.fallback_tools),
        reasoning_effort: profile.reasoning_effort,
        permission_mode: profile.permission_mode,
        web_search: profile.web_search,
        network_access: profile.network_access,
        timeout_secs: profile.timeout_secs,
        max_attempts: profile.max_attempts,
        retry_on: Some(profile.retry_on),
        no_retry_on: Some(profile.no_retry_on),
        extra_args: Some(profile.extra_args),
        codex_config_overrides: Some(profile.codex_config_overrides),
        max_continuations: profile.max_continuations,
    }
}

impl AgentProfileOverlay {
    /// A full profile from this overlay alone, absent fields filled with their
    /// defaults. Used when an overlay introduces an agent that has no base
    /// profile.
    pub fn to_profile(self) -> (r: AgentProfile)
        ensures
            exists|base: AgentProfile| #[trigger]
                base.is_default() && r == merged_profile(base, self),
    {
        let mut profile = AgentProfile::default();
        let ghost base = profile;
        merge_agent_profile(&mut profile, self);
        proof {
            assert(base.is_default() && profile == merged_profile(base, self));
        }
        profile
    }

    /// Layers `overlay` onto `self` field by field: every field `overlay`
    /// declares (even explicitly at its default) wins, every omitted field keeps
    /// `self`'s value.
    pub fn merge_from(&mut self, overlay: AgentProfileOverlay)
        ensures
            *final(self) == layered(*old(self), overlay),
    {
        let mut held = AgentProfileOverlay::default();
        std::mem::swap(&mut held, self);
        *self =
        AgentProfileOverlay {
            name: take_declared_opt(overlay.name, held.name),
            description: take_declared_opt(overlay.description, held.description),
            system_prompt: take_declared_opt(overlay.system_prompt, held.system_prompt),
            system_prompt_file: take_declared_opt(overlay.system_prompt_file, held.system_prompt_file),
            role: take_declared_opt(overlay.role, held.role),
            persona: take_declared_opt(overlay.persona, held.persona),
            memory: take_declared_opt(overlay.memory, held.memory),
            communication: take_declared_opt(overlay.communication, held.communication),
            mcp_servers: take_declared_opt(overlay.mcp_servers, held.mcp_servers),
            tool_policy: take_declared_opt(overlay.tool_policy, held.tool_policy),
            approval_policy: take_declared_opt(overlay.approval_policy, held.approval_policy),
            hooks: take_declared_opt(overlay.hooks, held.hooks),
            skills: take_declared_opt(overlay.skills, held.skills),
            capabilities: take_declared_opt(overlay.capabilities, held.capabilities),
            mcp_server_configs: take_declared_opt(overlay.mcp_server_configs, held.mcp_server_configs),
            structured_capabilities: take_declared_opt(overlay.structured_capabilities, held.structured_capabilities),
            project_overrides: take_declared_opt(overlay.project_overrides, held.project_overrides),
            models: take_declared_opt(overlay.models, held.models),
            tool: take_declared_opt(overlay.tool, held.tool),
            tool_profile: take_declared_opt(overlay.tool_profile, held.tool_profile),
            model: take_declared_opt(overlay.model, held.model),
            fallback_models: take_declared_opt(overlay.fallback_models, held.fallback_models),
            fallback_tools: take_declared_opt(overlay.fallback_tools, held.fallback_tools),
            reasoning_effort: take_declared_opt(overlay.reasoning_effort, held.reasoning_effort),
            permission_mode: take_declared_opt(overlay.permission_mode, held.permission_mode),
            web_search: take_declared_opt(overlay.web_search, held.web_search),
            network_access: take_declared_opt(overlay.network_access, held.network_access),
            timeout_secs: take_declared_opt(overlay.timeout_secs, held.timeout_secs),
            max_attempts: take_declared_opt(overlay.max_attempts, held.max_attempts),
            retry_on: take_declared_opt(overlay.retry_on, held.retry_on),
            no_retry_on: take_declared_opt(overlay.no_retry_on, held.no_retry_on),
            extra_args: take_declared_opt(overlay.extra_args, held.extra_args),
            codex_config_overrides: take_declared_opt(overlay.codex_config_overrides, held.codex_config_overrides),
            max_continuations: take_declared_opt(overlay.max_continuations, held.max_continuations),
        };
    }
}

impl From<AgentProfile> for AgentProfileOverlay {
    fn from(profile: AgentProfile) -> (r: Self) {
        AgentProfileOverlay {
            name: profile.name,
            description: Some(profile.description),
            system_prompt: Some(profile.system_prompt),
            system_prompt_file: profile.system_prompt_file,
            role: profile.role,
            persona: profile.persona,
            memory: Some(profile.memory),
            communication: Some(profile.communication),
            mcp_servers: Some(profile.mcp_servers),
            tool_policy: Some(profile.tool_policy),
            approval_policy: profile.approval_policy,
            hooks: Some(profile.hooks),
            skills: Some(profile.skills),
            capabilities: Some(profile.capabilities),
            mcp_server_configs: profile.mcp_server_configs,
            structured_capabilities: profile.structured_capabilities,
            project_overrides: profile.project_overrides,
            models: Some(profile.models),
            tool: profile.tool,
            tool_profile: profile.tool_profile,
            model: profile.model,
            fallback_models: Some(profile.fallback_models),
            fallback_tools: Some(profile.fallback_tools),
            reasoning_effort: profile.reasoning_effort,
            permission_mode: profile.permission_mode,
            web_search: profile.web_search,
            network_access: profile.network_access,
            timeout_secs: profile.timeout_secs,
            max_attempts: profile.max_attempts,
            retry_on: Some(profile.retry_on),
            no_retry_on: Some(profile.no_retry_on),
            extra_args: Some(profile.extra_args),
            codex_config_overrides: Some(profile.codex_config_overrides),
            max_continuations: profile.max_continuations,
        }
    }
}

impl vstd::std_specs::convert::FromSpecImpl<AgentProfile> for AgentProfileOverlay {
    open spec fn obeys_from_spec() -> bool {
        true
    }

    open spec fn from_spec(profile: AgentProfile) -> Self {
        full_overlay(profile)
    }
}

// ---------------------------------------------------------------------
// Laws of layering
// ---------------------------------------------------------------------

/// Layering is associative: it does not matter in which order neighbours of a
/// stack of overlays are combined.
pub proof fn layering_is_associative(
    a: AgentProfileOverlay,
    b: AgentProfileOverlay,
    c: AgentProfileOverlay,
)
    ensures
        layered(layered(a, b), c) == layered(a, layered(b, c)),
{
    let x = layered(layered(a, b), c);
    let y = layered(a, layered(b, c));
    assert(x.name == y.name);
    assert(x.description == y.description);
    assert(x.system_prompt == y.system_prompt);
    assert(x.system_prompt_file == y.system_prompt_file);
    assert(x.role == y.role);
    assert(x.persona == y.persona);
    assert(x.memory == y.memory);
    assert(x.communication == y.communication);
    assert(x.mcp_servers == y.mcp_servers);
    assert(x.tool_policy == y.tool_policy);
    assert(x.approval_policy == y.approval_policy);
    assert(x.hooks == y.hooks);
    assert(x.skills == y.skills);
    assert(x.capabilities == y.capabilities);
    assert(x.mcp_server_configs == y.mcp_server_configs);
    assert(x.structured_capabilities == y.structured_capabilities);
    assert(x.project_overrides == y.project_overrides);
    assert(x.models == y.models);
    assert(x.tool == y.tool);
    assert(x.tool_profile == y.tool_profile);
    assert(x.model == y.model);
    assert(x.fallback_models == y.fallback_models);
    assert(x.fallback_tools == y.fallback_tools);
    assert(x.reasoning_effort == y.reasoning_effort);
    assert(x.permission_mode == y.permission_mode);
    assert(x.web_search == y.web_search);
    assert(x.network_access == y.network_access);
    assert(x.timeout_secs == y.timeout_secs);
    assert(x.max_attempts == y.max_attempts);
    assert(x.retry_on == y.retry_on);
    assert(x.no_retry_on == y.no_retry_on);
    assert(x.extra_args == y.extra_args);
    assert(x.codex_config_overrides == y.codex_config_overrides);
    assert(x.max_continuations == y.max_continuations);
}

/// Layering an overlay twice is layering it once.
pub proof fn layering_is_idempotent(a: AgentProfileOverlay, b: AgentProfileOverlay)
    ensures
        layered(layered(a, b), b) == layered(a, b),
        layered(a, a) == a,
{
}

/// An overlay that declares nothing changes nothing, from either side.
pub proof fn empty_overlay_is_neutral(
    empty: AgentProfileOverlay,
    a: AgentProfileOverlay,
    profile: AgentProfile,
)
    requires
        empty.is_default(),
    ensures
        layered(a, empty) == a,
        layered(empty, a) == a,
        merged_profile(profile, empty) == profile,
{
}

/// Merging a layered overlay is merging its layers in turn.
pub proof fn merging_layers_in_turn(
    profile: AgentProfile,
    a: AgentProfileOverlay,
    b: AgentProfileOverlay,
)
    ensures
        merged_profile(profile, layered(a, b)) == merged_profile(merged_profile(profile, a), b),
{
}

/// A profile survives being turned into an overlay and materialized again.
pub proof fn profile_round_trips(profile: AgentProfile, base: AgentProfile)
    requires
        base.is_default(),
    ensures
        merged_profile(base, full_overlay(profile)) == profile,
{
}

/// Every field that the later layer declares wins, even at its default; every
/// field that it leaves out keeps the earlier layer's value.
pub proof fn later_layers_win(base: AgentProfileOverlay, overlay: AgentProfileOverlay)
    ensures
        overlay.name is Some ==> layered(base, overlay).name == overlay.name,
        overlay.name is None ==> layered(base, overlay).name == base.name,
        overlay.description is Some ==> layered(base, overlay).description == overlay.description,
        overlay.description is None ==> layered(base, overlay).description == base.description,
        overlay.system_prompt is Some ==> layered(base, overlay).system_prompt == overlay.system_prompt,
        overlay.system_prompt is None ==> layered(base, overlay).system_prompt == base.system_prompt,
        overlay.system_prompt_file is Some ==> layered(base, overlay).system_prompt_file == overlay.system_prompt_file,
        overlay.system_prompt_file is None ==> layered(base, overlay).system_prompt_file == base.system_prompt_file,
        overlay.role is Some ==> layered(base, overlay).role == overlay.role,
        overlay.role is None ==> layered(base, overlay).role == base.role,
        overlay.persona is Some ==> layered(base, overlay).persona == overlay.persona,
        overlay.persona is None ==> layered(base, overlay).persona == base.persona,
        overlay.memory is Some ==> layered(base, overlay).memory == overlay.memory,
        overlay.memory is None ==> layered(base, overlay).memory == base.memory,
        overlay.communication is Some ==> layered(base, overlay).communication == overlay.communication,
        overlay.communication is None ==> layered(base, overlay).communication == base.communication,
        overlay.mcp_servers is Some ==> layered(base, overlay).mcp_servers == overlay.mcp_servers,
        overlay.mcp_servers is None ==> layered(base, overlay).mcp_servers == base.mcp_servers,
        overlay.tool_policy is Some ==> layered(base, overlay).tool_policy == overlay.tool_policy,
        overlay.tool_policy is None ==> layered(base, overlay).tool_policy == base.tool_policy,
        overlay.approval_policy is Some ==> layered(base, overlay).approval_policy == overlay.approval_policy,
        overlay.approval_policy is None ==> layered(base, overlay).approval_policy == base.approval_policy,
        overlay.hooks is Some ==> layered(base, overlay).hooks == overlay.hooks,
        overlay.hooks is None ==> layered(base, overlay).hooks == base.hooks,
        overlay.skills is Some ==> layered(base, overlay).skills == overlay.skills,
        overlay.skills is None ==> layered(base, overlay).skills == base.skills,
        overlay.capabilities is Some ==> layered(base, overlay).capabilities == overlay.capabilities,
        overlay.capabilities is None ==> layered(base, overlay).capabilities == base.capabilities,
        overlay.mcp_server_configs is Some ==> layered(base, overlay).mcp_server_configs == overlay.mcp_server_configs,
        overlay.mcp_server_configs is None ==> layered(base, overlay).mcp_server_configs == base.mcp_server_configs,
        overlay.structured_capabilities is Some ==> layered(base, overlay).structured_capabilities == overlay.structured_capabilities,
        overlay.structured_capabilities is None ==> layered(base, overlay).structured_capabilities == base.structured_capabilities,
        overlay.project_overrides is Some ==> layered(base, overlay).project_overrides == overlay.project_overrides,
        overlay.project_overrides is None ==> layered(base, overlay).project_overrides == base.project_overrides,
        overlay.models is Some ==> layered(base, overlay).models == overlay.models,
        overlay.models is None ==> layered(base, overlay).models == base.models,
        overlay.tool is Some ==> layered(base, overlay).tool == overlay.tool,
        overlay.tool is None ==> layered(base, overlay).tool == base.tool,
        overlay.tool_profile is Some ==> layered(base, overlay).tool_profile == overlay.tool_profile,
        overlay.tool_profile is None ==> layered(base, overlay).tool_profile == base.tool_profile,
        overlay.model is Some ==> layered(base, overlay).model == overlay.model,
        overlay.model is None ==> layered(base, overlay).model == base.model,
        overlay.fallback_models is Some ==> layered(base, overlay).fallback_models == overlay.fallback_models,
        overlay.fallback_models is None ==> layered(base, overlay).fallback_models == base.fallback_models,
        overlay.fallback_tools is Some ==> layered(base, overlay).fallback_tools == overlay.fallback_tools,
        overlay.fallback_tools is None ==> layered(base, overlay).fallback_tools == base.fallback_tools,
        overlay.reasoning_effort is Some ==> layered(base, overlay).reasoning_effort == overlay.reasoning_effort,
        overlay.reasoning_effort is None ==> layered(base, overlay).reasoning_effort == base.reasoning_effort,
        overlay.permission_mode is Some ==> layered(base, overlay).permission_mode == overlay.permission_mode,
        overlay.permission_mode is None ==> layered(base, overlay).permission_mode == base.permission_mode,
        overlay.web_search is Some ==> layered(base, overlay).web_search == overlay.web_search,
        overlay.web_search is None ==> layered(base, overlay).web_search == base.web_search,
        overlay.network_access is Some ==> layered(base, overlay).network_access == overlay.network_access,
        overlay.network_access is None ==> layered(base, overlay).network_access == base.network_access,
        overlay.timeout_secs is Some ==> layered(base, overlay).timeout_secs == overlay.timeout_secs,
        overlay.timeout_secs is None ==> layered(base, overlay).timeout_secs == base.timeout_secs,
        overlay.max_attempts is Some ==> layered(base, overlay).max_attempts == overlay.max_attempts,
        overlay.max_attempts is None ==> layered(base, overlay).max_attempts == base.max_attempts,
        overlay.retry_on is Some ==> layered(base, overlay).retry_on == overlay.retry_on,
        overlay.retry_on is None ==> layered(base, overlay).retry_on == base.retry_on,
        overlay.no_retry_on is Some ==> layered(base, overlay).no_retry_on == overlay.no_retry_on,
        overlay.no_retry_on is None ==> layered(base, overlay).no_retry_on == base.no_retry_on,
        overlay.extra_args is Some ==> layered(base, overlay).extra_args == overlay.extra_args,
        overlay.extra_args is None ==> layered(base, overlay).extra_args == base.extra_args,
        overlay.codex_config_overrides is Some ==> layered(base, overlay).codex_config_overrides == overlay.codex_config_overrides,
        overlay.codex_config_overrides is None ==> layered(base, overlay).codex_config_overrides == base.codex_config_overrides,
        overlay.max_continuations is Some ==> layered(base, overlay).max_continuations == overlay.max_continuations,
        overlay.max_continuations is None ==> layered(base, overlay).max_continuations == base.max_continuations,
{
}

/// Every field that an overlay declares replaces the profile's; every field that
/// it leaves out stays.
pub proof fn declared_fields_replace_the_profile(base: AgentProfile, overlay: AgentProfileOverlay)
    ensures
        overlay.name is Some ==> merged_profile(base, overlay).name == overlay.name,
        overlay.name is None ==> merged_profile(base, overlay).name == base.name,
        overlay.description is Some ==> merged_profile(base, overlay).description == overlay.description->0,
        overlay.description is None ==> merged_profile(base, overlay).description == base.description,
        overlay.system_prompt is Some ==> merged_profile(base, overlay).system_prompt == overlay.system_prompt->0,
        overlay.system_prompt is None ==> merged_profile(base, overlay).system_prompt == base.system_prompt,
        overlay.system_prompt_file is Some ==> merged_profile(base, overlay).system_prompt_file == overlay.system_prompt_file,
        overlay.system_prompt_file is None ==> merged_profile(base, overlay).system_prompt_file == base.system_prompt_file,
        overlay.role is Some ==> merged_profile(base, overlay).role == overlay.role,
        overlay.role is None ==> merged_profile(base, overlay).role == base.role,
        overlay.persona is Some ==> merged_profile(base, overlay).persona == overlay.persona,
        overlay.persona is None ==> merged_profile(base, overlay).persona == base.persona,
        overlay.memory is Some ==> merged_profile(base, overlay).memory == overlay.memory->0,
        overlay.memory is None ==> merged_profile(base, overlay).memory == base.memory,
        overlay.communication is Some ==> merged_profile(base, overlay).communication == overlay.communication->0,
        overlay.communication is None ==> merged_profile(base, overlay).communication == base.communication,
        overlay.mcp_servers is Some ==> merged_profile(base, overlay).mcp_servers == overlay.mcp_servers->0,
        overlay.mcp_servers is None ==> merged_profile(base, overlay).mcp_servers == base.mcp_servers,
        overlay.tool_policy is Some ==> merged_profile(base, overlay).tool_policy == overlay.tool_policy->0,
        overlay.tool_policy is None ==> merged_profile(base, overlay).tool_policy == base.tool_policy,
        overlay.approval_policy is Some ==> merged_profile(base, overlay).approval_policy == overlay.approval_policy,
        overlay.approval_policy is None ==> merged_profile(base, overlay).approval_policy == base.approval_policy,
        overlay.hooks is Some ==> merged_profile(base, overlay).hooks == overlay.hooks->0,
        overlay.hooks is None ==> merged_profile(base, overlay).hooks == base.hooks,
        overlay.skills is Some ==> merged_profile(base, overlay).skills == overlay.skills->0,
        overlay.skills is None ==> merged_profile(base, overlay).skills == base.skills,
        overlay.capabilities is Some ==> merged_profile(base, overlay).capabilities == overlay.capabilities->0,
        overlay.capabilities is None ==> merged_profile(base, overlay).capabilities == base.capabilities,
        overlay.mcp_server_configs is Some ==> merged_profile(base, overlay).mcp_server_configs == overlay.mcp_server_configs,
        overlay.mcp_server_configs is None ==> merged_profile(base, overlay).mcp_server_configs == base.mcp_server_configs,
        overlay.structured_capabilities is Some ==> merged_profile(base, overlay).structured_capabilities == overlay.structured_capabilities,
        overlay.structured_capabilities is None ==> merged_profile(base, overlay).structured_capabilities == base.structured_capabilities,
        overlay.project_overrides is Some ==> merged_profile(base, overlay).project_overrides == overlay.project_overrides,
        overlay.project_overrides is None ==> merged_profile(base, overlay).project_overrides == base.project_overrides,
        overlay.models is Some ==> merged_profile(base, overlay).models == overlay.models->0,
        overlay.models is None ==> merged_profile(base, overlay).models == base.models,
        overlay.tool is Some ==> merged_profile(base, overlay).tool == overlay.tool,
        overlay.tool is None ==> merged_profile(base, overlay).tool == base.tool,
        overlay.tool_profile is Some ==> merged_profile(base, overlay).tool_profile == overlay.tool_profile,
        overlay.tool_profile is None ==> merged_profile(base, overlay).tool_profile == base.tool_profile,
        overlay.model is Some ==> merged_profile(base, overlay).model == overlay.model,
        overlay.model is None ==> merged_profile(base, overlay).model == base.model,
        overlay.fallback_models is Some ==> merged_profile(base, overlay).fallback_models == overlay.fallback_models->0,
        overlay.fallback_models is None ==> merged_profile(base, overlay).fallback_models == base.fallback_models,
        overlay.fallback_tools is Some ==> merged_profile(base, overlay).fallback_tools == overlay.fallback_tools->0,
        overlay.fallback_tools is None ==> merged_profile(base, overlay).fallback_tools == base.fallback_tools,
        overlay.reasoning_effort is Some ==> merged_profile(base, overlay).reasoning_effort == overlay.reasoning_effort,
        overlay.reasoning_effort is None ==> merged_profile(base, overlay).reasoning_effort == base.reasoning_effort,
        overlay.permission_mode is Some ==> merged_profile(base, overlay).permission_mode == overlay.permission_mode,
        overlay.permission_mode is None ==> merged_profile(base, overlay).permission_mode == base.permission_mode,
        overlay.web_search is Some ==> merged_profile(base, overlay).web_search == overlay.web_search,
        overlay.web_search is None ==> merged_profile(base, overlay).web_search == base.web_search,
        overlay.network_access is Some ==> merged_profile(base, overlay).network_access == overlay.network_access,
        overlay.network_access is None ==> merged_profile(base, overlay).network_access == base.network_access,
        overlay.timeout_secs is Some ==> merged_profile(base, overlay).timeout_secs == overlay.timeout_secs,
        overlay.timeout_secs is None ==> merged_profile(base, overlay).timeout_secs == base.timeout_secs,
        overlay.max_attempts is Some ==> merged_profile(base, overlay).max_attempts == overlay.max_attempts,
        overlay.max_attempts is None ==> merged_profile(base, overlay).max_attempts == base.max_attempts,
        overlay.retry_on is Some ==> merged_profile(base, overlay).retry_on == overlay.retry_on->0,
        overlay.retry_on is None ==> merged_profile(base, overlay).retry_on == base.retry_on,
        overlay.no_retry_on is Some ==> merged_profile(base, overlay).no_retry_on == overlay.no_retry_on->0,
        overlay.no_retry_on is None ==> merged_profile(base, overlay).no_retry_on == base.no_retry_on,
        overlay.extra_args is Some ==> merged_profile(base, overlay).extra_args == overlay.extra_args->0,
        overlay.extra_args is None ==> merged_profile(base, overlay).extra_args == base.extra_args,
        overlay.codex_config_overrides is Some ==> merged_profile(base, overlay).codex_config_overrides == overlay.codex_config_overrides->0,
        overlay.codex_config_overrides is None ==> merged_profile(base, overlay).codex_config_overrides == base.codex_config_overrides,
        overlay.max_continuations is Some ==> merged_profile(base, overlay).max_continuations == overlay.max_continuations,
        overlay.max_continuations is None ==> merged_profile(base, overlay).max_continuations == base.max_continuations,
{
}

/// A profile's overlay declares every field with the profile's own value.
pub proof fn an_overlay_of_a_profile_declares_it(profile: AgentProfile)
    ensures
        full_overlay(profile).name == profile.name,
        full_overlay(profile).description == Some(profile.description),
        full_overlay(profile).system_prompt == Some(profile.system_prompt),
        full_overlay(profile).system_prompt_file == profile.system_prompt_file,
        full_overlay(profile).role == profile.role,
        full_overlay(profile).persona == profile.persona,
        full_overlay(profile).memory == Some(profile.memory),
        full_overlay(profile).communication == Some(profile.communication),
        full_overlay(profile).mcp_servers == Some(profile.mcp_servers),
        full_overlay(profile).tool_policy == Some(profile.tool_policy),
        full_overlay(profile).approval_policy == profile.approval_policy,
        full_overlay(profile).hooks == Some(profile.hooks),
        full_overlay(profile).skills == Some(profile.skills),
        full_overlay(profile).capabilities == Some(profile.capabilities),
        full_overlay(profile).mcp_server_configs == profile.mcp_server_configs,
        full_overlay(profile).structured_capabilities == profile.structured_capabilities,
        full_overlay(profile).project_overrides == profile.project_overrides,
        full_overlay(profile).models == Some(profile.models),
        full_overlay(profile).tool == profile.tool,
        full_overlay(profile).tool_profile == profile.tool_profile,
        full_overlay(profile).model == profile.model,
        full_overlay(profile).fallback_models == Some(profile.fallback_models),
        full_overlay(profile).fallback_tools == Some(profile.fallback_tools),
        full_overlay(profile).reasoning_effort == profile.reasoning_effort,
        full_overlay(profile).permission_mode == profile.permission_mode,
        full_overlay(profile).web_search == profile.web_search,
        full_overlay(profile).network_access == profile.network_access,
        full_overlay(profile).timeout_secs == profile.timeout_secs,
        full_overlay(profile).max_attempts == profile.max_attempts,
        full_overlay(profile).retry_on == Some(profile.retry_on),
        full_overlay(profile).no_retry_on == Some(profile.no_retry_on),
        full_overlay(profile).extra_args == Some(profile.extra_args),
        full_overlay(profile).codex_config_overrides == Some(profile.codex_config_overrides),
        full_overlay(profile).max_continuations == profile.max_continuations,
{
}

// ---------------------------------------------------------------------
// Laws of policies
// ---------------------------------------------------------------------

/// A `*` stands for any run of characters, the empty one too: a pattern with a
/// literal text in front of its first `*` matches exactly the texts that start
/// with that text and, some way behind it, go on as the rest of the pattern asks.
pub proof fn star_stands_for_any_run(prefix: Seq<char>, rest: Seq<char>, text: Seq<char>)
    requires
        forall|i: int| 0 <= i < prefix.len() ==> #[trigger] prefix[i] != '*',
    ensures
        glob(prefix + seq!['*'] + rest, text) <==> exists|k: int|
            prefix.len() <= k <= text.len() && text.take(prefix.len() as int) == prefix && #[trigger]
            glob(rest, text.skip(k)),
    decreases prefix.len() + text.len(),
{
    let pattern = prefix + seq!['*'] + rest;
    if prefix.len() == 0 {
        assert(pattern[0] == '*');
        assert(pattern.drop_first() =~= rest);
        assert(text.take(0) =~= prefix);
        if glob(rest, text) {
            assert(text.skip(0) =~= text);
            assert(glob(rest, text.skip(0)));
        }
        if text.len() > 0 {
            let tail = text.drop_first();
            star_stands_for_any_run(prefix, rest, tail);
            assert(tail.take(0) =~= prefix);
            if glob(pattern, tail) {
                let k = choose|k: int|
                    prefix.len() <= k <= tail.len() && tail.take(prefix.len() as int) == prefix
                        && #[trigger] glob(rest, tail.skip(k));
                assert(text.skip(k + 1) =~= tail.skip(k));
                assert(glob(rest, text.skip(k + 1)));
            }
        }
        if exists|k: int|
            prefix.len() <= k <= text.len() && text.take(prefix.len() as int) == prefix
                && #[trigger] glob(rest, text.skip(k)) {
            let k = choose|k: int|
                prefix.len() <= k <= text.len() && text.take(prefix.len() as int) == prefix
                    && #[trigger] glob(rest, text.skip(k));
            if k == 0 {
                assert(text.skip(0) =~= text);
            } else {
                let tail = text.drop_first();
                assert(tail.skip(k - 1) =~= text.skip(k));
                assert(glob(rest, tail.skip(k - 1)));
                assert(glob(pattern, tail));
            }
        }
    } else {
        let shorter = prefix.drop_first();
        assert(pattern[0] == prefix[0]);
        assert(pattern.drop_first() =~= shorter + seq!['*'] + rest);
        if text.len() > 0 {
            let tail = text.drop_first();
            assert forall|i: int| 0 <= i < shorter.len() implies #[trigger] shorter[i] != '*' by {
                assert(shorter[i] == prefix[i + 1]);
            }
            star_stands_for_any_run(shorter, rest, tail);
            if prefix.len() <= text.len() {
                assert(text.take(prefix.len() as int).drop_first() =~= tail.take(
                    shorter.len() as int,
                ));
                assert(prefix =~= seq![prefix[0]] + shorter);
                assert(text.take(prefix.len() as int) =~= seq![text[0]] + tail.take(
                    shorter.len() as int,
                ));
            }
            if glob(pattern, text) {
                let k = choose|k: int|
                    shorter.len() <= k <= tail.len() && tail.take(shorter.len() as int) == shorter
                        && #[trigger] glob(rest, tail.skip(k));
                assert(text.skip(k + 1) =~= tail.skip(k));
                assert(glob(rest, text.skip(k + 1)));
            }
            if exists|k: int|
                prefix.len() <= k <= text.len() && text.take(prefix.len() as int) == prefix
                    && #[trigger] glob(rest, text.skip(k)) {
                let k = choose|k: int|
                    prefix.len() <= k <= text.len() && text.take(prefix.len() as int) == prefix
                        && #[trigger] glob(rest, text.skip(k));
                assert(tail.skip(k - 1) =~= text.skip(k));
                assert(text.take(prefix.len() as int)[0] == text[0]);
                assert(glob(rest, tail.skip(k - 1)));
            }
        }
    }
}

/// Whether one of the patterns matches a text.
pub open spec fn one_matches(patterns: Seq<String>, text: Seq<char>) -> bool {
    exists|i: int| 0 <= i < patterns.len() && glob((#[trigger] patterns[i])@, text)
}

/// What a tool policy permits: a tool that no deny pattern matches, if an allow
/// pattern matches it or there is none at all; nothing else.
pub proof fn tools_are_permitted_by_pattern(policy: AgentToolPolicy, tool: Seq<char>)
    ensures
        one_matches(policy.deny@, tool) ==> !policy.permits(tool),
        !one_matches(policy.deny@, tool) && policy.allow@.len() == 0 ==> policy.permits(tool),
        !one_matches(policy.deny@, tool) && one_matches(policy.allow@, tool) ==> policy.permits(
            tool,
        ),
        policy.allow@.len() > 0 && !one_matches(policy.allow@, tool) ==> !policy.permits(tool),
{
}

/// What an approval policy decides: a deny pattern denies, else an allow pattern
/// allows, else the default is what it says.
pub proof fn approvals_are_decided_in_order(policy: ApprovalPolicy, subject: Seq<char>)
    ensures
        one_matches(policy.auto_deny@, subject) ==> policy.decision(subject)
            == ApprovalPolicyDecision::Deny,
        !one_matches(policy.auto_deny@, subject) && one_matches(policy.auto_allow@, subject)
            ==> policy.decision(subject) == ApprovalPolicyDecision::Allow,
        !one_matches(policy.auto_deny@, subject) && !one_matches(policy.auto_allow@, subject) ==> (
        policy.decision(subject) == ApprovalPolicyDecision::Allow <==> policy.default
            == ApprovalPolicyDefault::Allow) && (policy.decision(subject)
            == ApprovalPolicyDecision::Deny <==> policy.default == ApprovalPolicyDefault::Deny) && (
        policy.decision(subject) == ApprovalPolicyDecision::Ask <==> policy.default
            == ApprovalPolicyDefault::Ask) && (policy.decision(subject)
            == ApprovalPolicyDecision::Evaluate <==> policy.default == ApprovalPolicyDefault::Llm),
{
}

/// A contract requires a field exactly if it lists the field, or defines it as
/// required, in whatever ASCII case.
pub proof fn required_fields_are_listed_or_defined(
    contract: PhaseOutputContract,
    field: Seq<char>,
    i: int,
    k: Seq<char>,
)
    ensures
        0 <= i < contract.required_fields@.len() && same_ignoring_case(
            contract.required_fields@[i]@,
            field,
        ) ==> contract.requires_name(field),
        contract.fields@.contains_key(k) && contract.fields@[k].required && same_ignoring_case(
            k,
            field,
        ) ==> contract.requires_name(field),
        (forall|j: int|
            0 <= j < contract.required_fields@.len() ==> !same_ignoring_case(
                (#[trigger] contract.required_fields@[j])@,
                field,
            )) && (forall|name: Seq<char>| #[trigger]
            contract.fields@.contains_key(name) && same_ignoring_case(name, field)
                ==> !contract.fields@[name].required) ==> !contract.requires_name(field),
{
}

/// Every word for a mode stands for one mode.
pub proof fn mode_words_stand_for_one_mode(mode: PhaseExecutionMode)
    ensures
        mode.name() == "agent"@ <==> mode == PhaseExecutionMode::Agent,
        mode.name() == "command"@ <==> mode == PhaseExecutionMode::Command,
        mode.name() == "manual"@ <==> mode == PhaseExecutionMode::Manual,
{
    reveal_strlit("agent");
    reveal_strlit("command");
    reveal_strlit("manual");
    assert("agent"@[0] == 'a' && "command"@[0] == 'c' && "manual"@[0] == 'm');
}

/// A tool policy that says nothing permits every tool, and an approval policy that
/// says nothing asks about everything.
pub proof fn silent_policies_permit_and_ask(
    tools: AgentToolPolicy,
    approvals: ApprovalPolicy,
    subject: Seq<char>,
)
    ensures
        tools.is_default() ==> tools.permits(subject),
        approvals.is_default() ==> approvals.decision(subject) == ApprovalPolicyDecision::Ask,
{
}

/// An agent that nothing is said of has no memory and no channels, no servers,
/// skills, models or retries of its own, and every tool.
pub proof fn silent_agents_have_nothing(profile: AgentProfile, tool: Seq<char>, k: Seq<char>)
    requires
        profile.is_default(),
    ensures
        profile.description@.len() == 0,
        profile.system_prompt@.len() == 0,
        profile.model is None,
        profile.tool is None,
        profile.approval_policy is None,
        !profile.memory.enabled,
        !profile.communication.enabled,
        profile.mcp_servers@.len() == 0,
        profile.skills@.len() == 0,
        profile.models@.len() == 0,
        profile.fallback_models@.len() == 0,
        profile.fallback_tools@.len() == 0,
        profile.retry_on@.len() == 0,
        profile.no_retry_on@.len() == 0,
        profile.extra_args@.len() == 0,
        !profile.capabilities@.contains_key(k),
        profile.tool_policy.permits(tool),
        profile.hooks.policy_rules@.len() == 0,
        profile.hooks.observers@.len() == 0,
{
}

/// Whether a capability of a profile is switched on.
pub open spec fn has_capability(profile: AgentProfile, name: Seq<char>) -> bool {
    profile.capabilities@.contains_key(name) && profile.capabilities@[name]
}

/// A capability is there where its flag is on, and not where the flag is off or
/// missing.
pub proof fn capabilities_go_by_their_flag(profile: AgentProfile, name: Seq<char>)
    ensures
        profile.capabilities@.contains_pair(name, true) ==> has_capability(profile, name),
        profile.capabilities@.contains_pair(name, false) ==> !has_capability(profile, name),
        !profile.capabilities@.contains_key(name) ==> !has_capability(profile, name),
        AGENT_CAPABILITY_MEMORY@ == "memory"@,
{
}

} // verus!
