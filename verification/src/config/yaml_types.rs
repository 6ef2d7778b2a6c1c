//! The YAML form of the workflow configuration, and how its permissive parts are
//! read: phase entries and worktree blocks.

use vstd::prelude::*;
use vstd::slice::slice_subrange;

use crate::config::agent_types::{
    AgentProfileOverlay, AgentRuntimeOverrides, EvalKind, EvalOnFail, Float32, Idempotency,
    PhaseDecisionContract, PhaseExecutionMode, PhaseOutputContract, PhaseRetryConfig,
};
use crate::config::workflow_types::{
    AgentChannelConfig, BudgetConfig, DaemonConfig, EnvironmentRouting, IntegrationsConfig,
    McpServerDefinition, PhaseMcpBinding, PhaseTransitionConfig, PhaseUiDefinition, SecretRef,
    ToolDefinition, WorkflowSchedule, WorkflowTrigger, WorkflowVariable, Workspace, WorktreeConfig,
};
use crate::config::yaml_diagnostic::{closest, closest_match};
use crate::config::yaml_tree::{
    entry_trees, find_entry, first_entry, lemma_mapping_tree, YamlEntry, YamlNode, YamlTree,
};
use crate::text::{
    chars_of, decimal, has_prefix, join_texts, joined, lower, lower_text, opt_str, push_decimal,
    same_text, starts_with, texts, to_upper_char, trim, trimmed, trimmed_text, upper_char,
};
use crate::text_map::TextMap;

verus! {

pub const YAML_WORKFLOWS_DIR: &'static str = "workflows";

pub const GENERATED_WORKFLOW_OVERLAY_FILE_NAME: &'static str = "generated-workflow.yaml";

pub const GENERATED_RUNTIME_OVERLAY_FILE_NAME: &'static str = "generated-runtime.yaml";

pub const DEFAULT_WORKFLOW_TEMPLATE_FILE_NAME: &'static str = "custom.yaml";

pub const STANDARD_WORKFLOW_TEMPLATE_FILE_NAME: &'static str = "standard-workflow.yaml";

pub const HOTFIX_WORKFLOW_TEMPLATE_FILE_NAME: &'static str = "hotfix-workflow.yaml";

pub const RESEARCH_WORKFLOW_TEMPLATE_FILE_NAME: &'static str = "research-workflow.yaml";

/// A named model+tool entry in the top-level `models:` registry.
/// Agents reference these by name in their `models:` list.
#[derive(Debug, Clone, PartialEq)]
pub struct ModelRegistryEntry {
    /// The model identifier (e.g. "o4-mini").
    pub model: String,
    /// Optional explicit tool override. When omitted, the tool is
    /// auto-derived from the model ID via `tool_for_model_id()`.
    pub tool: Option<String>,
}

/// Settings of one phase of a workflow.
#[derive(Debug)]
pub struct YamlPhaseRichConfig {
    pub max_rework_attempts: u32,
    pub skip_if: Vec<String>,
    pub on_verdict: TextMap<PhaseTransitionConfig>,
    pub budget: Option<BudgetConfig>,
    pub environment: Option<String>,
    pub workspace: Option<String>,
}

/// A reference to another workflow.
#[derive(Debug)]
pub struct YamlSubWorkflowRef {
    pub workflow_ref: String,
}

/// One entry of the phase list of a workflow.
#[derive(Debug)]
pub enum YamlPhaseEntry {
    SubWorkflow(YamlSubWorkflowRef),
    Simple(String),
    Rich(TextMap<YamlPhaseRichConfig>),
}

/// Permissive YAML representation of a worktree block.
///
/// Authors may write either the long form (`worktree: { mode: skip, ... }`),
/// the short form (`worktree: skip`), or the boolean shorthand
/// (`worktree: false` -> skip, `worktree: true` -> auto). The parser
/// normalizes all three into `WorktreeConfig`.
#[derive(Debug, Clone)]
pub enum YamlPhaseWorktree {
    /// `worktree: false` / `worktree: true` boolean shorthand.
    Bool(bool),
    /// `worktree: skip` short-form scalar (auto / required / skip).
    Mode(String),
    /// `worktree: { mode: ..., cleanup: ..., base_ref: ... }` long-form map.
    Full(WorktreeConfig),
}

/// A workflow.
#[derive(Debug)]
pub struct YamlWorkflowDefinition {
    pub id: String,
    pub name: Option<String>,
    pub description: Option<String>,
    pub phases: Vec<YamlPhaseEntry>,
    pub variables: Vec<WorkflowVariable>,
    pub worktree: Option<YamlPhaseWorktree>,
    pub budget: Option<BudgetConfig>,
    pub environment: Option<String>,
    pub workspace: Option<String>,
}

/// The command of a command phase.
#[derive(Debug)]
pub struct YamlCommandDefinition {
    pub program: String,
    pub args: Vec<String>,
    pub env: TextMap<String>,
    pub cwd_mode: Option<String>,
    pub cwd_path: Option<String>,
    pub timeout_secs: Option<u64>,
    pub success_exit_codes: Option<Vec<i32>>,
    pub parse_json_output: Option<bool>,
    pub expected_result_kind: Option<String>,
    pub expected_schema: Option<serde_json::Value>,
    pub category: Option<String>,
    pub failure_pattern: Option<String>,
    pub excerpt_max_chars: Option<usize>,
    pub on_success_verdict: Option<String>,
    pub on_failure_verdict: Option<String>,
    pub confidence: Option<Float32>,
    pub failure_risk: Option<String>,
}

/// The instructions of a manual phase.
#[derive(Debug)]
pub struct YamlManualDefinition {
    pub instructions: String,
    pub approval_note_required: Option<bool>,
    pub timeout_secs: Option<u64>,
}

/// A check of an eval gate.
#[derive(Debug)]
pub struct YamlEvalCheck {
    pub id: String,
    pub kind: EvalKind,
    pub command: Option<String>,
    pub args: Vec<String>,
    pub working_dir: Option<String>,
    pub timeout_secs: Option<u64>,
    pub expected_exit: i32,
    pub agent: Option<String>,
    pub prompt: Option<String>,
}

/// The eval gate of a phase.
#[derive(Debug)]
pub struct YamlEvalsConfig {
    pub pass_threshold: Float32,
    pub on_fail: EvalOnFail,
    pub max_reworks: u32,
    pub checks: Vec<YamlEvalCheck>,
}

/// How a phase is executed.
#[derive(Debug)]
pub struct YamlPhaseDefinition {
    pub mode: PhaseExecutionMode,
    pub agent: Option<String>,
    pub command: Option<YamlCommandDefinition>,
    pub manual: Option<YamlManualDefinition>,
    pub directive: Option<String>,
    pub system_prompt: Option<String>,
    pub skills: Vec<String>,
    pub runtime: Option<AgentRuntimeOverrides>,
    pub capabilities: Option<serde_json::Value>,
    pub output_contract: Option<PhaseOutputContract>,
    pub output_json_schema: Option<serde_json::Value>,
    pub decision_contract: Option<PhaseDecisionContract>,
    pub retry: Option<PhaseRetryConfig>,
    pub default_tool: Option<String>,
    pub idempotency: Idempotency,
    pub worktree: Option<YamlPhaseWorktree>,
    pub evals: Option<YamlEvalsConfig>,
}

/// A workflow file.
#[derive(Debug)]
pub struct YamlWorkflowFile {
    pub default_workflow_ref: Option<String>,
    pub phase_catalog: Option<TextMap<PhaseUiDefinition>>,
    pub workflows: Vec<YamlWorkflowDefinition>,
    pub phases: TextMap<YamlPhaseDefinition>,
    pub agents: TextMap<AgentProfileOverlay>,
    pub agent_channels: TextMap<AgentChannelConfig>,
    /// Top-level model registry. Agents reference entries by name in their
    /// `models:` list to build primary + fallback chains.
    pub models: TextMap<ModelRegistryEntry>,
    pub tools_allowlist: Vec<String>,
    pub mcp_servers: TextMap<McpServerDefinition>,
    pub phase_mcp_bindings: TextMap<PhaseMcpBinding>,
    pub tools: TextMap<ToolDefinition>,
    pub integrations: Option<IntegrationsConfig>,
    pub schedules: Vec<WorkflowSchedule>,
    pub triggers: Vec<WorkflowTrigger>,
    pub daemon: Option<DaemonConfig>,
    /// Top-level declarative secret references. Each entry maps a logical
    /// secret name to a process env var; reference values with
    /// `${secret.<name>}` in any YAML scalar.
    pub secrets: TextMap<SecretRef>,
    pub workspaces: TextMap<Workspace>,
    pub environment_routing: Option<EnvironmentRouting>,
}

impl Default for YamlWorkflowFile {
    fn default() -> (r: Self)
        ensures
            r.is_empty_file(),
    {
        YamlWorkflowFile {
            default_workflow_ref: None,
            phase_catalog: None,
            workflows: Vec::new(),
            phases: TextMap::new(),
            agents: TextMap::new(),
            agent_channels: TextMap::new(),
            models: TextMap::new(),
            tools_allowlist: Vec::new(),
            mcp_servers: TextMap::new(),
            phase_mcp_bindings: TextMap::new(),
            tools: TextMap::new(),
            integrations: None,
            schedules: Vec::new(),
            triggers: Vec::new(),
            daemon: None,
            secrets: TextMap::new(),
            workspaces: TextMap::new(),
            environment_routing: None,
        }
    }
}

impl YamlWorkflowFile {
    /// Whether the file holds nothing but its phase catalog, workflows and phases.
    pub open spec fn holds_only_authored_blocks(self) -> bool {
        &&& self.default_workflow_ref is None
        &&& self.agents@ == Map::<Seq<char>, AgentProfileOverlay>::empty()
        &&& self.agent_channels@ == Map::<Seq<char>, AgentChannelConfig>::empty()
        &&& self.models@ == Map::<Seq<char>, ModelRegistryEntry>::empty()
        &&& self.tools_allowlist@.len() == 0
        &&& self.mcp_servers@ == Map::<Seq<char>, McpServerDefinition>::empty()
        &&& self.phase_mcp_bindings@ == Map::<Seq<char>, PhaseMcpBinding>::empty()
        &&& self.tools@ == Map::<Seq<char>, ToolDefinition>::empty()
        &&& self.integrations is None
        &&& self.schedules@.len() == 0
        &&& self.triggers@.len() == 0
        &&& self.daemon is None
        &&& self.secrets@ == Map::<Seq<char>, SecretRef>::empty()
        &&& self.workspaces@ == Map::<Seq<char>, Workspace>::empty()
        &&& self.environment_routing is None
    }

    /// Whether the file holds nothing.
    pub open spec fn is_empty_file(self) -> bool {
        &&& self.holds_only_authored_blocks()
        &&& self.phase_catalog is None
        &&& self.workflows@.len() == 0
        &&& self.phases@ == Map::<Seq<char>, YamlPhaseDefinition>::empty()
    }
}

// ---------------------------------------------------------------------
// Phase entries
// ---------------------------------------------------------------------

/// Whether a value looks like a misspelt `{ workflow_ref: <string> }`: one key
/// that starts with `workflow_re`, or is `workflowref`, with a string value.
pub open spec fn is_reference_typo(value: YamlTree) -> bool {
    match value {
        YamlTree::Mapping(entries) => entries.len() == 1 && (match entries[0] {
            (YamlTree::Text(key), YamlTree::Text(_)) => {
                let name = lower(key);
                name != "workflow_ref"@ && (starts_with(name, "workflow_re"@) || name
                    == "workflowref"@)
            },
            _ => false,
        }),
        _ => false,
    }
}

fn value_looks_like_sub_workflow_ref_typo(value: &YamlNode) -> (r: bool)
    ensures
        r == is_reference_typo(value@),
{
    match value {
        YamlNode::Mapping(entries) => {
            proof {
                lemma_mapping_tree(*entries);
            }
            if entries.len() != 1 {
                return false;
            }
            proof {
                assert(entry_trees(entries@)[0] == (entries@[0].key@, entries@[0].value@));
            }
            match (&entries[0].key, &entries[0].value) {
                (YamlNode::Text(key), YamlNode::Text(_)) => {
                    let name = lower_text(key.as_str());
                    !same_text(name.as_str(), "workflow_ref") && (has_prefix(
                        chars_of(name.as_str()).as_slice(),
                        chars_of("workflow_re").as_slice(),
                    ) || same_text(name.as_str(), "workflowref"))
                },
                _ => false,
            }
        },
        _ => false,
    }
}

/// What a phase entry stands for: a string is a phase id; a map is a
/// sub-workflow reference if it reads as one (`sub`), else a rich entry if it
/// reads as one (`rich`) with exactly one key.
pub open spec fn phase_entry_of(
    value: YamlTree,
    text: String,
    sub: Result<YamlSubWorkflowRef, String>,
    rich: Result<TextMap<YamlPhaseRichConfig>, String>,
) -> Result<YamlPhaseEntry, Seq<char>> {
    match value {
        YamlTree::Text(_) => Ok(YamlPhaseEntry::Simple(text)),
        YamlTree::Mapping(_) => match (sub, rich) {
            (Ok(reference), _) => Ok(YamlPhaseEntry::SubWorkflow(reference)),
            (Err(_), Ok(map)) => if map.names().len() == 1 {
                Ok(YamlPhaseEntry::Rich(map))
            } else {
                Err(
                    "rich phase entry must be a single-key map `{ <phase_id>: { ... } }`; got "@
                        + decimal(map.names().len()) + " keys"@,
                )
            },
            (Err(sub_err), Err(rich_err)) => if is_reference_typo(value) {
                Err("invalid sub-workflow ref: "@ + sub_err@)
            } else {
                Err(
                    "invalid phase entry shape: "@ + rich_err@
                        + ". expected one of: a string phase id (e.g. `- impl`); a sub-workflow ref (`{ workflow_ref: <name> }`); or a rich config single-key map (`{ <phase_id>: { max_rework_attempts: N, ... } }`)"@,
                )
            },
        },
        other => Err(
            "invalid phase entry: expected a string phase id, a sub-workflow ref map, or a rich config map; got "@
                + other.kind(),
        ),
    }
}

/// What a phase entry stands for. `sub` and `rich` are what reading a map as a
/// sub-workflow reference and as a rich entry gave; they are not looked at for
/// any other value.
pub fn phase_entry_from_node(
    value: YamlNode,
    sub: Result<YamlSubWorkflowRef, String>,
    rich: Result<TextMap<YamlPhaseRichConfig>, String>,
) -> (r: Result<YamlPhaseEntry, String>)
    ensures
        match phase_entry_of(value@, value->Text_0, sub, rich) {
            Ok(entry) => r is Ok && r->Ok_0 == entry,
            Err(message) => r is Err && (r->Err_0)@ == message,
        },
{
    match value {
        YamlNode::Text(id) => Ok(YamlPhaseEntry::Simple(id)),
        YamlNode::Mapping(_) => {
            let sub_err = match sub {
                Ok(reference) => {
                    return Ok(YamlPhaseEntry::SubWorkflow(reference));
                },
                Err(e) => e,
            };
            let rich_err = match rich {
                Ok(map) => {
                    let n = map.len();
                    if n == 1 {
                        return Ok(YamlPhaseEntry::Rich(map));
                    }
                    let mut message = String::new();
                    message.append(
                        "rich phase entry must be a single-key map `{ <phase_id>: { ... } }`; got ",
                    );
                    push_decimal(&mut message, n as u128);
                    message.append(" keys");
                    proof {
                        assert(message@
                            =~= "rich phase entry must be a single-key map `{ <phase_id>: { ... } }`; got "@
                            + decimal(n as nat) + " keys"@);
                    }
                    return Err(message);
                },
                Err(e) => e,
            };
            let mut message = String::new();
            if value_looks_like_sub_workflow_ref_typo(&value) {
                message.append("invalid sub-workflow ref: ");
                message.append(sub_err.as_str());
                proof {
                    assert(message@ =~= "invalid sub-workflow ref: "@ + sub_err@);
                }
            } else {
                message.append("invalid phase entry shape: ");
                message.append(rich_err.as_str());
                message.append(
                    ". expected one of: a string phase id (e.g. `- impl`); a sub-workflow ref (`{ workflow_ref: <name> }`); or a rich config single-key map (`{ <phase_id>: { max_rework_attempts: N, ... } }`)",
                );
                proof {
                    assert(message@ =~= "invalid phase entry shape: "@ + rich_err@
                        + ". expected one of: a string phase id (e.g. `- impl`); a sub-workflow ref (`{ workflow_ref: <name> }`); or a rich config single-key map (`{ <phase_id>: { max_rework_attempts: N, ... } }`)"@);
                }
            }
            Err(message)
        },
        other => {
            let mut message = String::new();
            message.append(
                "invalid phase entry: expected a string phase id, a sub-workflow ref map, or a rich config map; got ",
            );
            message.append(other.kind());
            proof {
                assert(message@
                    =~= "invalid phase entry: expected a string phase id, a sub-workflow ref map, or a rich config map; got "@
                    + other@.kind());
            }
            Err(message)
        },
    }
}

// ---------------------------------------------------------------------
// Worktree blocks
// ---------------------------------------------------------------------

/// Whether a lower-cased name is a worktree mode.
pub open spec fn is_worktree_mode(name: Seq<char>) -> bool {
    name == "auto"@ || name == "required"@ || name == "skip"@
}

/// The worktree modes.
pub open spec fn worktree_modes() -> Seq<Seq<char>> {
    seq!["auto"@, "required"@, "skip"@]
}

fn names_worktree_mode(name: &str) -> (r: bool)
    ensures
        r == is_worktree_mode(name@),
{
    same_text(name, "auto") || same_text(name, "required") || same_text(name, "skip")
}

/// The worktree mode closest to a name, if one is close.
fn closest_worktree_mode(name: &str) -> (r: Option<&'static str>)
    ensures
        opt_str(r) == closest(name@, worktree_modes(), 2),
{
    let modes: [&'static str; 3] = ["auto", "required", "skip"];
    proof {
        assert(crate::text::slices(modes@) =~= worktree_modes());
    }
    closest_match(name, &modes, 2)
}

/// What an author may have meant by a lower-cased name that is no worktree mode.
pub open spec fn worktree_suggestion(name: Seq<char>) -> Option<Seq<char>> {
    if name == "yes"@ || name == "on"@ || name == "enabled"@ || name == "enable"@ || name
        == "true"@ {
        Some("auto"@)
    } else if name == "no"@ || name == "off"@ || name == "disabled"@ || name == "disable"@ || name
        == "false"@ || name == "none"@ {
        Some("skip"@)
    } else if name == "needed"@ || name == "must"@ || name == "force"@ || name == "mandatory"@ {
        Some("required"@)
    } else {
        closest(name, worktree_modes(), 2)
    }
}

fn suggest_worktree_mode(name: &str) -> (r: Option<&'static str>)
    ensures
        opt_str(r) == worktree_suggestion(name@),
{
    if same_text(name, "yes") || same_text(name, "on") || same_text(name, "enabled") || same_text(
        name,
        "enable",
    ) || same_text(name, "true") {
        Some("auto")
    } else if same_text(name, "no") || same_text(name, "off") || same_text(name, "disabled")
        || same_text(name, "disable") || same_text(name, "false") || same_text(name, "none") {
        Some("skip")
    } else if same_text(name, "needed") || same_text(name, "must") || same_text(name, "force")
        || same_text(name, "mandatory") {
        Some("required")
    } else {
        closest_worktree_mode(name)
    }
}

/// What is said about a string that is no worktree mode.
pub open spec fn worktree_scalar_error(scalar: Seq<char>) -> Seq<char> {
    "invalid `worktree:` value `"@ + scalar
        + "`: expected one of: a string \"auto\" | \"required\" | \"skip\"; a boolean `true` (= auto) | `false` (= skip); or a map { mode: <string>, cleanup: <bool>, base_ref: <string> }"@
        + match worktree_suggestion(lower(trim(scalar))) {
        Some(s) => ". did you mean `"@ + s + "`?"@,
        None => Seq::empty(),
    }
}

/// What is said about the `mode` of a worktree map that could not be read: it is
/// named where it is a string that is no mode.
pub open spec fn worktree_mode_hint(entries: Seq<(YamlTree, YamlTree)>) -> Seq<char> {
    match first_entry(entries, "mode"@) {
        Some(YamlTree::Text(mode)) => {
            let name = lower(trim(mode));
            if is_worktree_mode(name) {
                Seq::empty()
            } else {
                ". `mode: "@ + mode + "` is not valid (expected auto | required | skip)"@
                    + match closest(name, worktree_modes(), 2) {
                    Some(s) => "; did you mean `"@ + s + "`?"@,
                    None => Seq::empty(),
                }
            }
        },
        _ => Seq::empty(),
    }
}

/// What a worktree block stands for: a boolean is kept; a string is kept if it
/// names a mode; a map is what reading it gave (`parsed`).
pub open spec fn worktree_block_of(
    value: YamlTree,
    text: String,
    parsed: Result<WorktreeConfig, String>,
) -> Result<YamlPhaseWorktree, Seq<char>> {
    match value {
        YamlTree::Bool(flag) => Ok(YamlPhaseWorktree::Bool(flag)),
        YamlTree::Text(scalar) => if is_worktree_mode(lower(trim(scalar))) {
            Ok(YamlPhaseWorktree::Mode(text))
        } else {
            Err(worktree_scalar_error(scalar))
        },
        YamlTree::Mapping(entries) => match parsed {
            Ok(config) => Ok(YamlPhaseWorktree::Full(config)),
            Err(e) => Err(
                "invalid `worktree:` map: "@ + e@ + worktree_mode_hint(entries)
                    + ". expected { mode: <auto|required|skip>, cleanup: <bool>, base_ref: <string> }"@,
            ),
        },
        other => Err(
            "invalid `worktree:` value: expected a string, boolean, or map; got "@ + other.kind(),
        ),
    }
}

/// What a worktree block stands for. `parsed` is what reading a map as worktree
/// settings gave; it is not looked at for any other value.
pub fn worktree_from_node(value: YamlNode, parsed: Result<WorktreeConfig, String>) -> (r: Result<
    YamlPhaseWorktree,
    String,
>)
    ensures
        match worktree_block_of(value@, value->Text_0, parsed) {
            Ok(block) => r is Ok && r->Ok_0 == block,
            Err(message) => r is Err && (r->Err_0)@ == message,
        },
{
    match value {
        YamlNode::Bool(flag) => Ok(YamlPhaseWorktree::Bool(flag)),
        YamlNode::Text(scalar) => {
            let name = lower_text(trimmed_text(scalar.as_str()).as_str());
            if names_worktree_mode(name.as_str()) {
                return Ok(YamlPhaseWorktree::Mode(scalar));
            }
            let mut message = String::new();
            message.append("invalid `worktree:` value `");
            message.append(scalar.as_str());
            message.append(
                "`: expected one of: a string \"auto\" | \"required\" | \"skip\"; a boolean `true` (= auto) | `false` (= skip); or a map { mode: <string>, cleanup: <bool>, base_ref: <string> }",
            );
            if let Some(s) = suggest_worktree_mode(name.as_str()) {
                message.append(". did you mean `");
                message.append(s);
                message.append("`?");
            }
            proof {
                assert(message@ =~= worktree_scalar_error(scalar@));
            }
            Err(message)
        },
        YamlNode::Mapping(entries) => match parsed {
            Ok(config) => Ok(YamlPhaseWorktree::Full(config)),
            Err(e) => {
                proof {
                    lemma_mapping_tree(entries);
                }
                let hint = mode_hint(&entries);
                let mut message = String::new();
                message.append("invalid `worktree:` map: ");
                message.append(e.as_str());
                message.append(hint.as_str());
                message.append(
                    ". expected { mode: <auto|required|skip>, cleanup: <bool>, base_ref: <string> }",
                );
                proof {
                    assert(message@ =~= "invalid `worktree:` map: "@ + e@ + worktree_mode_hint(
                        entry_trees(entries@),
                    )
                        + ". expected { mode: <auto|required|skip>, cleanup: <bool>, base_ref: <string> }"@);
                }
                Err(message)
            },
        },
        other => {
            let mut message = String::new();
            message.append("invalid `worktree:` value: expected a string, boolean, or map; got ");
            message.append(other.kind());
            proof {
                assert(message@
                    =~= "invalid `worktree:` value: expected a string, boolean, or map; got "@
                    + other@.kind());
            }
            Err(message)
        },
    }
}

fn mode_hint(entries: &Vec<YamlEntry>) -> (r: String)
    ensures
        r@ == worktree_mode_hint(entry_trees(entries@)),
{
    let mut hint = String::new();
    if let Some(YamlNode::Text(mode)) = find_entry(entries, "mode") {
        let name = lower_text(trimmed_text(mode.as_str()).as_str());
        if !names_worktree_mode(name.as_str()) {
            hint.append(". `mode: ");
            hint.append(mode.as_str());
            hint.append("` is not valid (expected auto | required | skip)");
            if let Some(s) = closest_worktree_mode(name.as_str()) {
                hint.append("; did you mean `");
                hint.append(s);
                hint.append("`?");
            }
        }
    }
    proof {
        assert(hint@ =~= worktree_mode_hint(entry_trees(entries@)));
    }
    hint
}

// ---------------------------------------------------------------------
// Titles
// ---------------------------------------------------------------------

/// Index of the first `-` or `_`, or the length of the text where it has none.
pub open spec fn first_separator(s: Seq<char>) -> int
    decreases s.len(),
{
    if s.len() == 0 || s[0] == '-' || s[0] == '_' {
        0
    } else {
        1 + first_separator(s.drop_first())
    }
}

proof fn lemma_first_separator(s: Seq<char>, k: int)
    requires
        0 <= k <= s.len(),
        forall|i: int| 0 <= i < k ==> s[i] != '-' && s[i] != '_',
        k == s.len() || s[k] == '-' || s[k] == '_',
    ensures
        first_separator(s) == k,
    decreases k,
{
    if k > 0 {
        lemma_first_separator(s.drop_first(), k - 1);
    }
}

/// A word with its first letter in ASCII upper case.
pub open spec fn capitalized(word: Seq<char>) -> Seq<char> {
    if word.len() == 0 {
        word
    } else {
        seq![upper_char(word[0])] + word.drop_first()
    }
}

/// The capitalized words of an id: the parts between `-` and `_` that are not
/// blank.
pub open spec fn title_words(s: Seq<char>) -> Seq<Seq<char>>
    decreases s.len(),
{
    let k = first_separator(s);
    let word = s.take(k);
    let head = if trim(word).len() == 0 {
        Seq::empty()
    } else {
        seq![capitalized(word)]
    };
    if 0 <= k < s.len() {
        head + title_words(s.skip(k + 1))
    } else {
        head
    }
}

/// Title-case a phase id (`code-review` to `Code Review`) for default UI labels.
pub fn title_case_phase_id(phase_id: &str) -> (r: String)
    ensures
        r@ == joined(title_words(phase_id@), " "@),
{
    let chars = chars_of(phase_id);
    let mut words: Vec<String> = Vec::new();
    let mut from: usize = 0;
    let mut more = true;
    proof {
        assert(chars@.skip(0) =~= chars@);
        assert(texts(words@) + title_words(chars@) =~= title_words(chars@));
    }
    while more
        invariant
            from <= chars@.len(),
            more ==> texts(words@) + title_words(chars@.skip(from as int)) == title_words(chars@),
            !more ==> texts(words@) == title_words(chars@),
        decreases (if more {
            chars@.len() - from + 1
        } else {
            0
        }),
    {
        let ghost before = words@;
        let ghost rest = chars@.skip(from as int);
        let mut k: usize = from;
        while k < chars.len() && chars[k] != '-' && chars[k] != '_'
            invariant
                from <= k <= chars@.len(),
                forall|i: int| from <= i < k ==> chars@[i] != '-' && chars@[i] != '_',
            decreases chars@.len() - k,
        {
            k += 1;
        }
        let word = slice_subrange(chars.as_slice(), from, k);
        proof {
            lemma_first_separator(rest, k - from);
            assert(word@ =~= rest.take(k - from));
        }
        let ghost head = if trim(word@).len() == 0 {
            Seq::empty()
        } else {
            seq![capitalized(word@)]
        };
        if trimmed(word).len() > 0 {
            proof {
                crate::text::lemma_trim_len(word@);
            }
            let mut label = String::new();
            label.push(to_upper_char(word[0]));
            crate::text::push_chars(&mut label, slice_subrange(word, 1, word.len()));
            proof {
                assert(label@ =~= capitalized(word@));
            }
            words.push(label);
            proof {
                assert(texts(words@) =~= texts(before) + head);
            }
        } else {
            proof {
                assert(texts(words@) =~= texts(before) + head);
            }
        }
        if k < chars.len() {
            proof {
                assert(chars@.skip(k + 1) =~= rest.skip(k - from + 1));
                assert(texts(before) + (head + title_words(chars@.skip(k + 1))) =~= texts(words@)
                    + title_words(chars@.skip(k + 1)));
            }
            from = k + 1;
        } else {
            more = false;
        }
    }
    join_texts(words.as_slice(), " ")
}

// ---------------------------------------------------------------------
// Laws
// ---------------------------------------------------------------------

/// What an entry is goes by its shape: a string is a phase's id; a map that reads
/// as a reference is one, and another that reads as settings is an entry with
/// settings if it has one key. Nothing else is an entry.
pub proof fn entries_go_by_their_shape(
    value: YamlTree,
    text: String,
    sub: Result<YamlSubWorkflowRef, String>,
    rich: Result<TextMap<YamlPhaseRichConfig>, String>,
)
    ensures
        value is Text ==> phase_entry_of(value, text, sub, rich) == Ok::<
            YamlPhaseEntry,
            Seq<char>,
        >(YamlPhaseEntry::Simple(text)),
        value is Mapping && sub is Ok ==> phase_entry_of(value, text, sub, rich) == Ok::<
            YamlPhaseEntry,
            Seq<char>,
        >(YamlPhaseEntry::SubWorkflow(sub->Ok_0)),
        value is Mapping && sub is Err && rich is Ok && (rich->Ok_0).names().len() == 1
            ==> phase_entry_of(value, text, sub, rich) == Ok::<YamlPhaseEntry, Seq<char>>(
            YamlPhaseEntry::Rich(rich->Ok_0),
        ),
        value is Mapping && sub is Err && rich is Ok && (rich->Ok_0).names().len() != 1
            ==> phase_entry_of(value, text, sub, rich) is Err,
        value is Mapping && sub is Err && rich is Err ==> phase_entry_of(
            value,
            text,
            sub,
            rich,
        ) is Err,
        !(value is Text) && !(value is Mapping) ==> phase_entry_of(value, text, sub, rich) is Err,
{
}

/// A map that cannot be read is taken for a misspelt reference exactly if it has
/// one key with a string under it, and the key starts like `workflow_ref`, or is
/// `workflowref`, in whatever ASCII case, but is not `workflow_ref` itself.
pub proof fn misspelt_references_are_recognized(
    entries: Seq<(YamlTree, YamlTree)>,
    key: Seq<char>,
    text: Seq<char>,
)
    ensures
        entries.len() != 1 ==> !is_reference_typo(YamlTree::Mapping(entries)),
        entries.len() == 1 && (!(entries[0].0 is Text) || !(entries[0].1 is Text))
            ==> !is_reference_typo(YamlTree::Mapping(entries)),
        is_reference_typo(YamlTree::Mapping(seq![(YamlTree::Text(key), YamlTree::Text(text))])) <==> (
        (key.len() >= 11 && crate::text::same_ignoring_case(key.take(11), "workflow_re"@))
            || crate::text::same_ignoring_case(key, "workflowref"@))
            && !crate::text::same_ignoring_case(key, "workflow_ref"@),
{
    reveal_strlit("workflow_re");
    reveal_strlit("workflow_ref");
    reveal_strlit("workflowref");
    assert(lower("workflow_re"@) =~= "workflow_re"@);
    assert(lower("workflow_ref"@) =~= "workflow_ref"@);
    assert(lower("workflowref"@) =~= "workflowref"@);
    if key.len() >= 11 {
        assert(lower(key).take(11) =~= lower(key.take(11)));
    }
    let one = seq![(YamlTree::Text(key), YamlTree::Text(text))];
    assert(one[0] == (YamlTree::Text(key), YamlTree::Text(text)));
}

/// A worktree block is a boolean, a word that names a mode, or a map that can be
/// read; each is kept as it is, and everything else is refused.
pub proof fn worktree_blocks_are_kept_or_refused(
    value: YamlTree,
    text: String,
    parsed: Result<WorktreeConfig, String>,
)
    ensures
        value matches YamlTree::Bool(flag) ==> worktree_block_of(value, text, parsed) == Ok::<
            YamlPhaseWorktree,
            Seq<char>,
        >(YamlPhaseWorktree::Bool(flag)),
        value matches YamlTree::Text(scalar) ==> (crate::text::same_ignoring_case(
            trim(scalar),
            "auto"@,
        ) || crate::text::same_ignoring_case(trim(scalar), "required"@)
            || crate::text::same_ignoring_case(trim(scalar), "skip"@) <==> worktree_block_of(
            value,
            text,
            parsed,
        ) == Ok::<YamlPhaseWorktree, Seq<char>>(YamlPhaseWorktree::Mode(text))) && (
        worktree_block_of(value, text, parsed) is Ok ==> worktree_block_of(value, text, parsed)
            == Ok::<YamlPhaseWorktree, Seq<char>>(YamlPhaseWorktree::Mode(text))),
        value is Mapping && parsed is Ok ==> worktree_block_of(value, text, parsed) == Ok::<
            YamlPhaseWorktree,
            Seq<char>,
        >(YamlPhaseWorktree::Full(parsed->Ok_0)),
        value is Mapping && parsed is Err ==> worktree_block_of(value, text, parsed) is Err,
        !(value is Bool) && !(value is Text) && !(value is Mapping) ==> worktree_block_of(
            value,
            text,
            parsed,
        ) is Err,
{
    reveal_strlit("auto");
    reveal_strlit("required");
    reveal_strlit("skip");
    assert(lower("auto"@) =~= "auto"@);
    assert(lower("required"@) =~= "required"@);
    assert(lower("skip"@) =~= "skip"@);
}

/// What is suggested for a word that is no mode is a mode: the usual words for yes
/// suggest `auto`, those for no `skip`, those for a demand `required`, and a word
/// close to a mode suggests that mode.
pub proof fn suggested_modes_are_modes(name: Seq<char>)
    ensures
        worktree_suggestion(name) matches Some(mode) ==> mode == "auto"@ || mode == "required"@
            || mode == "skip"@,
        name == "yes"@ || name == "on"@ || name == "enabled"@ || name == "enable"@ || name
            == "true"@ ==> worktree_suggestion(name) == Some("auto"@),
        name == "no"@ || name == "off"@ || name == "disabled"@ || name == "disable"@ || name
            == "false"@ || name == "none"@ ==> worktree_suggestion(name) == Some("skip"@),
        name == "needed"@ || name == "must"@ || name == "force"@ || name == "mandatory"@
            ==> worktree_suggestion(name) == Some("required"@),
{
    let modes = worktree_modes();
    if exists|k: int| crate::config::yaml_diagnostic::is_closest(name, modes, 2, k) {
        let k = choose|k: int| crate::config::yaml_diagnostic::is_closest(name, modes, 2, k);
        assert(modes[k] == "auto"@ || modes[k] == "required"@ || modes[k] == "skip"@);
    }
    reveal_strlit("yes");
    reveal_strlit("on");
    reveal_strlit("enabled");
    reveal_strlit("enable");
    reveal_strlit("true");
    reveal_strlit("no");
    reveal_strlit("off");
    reveal_strlit("disabled");
    reveal_strlit("disable");
    reveal_strlit("false");
    reveal_strlit("none");
    reveal_strlit("needed");
    reveal_strlit("must");
    reveal_strlit("force");
    reveal_strlit("mandatory");
    assert("yes"@[0] == 'y' && "on"@[0] == 'o' && "on"@.len() == 2 && "enabled"@[0] == 'e'
        && "enable"@[0] == 'e' && "true"@[0] == 't');
    assert("no"@[0] == 'n' && "no"@.len() == 2 && "off"@[0] == 'o' && "off"@.len() == 3
        && "disabled"@[0] == 'd' && "disable"@[0] == 'd' && "false"@[0] == 'f' && "false"@[1] == 'a'
        && "none"@[0] == 'n' && "none"@.len() == 4);
    assert("needed"@[0] == 'n' && "needed"@.len() == 6 && "must"@[0] == 'm' && "must"@.len() == 4
        && "force"@[0] == 'f' && "force"@[1] == 'o' && "mandatory"@[0] == 'm');
}

/// A title has the words of an id, in order: the part up to the first `-` or `_`
/// is a word, with its first letter in upper case, and the words of the rest
/// follow. A blank part is no word.
pub proof fn titles_have_the_words_of_the_id(word: Seq<char>, separator: char, rest: Seq<char>)
    requires
        separator == '-' || separator == '_',
        forall|i: int| 0 <= i < word.len() ==> #[trigger] word[i] != '-' && word[i] != '_',
    ensures
        trim(word).len() > 0 ==> title_words(word) == seq![
            seq![upper_char(word[0])] + word.drop_first(),
        ],
        trim(word).len() > 0 ==> title_words(word.push(separator) + rest) == seq![
            seq![upper_char(word[0])] + word.drop_first(),
        ] + title_words(rest),
        trim(word).len() == 0 ==> title_words(word) == Seq::<Seq<char>>::empty(),
        trim(word).len() == 0 ==> title_words(word.push(separator) + rest) == title_words(rest),
{
    crate::text::lemma_trim_len(word);
    let n = word.len() as int;
    lemma_first_separator(word, n);
    assert(word.take(n) =~= word);
    let whole = word.push(separator) + rest;
    assert forall|i: int| 0 <= i < n implies whole[i] != '-' && whole[i] != '_' by {
        assert(whole[i] == word[i]);
    }
    assert(whole[n] == separator);
    lemma_first_separator(whole, n);
    assert(whole.take(n) =~= word);
    assert(whole.skip(n + 1) =~= rest);
    assert(Seq::<Seq<char>>::empty() + title_words(rest) =~= title_words(rest));
}

} // verus!
