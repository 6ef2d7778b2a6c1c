//! From a parsed workflow file to a configuration.

use vstd::prelude::*;

use crate::config::agent_types::{AgentProfileOverlay, PhaseExecutionDefinition, PhaseExecutionMode};
use crate::config::conversion::{
    phase_problem, same_phase, same_workflow, workflow_problem, yaml_phase_to_execution_definition,
    yaml_workflow_to_workflow_definition,
};
use crate::config::models::{
    chain_applied, may_derive, profile_chain, resolve_agent_model_references,
};
use crate::config::parse::{is_merge, merge_yaml_into_config};
use crate::config::redaction::{all_redacted, redact_resolved_secret_values, redaction_order};
use crate::config::workflow_types::{
    default_retention, PhaseUiDefinition, WorkflowCheckpointRetentionConfig, WorkflowConfig,
    WorkflowDefinition, WORKFLOW_CONFIG_SCHEMA_ID, WORKFLOW_CONFIG_VERSION,
};
use crate::config::yaml_types::{
    title_case_phase_id, title_words, ModelRegistryEntry, YamlPhaseDefinition,
    YamlWorkflowDefinition, YamlWorkflowFile,
};
use crate::lists::reversed;
use crate::text::{joined, same_text, texts, trim, trimmed_text};
use crate::text_map::{ascending, lemma_ascending_unique, TextMap};

verus! {

// ---------------------------------------------------------------------
// Workflows
// ---------------------------------------------------------------------

/// The first thing wrong with the workflows from index `k` on.
pub open spec fn workflows_problem(list: Seq<YamlWorkflowDefinition>, k: int) -> Option<Seq<char>>
    decreases list.len() - k,
{
    if k < 0 || k >= list.len() {
        None
    } else if workflow_problem(list[k]) is Some {
        workflow_problem(list[k])
    } else {
        workflows_problem(list, k + 1)
    }
}

/// Whether workflows say what YAML workflows say, one by one.
pub open spec fn same_workflows(
    yaml: Seq<YamlWorkflowDefinition>,
    list: Seq<WorkflowDefinition>,
) -> bool {
    &&& yaml.len() == list.len()
    &&& forall|i: int|
        0 <= i < yaml.len() ==> same_workflow(#[trigger] yaml[i], #[trigger] list[i])
}

fn convert_workflows(yaml: Vec<YamlWorkflowDefinition>) -> (r: Result<
    Vec<WorkflowDefinition>,
    String,
>)
    ensures
        match r {
            Ok(list) => workflows_problem(yaml@, 0) is None && same_workflows(yaml@, list@),
            Err(e) => workflows_problem(yaml@, 0) == Some(e@),
        },
{
    let ghost whole = yaml@;
    let mut queue = reversed(yaml);
    let mut list: Vec<WorkflowDefinition> = Vec::new();
    while queue.len() > 0
        invariant
            whole == yaml@,
            queue@.len() + list@.len() == whole.len(),
            queue@ =~= whole.reverse().take(queue@.len() as int),
            workflows_problem(whole, 0) == workflows_problem(whole, list@.len() as int),
            forall|i: int|
                0 <= i < list@.len() ==> same_workflow(#[trigger] whole[i], #[trigger] list@[i]),
        decreases queue@.len(),
    {
        let ghost n = list@.len() as int;
        let item = queue.pop().unwrap();
        proof {
            assert(item == whole[n]);
        }
        match yaml_workflow_to_workflow_definition(item) {
            Ok(definition) => {
                list.push(definition);
            },
            Err(e) => {
                return Err(e);
            },
        }
    }
    Ok(list)
}

// ---------------------------------------------------------------------
// Phases and their catalog
// ---------------------------------------------------------------------

/// What is said about a phase that cannot be converted.
pub open spec fn phase_context(phase_id: Seq<char>, problem: Seq<char>) -> Seq<char> {
    "error converting YAML phase '"@ + phase_id + "': "@ + problem
}

/// The first thing wrong with the phases, in the order of their ids from index
/// `k` on.
pub open spec fn phases_problem(
    ids: Seq<Seq<char>>,
    phases: Map<Seq<char>, YamlPhaseDefinition>,
    k: int,
) -> Option<Seq<char>>
    decreases ids.len() - k,
{
    if k < 0 || k >= ids.len() {
        None
    } else {
        match phase_problem(ids[k], phases[ids[k]]) {
            Some(problem) => Some(phase_context(ids[k], problem)),
            None => phases_problem(ids, phases, k + 1),
        }
    }
}

/// The category under which a phase is shown by default.
pub open spec fn default_category(mode: PhaseExecutionMode) -> Seq<char> {
    match mode {
        PhaseExecutionMode::Command => "build"@,
        PhaseExecutionMode::Manual => "manual"@,
        PhaseExecutionMode::Agent => "agent"@,
    }
}

/// Whether this is how a phase is shown by default.
pub open spec fn is_default_ui(
    ui: PhaseUiDefinition,
    phase_id: Seq<char>,
    mode: PhaseExecutionMode,
) -> bool {
    &&& ui.label@ == joined(title_words(phase_id), " "@)
    &&& ui.description@.len() == 0
    &&& ui.category@ == default_category(mode)
    &&& ui.icon is None
    &&& ui.docs_url is None
    &&& ui.tags@.len() == 0
    &&& ui.visible
}

fn default_ui(phase_id: &str, mode: PhaseExecutionMode) -> (r: PhaseUiDefinition)
    ensures
        is_default_ui(r, phase_id@, mode),
{
    PhaseUiDefinition {
        label: title_case_phase_id(phase_id),
        description: String::new(),
        category: match mode {
            PhaseExecutionMode::Command => "build".to_owned(),
            PhaseExecutionMode::Manual => "manual".to_owned(),
            PhaseExecutionMode::Agent => "agent".to_owned(),
        },
        icon: None,
        docs_url: None,
        tags: Vec::new(),
        visible: true,
    }
}

/// Whether definitions say what YAML phases say, one for each.
pub open spec fn same_phases(
    yaml: Map<Seq<char>, YamlPhaseDefinition>,
    r: Map<Seq<char>, PhaseExecutionDefinition>,
) -> bool {
    &&& r.dom() == yaml.dom()
    &&& forall|k: Seq<char>| #[trigger] yaml.contains_key(k) ==> same_phase(yaml[k], r[k])
}

/// Whether a catalog holds the given entries, and for every other phase the
/// default one.
pub open spec fn is_completed_catalog(
    given: Map<Seq<char>, PhaseUiDefinition>,
    yaml: Map<Seq<char>, YamlPhaseDefinition>,
    r: Map<Seq<char>, PhaseUiDefinition>,
) -> bool {
    &&& r.dom() == given.dom().union(yaml.dom())
    &&& forall|k: Seq<char>| #[trigger] given.contains_key(k) ==> r[k] == given[k]
    &&& forall|k: Seq<char>| #[trigger]
        yaml.contains_key(k) && !given.contains_key(k) ==> is_default_ui(r[k], k, yaml[k].mode)
}

fn phase_context_text(phase_id: &str, problem: &str) -> (r: String)
    ensures
        r@ == phase_context(phase_id@, problem@),
{
    let mut out = String::new();
    out.append("error converting YAML phase '");
    out.append(phase_id);
    out.append("': ");
    out.append(problem);
    proof {
        assert(out@ =~= phase_context(phase_id@, problem@));
    }
    out
}

fn convert_phases(yaml: TextMap<YamlPhaseDefinition>, catalog: TextMap<PhaseUiDefinition>) -> (r:
    Result<(TextMap<PhaseExecutionDefinition>, TextMap<PhaseUiDefinition>), String>)
    ensures
        match r {
            Ok(pair) => phases_problem(yaml.names(), yaml@, 0) is None && same_phases(
                yaml@,
                pair.0@,
            ) && is_completed_catalog(catalog@, yaml@, pair.1@),
            Err(e) => phases_problem(yaml.names(), yaml@, 0) == Some(e@),
        },
{
    let ghost ids = yaml.names();
    let ghost phases = yaml@;
    let ghost given = catalog@;
    let n = yaml.len();
    let (keys, values) = yaml.into_parts();
    let ghost vals = values@;
    let ghost ks = keys@;
    let mut key_queue = reversed(keys);
    let mut value_queue = reversed(values);
    let mut definitions: TextMap<PhaseExecutionDefinition> = TextMap::new();
    let mut shown = catalog;
    let mut k: usize = 0;
    while k < n
        invariant
            k <= n,
            n == ids.len(),
            ids == yaml.names(),
            phases == yaml@,
            given == catalog@,
            ascending(ids),
            texts(ks) == ids,
            ks.len() == n,
            vals.len() == n,
            forall|i: int| 0 <= i < vals.len() ==> #[trigger] vals[i] == phases[ids[i]],
            forall|id: Seq<char>| #[trigger] phases.contains_key(id) <==> ids.contains(id),
            key_queue@.len() == n - k,
            value_queue@.len() == n - k,
            key_queue@ =~= ks.reverse().take(n - k),
            value_queue@ =~= vals.reverse().take(n - k),
            phases_problem(ids, phases, 0) == phases_problem(ids, phases, k as int),
            forall|id: Seq<char>| #[trigger]
                definitions@.contains_key(id) <==> ids.take(k as int).contains(id),
            forall|id: Seq<char>| #[trigger]
                definitions@.contains_key(id) ==> same_phase(phases[id], definitions@[id]),
            forall|id: Seq<char>| #[trigger]
                shown@.contains_key(id) <==> given.contains_key(id) || ids.take(
                    k as int,
                ).contains(id),
            forall|id: Seq<char>| #[trigger] given.contains_key(id) ==> shown@[id] == given[id],
            forall|id: Seq<char>|
                ids.take(k as int).contains(id) && !given.contains_key(id) ==> is_default_ui(
                    #[trigger] shown@[id],
                    id,
                    phases[id].mode,
                ),
        decreases n - k,
    {
        let phase_id = key_queue.pop().unwrap();
        let phase = value_queue.pop().unwrap();
        let ghost id = phase_id@;
        proof {
            assert(phase_id == ks[k as int]);
            assert(texts(ks)[k as int] == ks[k as int]@);
            assert(phase == vals[k as int]);
            assert(ids[k as int] == id);
            lemma_take_one_more(ids, k as int);
            assert(!ids.take(k as int).contains(id)) by {
                if ids.take(k as int).contains(id) {
                    let j = ids.take(k as int).index_of(id);
                    lemma_ascending_unique(ids, j, k as int);
                }
            }
        }
        let definition = match yaml_phase_to_execution_definition(phase_id.as_str(), phase) {
            Ok(definition) => definition,
            Err(e) => {
                return Err(phase_context_text(phase_id.as_str(), e.as_str()));
            },
        };
        if !shown.contains_key(phase_id.as_str()) {
            let ui = default_ui(phase_id.as_str(), definition.mode);
            shown.insert(phase_id.clone(), ui);
        }
        definitions.insert(phase_id, definition);
        k += 1;
    }
    proof {
        assert(ids.take(n as int) =~= ids);
        assert(definitions@.dom() =~= phases.dom());
        assert(shown@.dom() =~= given.dom().union(phases.dom()));
    }
    Ok((definitions, shown))
}

/// What one more text adds to the first texts of a list.
proof fn lemma_take_one_more(s: Seq<Seq<char>>, k: int)
    requires
        0 <= k < s.len(),
    ensures
        forall|t: Seq<char>| #[trigger]
            s.take(k + 1).contains(t) <==> s.take(k).contains(t) || t == s[k],
{
    assert forall|t: Seq<char>| #[trigger] s.take(k + 1).contains(t) <==> s.take(k).contains(t) || t
        == s[k] by {
        if s.take(k + 1).contains(t) {
            let j = s.take(k + 1).index_of(t);
            if j < k {
                assert(s.take(k)[j] == t);
            }
        }
        if s.take(k).contains(t) {
            let j = s.take(k).index_of(t);
            assert(s.take(k + 1)[j] == t);
        }
        if t == s[k] {
            assert(s.take(k + 1)[k] == t);
        }
    }
}

// ---------------------------------------------------------------------
// Whole files
// ---------------------------------------------------------------------

/// The first thing wrong with a file: a workflow, then a phase.
pub open spec fn file_problem(file: YamlWorkflowFile) -> Option<Seq<char>> {
    if workflows_problem(file.workflows@, 0) is Some {
        workflows_problem(file.workflows@, 0)
    } else {
        phases_problem(file.phases.names(), file.phases@, 0)
    }
}

/// Whether a configuration says what a file says.
pub open spec fn is_overlay_of(file: YamlWorkflowFile, r: WorkflowConfig) -> bool {
    &&& r.schema@ == WORKFLOW_CONFIG_SCHEMA_ID@
    &&& r.version == WORKFLOW_CONFIG_VERSION
    &&& r.default_workflow_ref@ == match file.default_workflow_ref {
        Some(name) => name@,
        None => Seq::empty(),
    }
    &&& is_completed_catalog(
        match file.phase_catalog {
            Some(catalog) => catalog@,
            None => Map::empty(),
        },
        file.phases@,
        r.phase_catalog@,
    )
    &&& same_workflows(file.workflows@, r.workflows@)
    &&& r.checkpoint_retention == default_retention()
    &&& same_phases(file.phases@, r.phase_definitions@)
    &&& r.agent_profiles == file.agents
    &&& r.agent_channels == file.agent_channels
    &&& r.tools_allowlist == file.tools_allowlist
    &&& r.mcp_servers == file.mcp_servers
    &&& r.phase_mcp_bindings == file.phase_mcp_bindings
    &&& r.tools == file.tools
    &&& r.integrations == file.integrations
    &&& r.schedules == file.schedules
    &&& r.triggers == file.triggers
    &&& r.daemon == file.daemon
    &&& r.secrets == file.secrets
    &&& r.workspaces == file.workspaces
    &&& r.environment_routing == file.environment_routing
}

/// The configuration that a parsed file stands for, and the model registry its
/// agents refer to. Prompt files and model references of its agents are left as
/// they are.
pub fn overlay_of_file(file: YamlWorkflowFile) -> (r: Result<
    (WorkflowConfig, TextMap<ModelRegistryEntry>),
    String,
>)
    ensures
        match r {
            Ok(pair) => file_problem(file) is None && is_overlay_of(file, pair.0) && pair.1
                == file.models,
            Err(e) => file_problem(file) == Some(e@),
        },
{
    let workflows = match convert_workflows(file.workflows) {
        Ok(workflows) => workflows,
        Err(e) => {
            return Err(e);
        },
    };
    let catalog = match file.phase_catalog {
        Some(catalog) => catalog,
        None => TextMap::new(),
    };
    let (phase_definitions, phase_catalog) = match convert_phases(file.phases, catalog) {
        Ok(pair) => pair,
        Err(e) => {
            return Err(e);
        },
    };
    let default_workflow_ref = match file.default_workflow_ref {
        Some(name) => name,
        None => String::new(),
    };
    let overlay = WorkflowConfig {
        schema: WORKFLOW_CONFIG_SCHEMA_ID.to_owned(),
        version: WORKFLOW_CONFIG_VERSION,
        default_workflow_ref,
        phase_catalog,
        workflows,
        checkpoint_retention: WorkflowCheckpointRetentionConfig::default(),
        phase_definitions,
        agent_profiles: file.agents,
        agent_channels: file.agent_channels,
        tools_allowlist: file.tools_allowlist,
        mcp_servers: file.mcp_servers,
        phase_mcp_bindings: file.phase_mcp_bindings,
        tools: file.tools,
        integrations: file.integrations,
        schedules: file.schedules,
        triggers: file.triggers,
        daemon: file.daemon,
        secrets: file.secrets,
        workspaces: file.workspaces,
        environment_routing: file.environment_routing,
    };
    Ok((overlay, file.models))
}

/// Whether `after` is `before` with its model references resolved.
pub open spec fn models_resolved<F: Fn(&str) -> String>(
    before: AgentProfileOverlay,
    after: AgentProfileOverlay,
    registry: Map<Seq<char>, ModelRegistryEntry>,
    tool_for_model_id: F,
) -> bool {
    let chain = profile_chain(before, registry);
    if chain.len() == 0 {
        after == before
    } else {
        exists|derived: Seq<char>| #[trigger]
            chain_applied(before, after, chain, derived) && (chain[0].1 is None ==> may_derive(
                tool_for_model_id,
                chain[0].0,
                derived,
            ))
    }
}

/// Resolves the model references of every agent. With an empty registry nothing
/// is resolved.
pub fn resolve_models<F: Fn(&str) -> String>(
    agents: TextMap<AgentProfileOverlay>,
    registry: &TextMap<ModelRegistryEntry>,
    tool_for_model_id: &F,
) -> (r: TextMap<AgentProfileOverlay>)
    requires
        forall|id: &str| #[trigger] tool_for_model_id.requires((id,)),
    ensures
        r@.dom() == agents@.dom(),
        registry@ == Map::<Seq<char>, ModelRegistryEntry>::empty() ==> r@ == agents@,
        registry@ != Map::<Seq<char>, ModelRegistryEntry>::empty() ==> forall|k: Seq<char>|
            #[trigger]
            agents@.contains_key(k) ==> models_resolved(
                agents@[k],
                r@[k],
                registry@,
                *tool_for_model_id,
            ),
{
    if registry.is_empty() {
        return agents;
    }
    let ghost ids = agents.names();
    let ghost held = agents@;
    let n = agents.len();
    let (mut keys, mut values) = agents.into_parts();
    let ghost ks = keys@;
    let ghost vals = values@;
    let mut resolved: TextMap<AgentProfileOverlay> = TextMap::new();
    let mut k: usize = n;
    while k > 0
        invariant
            k <= n,
            n == ids.len(),
            ascending(ids),
            texts(ks) == ids,
            ks.len() == n,
            vals.len() == n,
            forall|i: int| 0 <= i < vals.len() ==> #[trigger] vals[i] == held[ids[i]],
            keys@ =~= ks.take(k as int),
            values@ =~= vals.take(k as int),
            forall|id: &str| #[trigger] tool_for_model_id.requires((id,)),
            forall|id: Seq<char>| #[trigger]
                resolved@.contains_key(id) <==> ids.skip(k as int).contains(id),
            forall|id: Seq<char>| #[trigger]
                resolved@.contains_key(id) ==> models_resolved(
                    held[id],
                    resolved@[id],
                    registry@,
                    *tool_for_model_id,
                ),
        decreases k,
    {
        let key = keys.pop().unwrap();
        let mut profile = values.pop().unwrap();
        let ghost id = key@;
        proof {
            assert(key == ks[k - 1]);
            assert(texts(ks)[k - 1] == ks[k - 1]@);
            assert(profile == vals[k - 1]);
            assert(ids.skip(k - 1) =~= seq![ids[k - 1]] + ids.skip(k as int));
            assert forall|t: Seq<char>| #[trigger] ids.skip(k - 1).contains(t) <==> ids.skip(
                k as int,
            ).contains(t) || t == ids[k - 1] by {
                if ids.skip(k as int).contains(t) {
                    let j = ids.skip(k as int).index_of(t);
                    assert(ids.skip(k - 1)[j + 1] == t);
                }
                if t == ids[k - 1] {
                    assert(ids.skip(k - 1)[0] == t);
                }
                if ids.skip(k - 1).contains(t) {
                    let j = ids.skip(k - 1).index_of(t);
                    if j > 0 {
                        assert(ids.skip(k as int)[j - 1] == t);
                    }
                }
            }
        }
        resolve_agent_model_references(&mut profile, registry, tool_for_model_id);
        proof {
            assert(models_resolved(held[id], profile, registry@, *tool_for_model_id));
        }
        resolved.insert(key, profile);
        k -= 1;
    }
    proof {
        assert(ids.skip(0) =~= ids);
        assert forall|id: Seq<char>| #[trigger] held.contains_key(id) implies ids.contains(id) by {}
        assert(resolved@.dom() =~= held.dom());
    }
    resolved
}

/// Resolves the model references of an overlay and merges it onto a base.
pub fn finish_overlay<F: Fn(&str) -> String>(
    base: WorkflowConfig,
    overlay: WorkflowConfig,
    registry: &TextMap<ModelRegistryEntry>,
    tool_for_model_id: &F,
) -> (r: WorkflowConfig)
    requires
        forall|id: &str| #[trigger] tool_for_model_id.requires((id,)),
    ensures
        exists|resolved: WorkflowConfig| #[trigger]
            is_merge(base, resolved, r) && resolved == (WorkflowConfig {
                agent_profiles: resolved.agent_profiles,
                ..overlay
            }) && resolved.agent_profiles@.dom() == overlay.agent_profiles@.dom() && (if registry@
                == Map::<Seq<char>, ModelRegistryEntry>::empty() {
                resolved.agent_profiles@ == overlay.agent_profiles@
            } else {
                forall|k: Seq<char>| #[trigger]
                    overlay.agent_profiles@.contains_key(k) ==> models_resolved(
                        overlay.agent_profiles@[k],
                        resolved.agent_profiles@[k],
                        registry@,
                        *tool_for_model_id,
                    )
            }),
        is_finished(base, overlay, registry@, *tool_for_model_id, r),
{
    let ghost before = overlay;
    let mut resolved = overlay;
    let mut agents: TextMap<AgentProfileOverlay> = TextMap::new();
    std::mem::swap(&mut agents, &mut resolved.agent_profiles);
    resolved.agent_profiles = resolve_models(agents, registry, tool_for_model_id);
    let ghost merged = resolved;
    let r = merge_yaml_into_config(base, resolved);
    proof {
        assert(is_merge(base, merged, r));
    }
    r
}

/// The configuration with the given default workflow in place of a blank one.
pub fn with_default_workflow_ref(config: WorkflowConfig, fallback: &str) -> (r: WorkflowConfig)
    ensures
        trim(config.default_workflow_ref@).len() > 0 ==> r == config,
        trim(config.default_workflow_ref@).len() == 0 ==> r.default_workflow_ref@ == fallback@ && r
            == (WorkflowConfig { default_workflow_ref: r.default_workflow_ref, ..config }),
        has_default_workflow(config, fallback@, r),
{
    let blank = trimmed_text(config.default_workflow_ref.as_str()).as_str().is_empty();
    if blank {
        let mut c = config;
        c.default_workflow_ref = fallback.to_owned();
        c
    } else {
        config
    }
}

/// An error text with the resolved secret values in it redacted; `None` where
/// there was nothing to redact.
pub fn redacted_error(rendered: &str, resolved_secrets: &TextMap<String>) -> (r: Option<String>)
    ensures
        ({
            let redacted = all_redacted(
                rendered@,
                redaction_order(resolved_secrets.names()),
                resolved_secrets@,
            );
            match r {
                Some(text) => redacted != rendered@ && text@ == redacted,
                None => redacted == rendered@,
            }
        }),
        is_redacted_error(
            crate::text::opt_text(r),
            rendered@,
            redaction_order(resolved_secrets.names()),
            resolved_secrets@,
        ),
{
    let text = redact_resolved_secret_values(rendered, resolved_secrets);
    if same_text(text.as_str(), rendered) {
        None
    } else {
        Some(text)
    }
}

// ---------------------------------------------------------------------
// Laws
// ---------------------------------------------------------------------

/// What a file says is carried over into its configuration, block by block; the
/// default workflow is the one it names, or none.
pub proof fn a_file_is_carried_over(file: YamlWorkflowFile, r: WorkflowConfig)
    requires
        is_overlay_of(file, r),
    ensures
        file.default_workflow_ref matches Some(name) ==> r.default_workflow_ref@ == name@,
        file.default_workflow_ref is None ==> r.default_workflow_ref@.len() == 0,
        r.agent_profiles == file.agents,
        r.agent_channels == file.agent_channels,
        r.tools_allowlist == file.tools_allowlist,
        r.mcp_servers == file.mcp_servers,
        r.phase_mcp_bindings == file.phase_mcp_bindings,
        r.tools == file.tools,
        r.integrations == file.integrations,
        r.schedules == file.schedules,
        r.triggers == file.triggers,
        r.daemon == file.daemon,
        r.secrets == file.secrets,
        r.workspaces == file.workspaces,
        r.environment_routing == file.environment_routing,
        r.workflows@.len() == file.workflows@.len(),
        forall|i: int|
            0 <= i < file.workflows@.len() ==> same_workflow(
                #[trigger] file.workflows@[i],
                r.workflows@[i],
            ),
{
}

/// Every phase of a file is defined, as it says, and no other. Each is in the
/// catalog: as the file lists it there, and else under its title, visible, in the
/// category of its mode. What else the file lists there stays.
pub proof fn phases_are_defined_and_listed(
    file: YamlWorkflowFile,
    r: WorkflowConfig,
    k: Seq<char>,
)
    requires
        is_overlay_of(file, r),
    ensures
        r.phase_definitions@.contains_key(k) <==> file.phases@.contains_key(k),
        file.phases@.contains_key(k) ==> same_phase(file.phases@[k], r.phase_definitions@[k]),
        file.phases@.contains_key(k) ==> r.phase_catalog@.contains_key(k),
        file.phase_catalog matches Some(catalog) ==> (catalog@.contains_key(k)
            ==> r.phase_catalog@.contains_key(k) && r.phase_catalog@[k] == catalog@[k]),
        r.phase_catalog@.contains_key(k) ==> file.phases@.contains_key(k) || (
        file.phase_catalog matches Some(catalog) && catalog@.contains_key(k)),
        file.phases@.contains_key(k) && (file.phase_catalog is None || !(
        file.phase_catalog->0)@.contains_key(k)) ==> ({
            let ui = r.phase_catalog@[k];
            &&& ui.label@ == joined(title_words(k), " "@)
            &&& ui.description@.len() == 0
            &&& ui.icon is None
            &&& ui.docs_url is None
            &&& ui.tags@.len() == 0
            &&& ui.visible
            &&& ui.category@ == "build"@ <==> file.phases@[k].mode == PhaseExecutionMode::Command
            &&& ui.category@ == "manual"@ <==> file.phases@[k].mode == PhaseExecutionMode::Manual
            &&& ui.category@ == "agent"@ <==> file.phases@[k].mode == PhaseExecutionMode::Agent
        }),
{
    reveal_strlit("build");
    reveal_strlit("manual");
    reveal_strlit("agent");
    assert("build"@[0] == 'b' && "manual"@[0] == 'm' && "agent"@[0] == 'a');
    let given = match file.phase_catalog {
        Some(catalog) => catalog@,
        None => Map::empty(),
    };
    assert(r.phase_catalog@.dom().contains(k) <==> given.dom().contains(k)
        || file.phases@.dom().contains(k));
    assert(r.phase_definitions@.dom().contains(k) <==> file.phases@.dom().contains(k));
}

/// A file is accepted exactly if all its workflows and all its phases are.
pub proof fn files_are_accepted_part_by_part(file: YamlWorkflowFile)
    requires
        forall|k: Seq<char>| #[trigger]
            file.phases@.contains_key(k) <==> file.phases.names().contains(k),
    ensures
        file_problem(file) is None <==> (forall|i: int|
            0 <= i < file.workflows@.len() ==> workflow_problem(
                #[trigger] file.workflows@[i],
            ) is None) && (forall|k: Seq<char>| #[trigger]
            file.phases@.contains_key(k) ==> phase_problem(k, file.phases@[k]) is None),
{
    lemma_workflows_problem(file.workflows@, 0);
    lemma_phases_problem(file.phases.names(), file.phases@, 0);
    let ids = file.phases.names();
    if forall|i: int| 0 <= i < ids.len() ==> phase_problem(#[trigger] ids[i], file.phases@[ids[i]]) is None {
        assert forall|k: Seq<char>| #[trigger] file.phases@.contains_key(k) implies phase_problem(
            k,
            file.phases@[k],
        ) is None by {
            let i = ids.index_of(k);
            assert(ids[i] == k);
        }
    }
    if forall|k: Seq<char>| #[trigger]
        file.phases@.contains_key(k) ==> phase_problem(k, file.phases@[k]) is None {
        assert forall|i: int| 0 <= i < ids.len() implies phase_problem(
            #[trigger] ids[i],
            file.phases@[ids[i]],
        ) is None by {
            assert(ids.contains(ids[i]));
            assert(file.phases@.contains_key(ids[i]));
        }
    }
}

proof fn lemma_workflows_problem(list: Seq<YamlWorkflowDefinition>, k: int)
    requires
        0 <= k,
    ensures
        workflows_problem(list, k) is None <==> forall|i: int|
            k <= i < list.len() ==> workflow_problem(#[trigger] list[i]) is None,
    decreases list.len() - k,
{
    if k < list.len() {
        lemma_workflows_problem(list, k + 1);
    }
}

proof fn lemma_phases_problem(
    ids: Seq<Seq<char>>,
    phases: Map<Seq<char>, YamlPhaseDefinition>,
    k: int,
)
    requires
        0 <= k,
    ensures
        phases_problem(ids, phases, k) is None <==> forall|i: int|
            k <= i < ids.len() ==> phase_problem(#[trigger] ids[i], phases[ids[i]]) is None,
    decreases ids.len() - k,
{
    if k < ids.len() {
        lemma_phases_problem(ids, phases, k + 1);
    }
}

/// Whether `r` is an overlay, its model references resolved, merged onto a base.
pub open spec fn is_finished<F: Fn(&str) -> String>(
    base: WorkflowConfig,
    overlay: WorkflowConfig,
    registry: Map<Seq<char>, ModelRegistryEntry>,
    tool_for_model_id: F,
    r: WorkflowConfig,
) -> bool {
    exists|resolved: WorkflowConfig| #[trigger]
        is_merge(base, resolved, r) && resolved == (WorkflowConfig {
            agent_profiles: resolved.agent_profiles,
            ..overlay
        }) && resolved.agent_profiles@.dom() == overlay.agent_profiles@.dom() && (if registry
            == Map::<Seq<char>, ModelRegistryEntry>::empty() {
            resolved.agent_profiles@ == overlay.agent_profiles@
        } else {
            forall|k: Seq<char>| #[trigger]
                overlay.agent_profiles@.contains_key(k) ==> models_resolved(
                    overlay.agent_profiles@[k],
                    resolved.agent_profiles@[k],
                    registry,
                    tool_for_model_id,
                )
        })
}

/// Whether `r` is a configuration with a default workflow in place of a blank one.
pub open spec fn has_default_workflow(
    config: WorkflowConfig,
    fallback: Seq<char>,
    r: WorkflowConfig,
) -> bool {
    &&& trim(config.default_workflow_ref@).len() > 0 ==> r == config
    &&& trim(config.default_workflow_ref@).len() == 0 ==> r.default_workflow_ref@ == fallback && r
        == (WorkflowConfig { default_workflow_ref: r.default_workflow_ref, ..config })
}

/// A finished configuration has what its overlay says over what its base says:
/// every phase of the overlay, and every one that only the base has. An agent of
/// the overlay that names models from the registry, and that the base does not
/// have, has the first of them, and no list of names any more.
pub proof fn finished_configurations_say_what_the_file_says<F: Fn(&str) -> String>(
    base: WorkflowConfig,
    overlay: WorkflowConfig,
    registry: Map<Seq<char>, ModelRegistryEntry>,
    tool_for_model_id: F,
    r: WorkflowConfig,
    k: Seq<char>,
)
    requires
        is_finished(base, overlay, registry, tool_for_model_id, r),
    ensures
        overlay.phase_definitions@.contains_key(k) ==> r.phase_definitions@.contains_key(k)
            && r.phase_definitions@[k] == overlay.phase_definitions@[k],
        !overlay.phase_definitions@.contains_key(k) && base.phase_definitions@.contains_key(k)
            ==> r.phase_definitions@.contains_key(k) && r.phase_definitions@[k]
            == base.phase_definitions@[k],
        overlay.secrets@.contains_key(k) ==> r.secrets@.contains_key(k) && r.secrets@[k]
            == overlay.secrets@[k],
        overlay.default_workflow_ref@.len() > 0 ==> r.default_workflow_ref@
            == overlay.default_workflow_ref@,
        overlay.agent_profiles@.contains_key(k) ==> r.agent_profiles@.contains_key(k),
        overlay.agent_profiles@.contains_key(k) && !base.agent_profiles@.contains_key(k)
            && registry.len() > 0 && registry.dom().finite() && profile_chain(
            overlay.agent_profiles@[k],
            registry,
        ).len() > 0 ==> r.agent_profiles@[k].models is None && (
        r.agent_profiles@[k].model matches Some(m) && m@ == profile_chain(
            overlay.agent_profiles@[k],
            registry,
        )[0].0),
        overlay.agent_profiles@.contains_key(k) && !base.agent_profiles@.contains_key(k)
            && profile_chain(overlay.agent_profiles@[k], registry).len() == 0
            ==> r.agent_profiles@[k] == overlay.agent_profiles@[k],
{
    let resolved = choose|resolved: WorkflowConfig| #[trigger]
        is_merge(base, resolved, r) && resolved == (WorkflowConfig {
            agent_profiles: resolved.agent_profiles,
            ..overlay
        }) && resolved.agent_profiles@.dom() == overlay.agent_profiles@.dom() && (if registry
            == Map::<Seq<char>, ModelRegistryEntry>::empty() {
            resolved.agent_profiles@ == overlay.agent_profiles@
        } else {
            forall|k: Seq<char>| #[trigger]
                overlay.agent_profiles@.contains_key(k) ==> models_resolved(
                    overlay.agent_profiles@[k],
                    resolved.agent_profiles@[k],
                    registry,
                    tool_for_model_id,
                )
        });
    assert(resolved.agent_profiles@.dom().contains(k) <==> overlay.agent_profiles@.dom().contains(k));
    if overlay.agent_profiles@.contains_key(k) && !base.agent_profiles@.contains_key(k) {
        assert(r.agent_profiles@[k] == resolved.agent_profiles@[k]);
        if registry.len() > 0 {
            assert(registry != Map::<Seq<char>, ModelRegistryEntry>::empty()) by {
                assert(Map::<Seq<char>, ModelRegistryEntry>::empty().dom().len() == 0);
            }
        }
        if registry != Map::<Seq<char>, ModelRegistryEntry>::empty() {
            assert(models_resolved(
                overlay.agent_profiles@[k],
                resolved.agent_profiles@[k],
                registry,
                tool_for_model_id,
            ));
        }
    }
}

/// A configuration without a default workflow gets the one that is given; one that
/// has a default keeps it. Nothing else changes.
pub proof fn blank_defaults_are_filled(
    config: WorkflowConfig,
    fallback: Seq<char>,
    r: WorkflowConfig,
)
    requires
        has_default_workflow(config, fallback, r),
    ensures
        trim(config.default_workflow_ref@).len() > 0 ==> r.default_workflow_ref@
            == config.default_workflow_ref@,
        trim(config.default_workflow_ref@).len() == 0 ==> r.default_workflow_ref@ == fallback,
        r.workflows == config.workflows,
        r.phase_definitions == config.phase_definitions,
        r.agent_profiles == config.agent_profiles,
        r.secrets == config.secrets,
{
}

/// Whether `r` is an error text with the secret values in it redacted, where there
/// were any.
pub open spec fn is_redacted_error(
    r: Option<Seq<char>>,
    rendered: Seq<char>,
    order: Seq<Seq<char>>,
    names: Map<Seq<char>, String>,
) -> bool {
    match r {
        Some(text) => text == all_redacted(rendered, order, names) && text != rendered,
        None => all_redacted(rendered, order, names) == rendered,
    }
}

/// What an error shows, redacted or left as it is, is the redacted text: nothing is
/// shown that redaction would change.
pub proof fn errors_are_shown_redacted(
    r: Option<Seq<char>>,
    rendered: Seq<char>,
    order: Seq<Seq<char>>,
    names: Map<Seq<char>, String>,
)
    requires
        is_redacted_error(r, rendered, order, names),
    ensures
        (match r {
            Some(text) => text,
            None => rendered,
        }) == all_redacted(rendered, order, names),
        r is Some <==> all_redacted(rendered, order, names) != rendered,
{
}

} // verus!
