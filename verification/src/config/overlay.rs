//! Generated overlay files: what is written for a configuration, and how single
//! phases and pipelines are put in and taken out.

use vstd::prelude::*;

use crate::config::agent_types::PhaseExecutionDefinition;
use crate::config::conversion::{
    phase_execution_definition_to_yaml, same_phase, same_workflow, workflow_definition_to_yaml,
    workflow_problem,
};
use crate::config::parse::{upsert, upserted, Identified};
use crate::config::workflow_types::{PhaseUiDefinition, WorkflowConfig, WorkflowDefinition};
use crate::config::yaml_types::{
    ModelRegistryEntry, YamlPhaseDefinition, YamlWorkflowDefinition, YamlWorkflowFile,
};
use crate::lists::reversed;
use crate::text::{same_ignoring_case, same_text_ignoring_case, texts};
use crate::text_map::TextMap;

verus! {

// ---------------------------------------------------------------------
// A configuration as a file
// ---------------------------------------------------------------------

/// Whether YAML workflows say what workflows say, one by one.
pub open spec fn written_workflows(
    list: Seq<WorkflowDefinition>,
    yaml: Seq<YamlWorkflowDefinition>,
) -> bool {
    &&& yaml.len() == list.len()
    &&& forall|i: int|
        0 <= i < yaml.len() ==> same_workflow(#[trigger] yaml[i], #[trigger] list[i])
    &&& forall|i: int| 0 <= i < yaml.len() ==> workflow_problem(#[trigger] yaml[i]) is None
}

/// Whether YAML phases say what definitions say, one for each.
pub open spec fn written_phases(
    definitions: Map<Seq<char>, PhaseExecutionDefinition>,
    yaml: Map<Seq<char>, YamlPhaseDefinition>,
) -> bool {
    &&& yaml.dom() == definitions.dom()
    &&& forall|k: Seq<char>| #[trigger]
        definitions.contains_key(k) ==> same_phase(yaml[k], definitions[k])
}

/// Whether a file says what a configuration says.
pub open spec fn is_file_of(config: WorkflowConfig, file: YamlWorkflowFile) -> bool {
    &&& file.default_workflow_ref == Some(config.default_workflow_ref)
    &&& match file.phase_catalog {
        Some(catalog) => catalog == config.phase_catalog && catalog@ != Map::<
            Seq<char>,
            PhaseUiDefinition,
        >::empty(),
        None => config.phase_catalog@ == Map::<Seq<char>, PhaseUiDefinition>::empty(),
    }
    &&& written_workflows(config.workflows@, file.workflows@)
    &&& written_phases(config.phase_definitions@, file.phases@)
    &&& file.agents == config.agent_profiles
    &&& file.agent_channels == config.agent_channels
    &&& file.models@ == Map::<Seq<char>, ModelRegistryEntry>::empty()
    &&& file.tools_allowlist == config.tools_allowlist
    &&& file.mcp_servers == config.mcp_servers
    &&& file.phase_mcp_bindings == config.phase_mcp_bindings
    &&& file.tools == config.tools
    &&& file.integrations == config.integrations
    &&& file.schedules == config.schedules
    &&& file.triggers == config.triggers
    &&& file.daemon == config.daemon
    &&& file.secrets == config.secrets
    &&& file.workspaces == config.workspaces
    &&& file.environment_routing == config.environment_routing
}

fn workflows_to_yaml(list: Vec<WorkflowDefinition>) -> (r: Vec<YamlWorkflowDefinition>)
    ensures
        written_workflows(list@, r@),
{
    let ghost whole = list@;
    let mut queue = reversed(list);
    let mut yaml: Vec<YamlWorkflowDefinition> = Vec::new();
    while queue.len() > 0
        invariant
            queue@.len() + yaml@.len() == whole.len(),
            queue@ =~= whole.reverse().take(queue@.len() as int),
            forall|i: int|
                0 <= i < yaml@.len() ==> same_workflow(#[trigger] yaml@[i], #[trigger] whole[i]),
            forall|i: int| 0 <= i < yaml@.len() ==> workflow_problem(#[trigger] yaml@[i]) is None,
        decreases queue@.len(),
    {
        let ghost n = yaml@.len() as int;
        let definition = queue.pop().unwrap();
        proof {
            assert(definition == whole[n]);
        }
        yaml.push(workflow_definition_to_yaml(definition));
    }
    yaml
}

fn phases_to_yaml(definitions: TextMap<PhaseExecutionDefinition>) -> (r: TextMap<
    YamlPhaseDefinition,
>)
    ensures
        written_phases(definitions@, r@),
{
    let ghost ids = definitions.names();
    let ghost held = definitions@;
    let n = definitions.len();
    let (mut keys, mut values) = definitions.into_parts();
    let ghost ks = keys@;
    let ghost vals = values@;
    let mut yaml: TextMap<YamlPhaseDefinition> = TextMap::new();
    let mut k: usize = n;
    while k > 0
        invariant
            k <= n,
            n == ids.len(),
            texts(ks) == ids,
            ks.len() == n,
            vals.len() == n,
            forall|i: int| 0 <= i < vals.len() ==> #[trigger] vals[i] == held[ids[i]],
            keys@ =~= ks.take(k as int),
            values@ =~= vals.take(k as int),
            forall|id: Seq<char>| #[trigger]
                yaml@.contains_key(id) <==> ids.skip(k as int).contains(id),
            forall|id: Seq<char>| #[trigger]
                yaml@.contains_key(id) ==> same_phase(yaml@[id], held[id]),
        decreases k,
    {
        let key = keys.pop().unwrap();
        let definition = values.pop().unwrap();
        proof {
            assert(key == ks[k - 1]);
            assert(texts(ks)[k - 1] == ks[k - 1]@);
            assert(definition == vals[k - 1]);
            lemma_skip_one_less(ids, k as int);
        }
        yaml.insert(key, phase_execution_definition_to_yaml(definition));
        k -= 1;
    }
    proof {
        assert(ids.skip(0) =~= ids);
        assert(yaml@.dom() =~= held.dom());
    }
    yaml
}

/// What one more text in front adds to the last texts of a list.
proof fn lemma_skip_one_less(s: Seq<Seq<char>>, k: int)
    requires
        0 < k <= s.len(),
    ensures
        forall|t: Seq<char>| #[trigger]
            s.skip(k - 1).contains(t) <==> s.skip(k).contains(t) || t == s[k - 1],
{
    assert forall|t: Seq<char>| #[trigger] s.skip(k - 1).contains(t) <==> s.skip(k).contains(t) || t
        == s[k - 1] by {
        if s.skip(k).contains(t) {
            let j = s.skip(k).index_of(t);
            assert(s.skip(k - 1)[j + 1] == t);
        }
        if t == s[k - 1] {
            assert(s.skip(k - 1)[0] == t);
        }
        if s.skip(k - 1).contains(t) {
            let j = s.skip(k - 1).index_of(t);
            if j > 0 {
                assert(s.skip(k)[j - 1] == t);
            }
        }
    }
}

/// The file that says what a configuration says.
pub fn workflow_config_to_yaml_file(config: WorkflowConfig) -> (r: YamlWorkflowFile)
    ensures
        is_file_of(config, r),
{
    let phase_catalog = if config.phase_catalog.is_empty() {
        None
    } else {
        Some(config.phase_catalog)
    };
    YamlWorkflowFile {
        default_workflow_ref: Some(config.default_workflow_ref),
        phase_catalog,
        workflows: workflows_to_yaml(config.workflows),
        phases: phases_to_yaml(config.phase_definitions),
        agents: config.agent_profiles,
        agent_channels: config.agent_channels,
        models: TextMap::new(),
        tools_allowlist: config.tools_allowlist,
        mcp_servers: config.mcp_servers,
        phase_mcp_bindings: config.phase_mcp_bindings,
        tools: config.tools,
        integrations: config.integrations,
        schedules: config.schedules,
        triggers: config.triggers,
        daemon: config.daemon,
        secrets: config.secrets,
        workspaces: config.workspaces,
        environment_routing: config.environment_routing,
    }
}

// ---------------------------------------------------------------------
// Editing a generated file
// ---------------------------------------------------------------------

/// A file with nothing but the blocks that are authored through it: the phase
/// catalog where it is not empty, the workflows and the phases.
pub fn authored_blocks(raw: YamlWorkflowFile) -> (r: YamlWorkflowFile)
    ensures
        r.holds_only_authored_blocks(),
        r.workflows == raw.workflows,
        r.phases == raw.phases,
        r.phase_catalog == match raw.phase_catalog {
            Some(catalog) => if catalog@ == Map::<Seq<char>, PhaseUiDefinition>::empty() {
                None
            } else {
                Some(catalog)
            },
            None => None,
        },
        only_authored_blocks_left(raw, r),
{
    let mut file = YamlWorkflowFile::default();
    file.phase_catalog =
    match raw.phase_catalog {
        Some(catalog) => if catalog.is_empty() {
            None
        } else {
            Some(catalog)
        },
        None => None,
    };
    file.workflows = raw.workflows;
    file.phases = raw.phases;
    file
}

/// The entries of a map whose names differ from `id` by more than ASCII case.
pub open spec fn others<V>(m: Map<Seq<char>, V>, id: Seq<char>) -> Map<Seq<char>, V> {
    Map::new(|k: Seq<char>| m.contains_key(k) && !same_ignoring_case(k, id), |k: Seq<char>| m[k])
}

/// Whether a map has an entry under `id`, up to ASCII case.
pub open spec fn has_name<V>(m: Map<Seq<char>, V>, id: Seq<char>) -> bool {
    exists|k: Seq<char>| #[trigger] m.contains_key(k) && same_ignoring_case(k, id)
}

/// Whether a map has an entry under `id`, up to ASCII case.
fn holds_name<V>(map: &TextMap<V>, id: &str) -> (r: bool)
    ensures
        r == has_name(map@, id@),
{
    let n = map.len();
    let mut i: usize = 0;
    while i < n
        invariant
            i <= n,
            n == map.names().len(),
            forall|k: Seq<char>| #[trigger] map@.contains_key(k) <==> map.names().contains(k),
            forall|j: int| 0 <= j < i ==> !same_ignoring_case(#[trigger] map.names()[j], id@),
        decreases n - i,
    {
        let key = map.key_at(i);
        if same_text_ignoring_case(key.as_str(), id) {
            assert(map@.contains_key(key@));
            return true;
        }
        i += 1;
    }
    proof {
        assert forall|k: Seq<char>| #[trigger] map@.contains_key(k) implies !same_ignoring_case(
            k,
            id@,
        ) by {
            let j = map.names().index_of(k);
            assert(map.names()[j] == k);
        }
    }
    false
}

/// A map without its entries under `id`, up to ASCII case.
fn without_name<V>(map: TextMap<V>, id: &str) -> (r: TextMap<V>)
    ensures
        r@ == others(map@, id@),
{
    let ghost ids = map.names();
    let ghost held = map@;
    let n = map.len();
    let (mut keys, mut values) = map.into_parts();
    let ghost ks = keys@;
    let ghost vals = values@;
    let mut kept: TextMap<V> = TextMap::new();
    let mut k: usize = n;
    while k > 0
        invariant
            k <= n,
            n == ids.len(),
            texts(ks) == ids,
            ks.len() == n,
            vals.len() == n,
            forall|i: int| 0 <= i < vals.len() ==> #[trigger] vals[i] == held[ids[i]],
            keys@ =~= ks.take(k as int),
            values@ =~= vals.take(k as int),
            forall|t: Seq<char>| #[trigger]
                kept@.contains_key(t) <==> ids.skip(k as int).contains(t) && !same_ignoring_case(
                    t,
                    id@,
                ),
            forall|t: Seq<char>| #[trigger] kept@.contains_key(t) ==> kept@[t] == held[t],
        decreases k,
    {
        let key = keys.pop().unwrap();
        let value = values.pop().unwrap();
        proof {
            assert(key == ks[k - 1]);
            assert(texts(ks)[k - 1] == ks[k - 1]@);
            assert(value == vals[k - 1]);
            lemma_skip_one_less(ids, k as int);
        }
        if !same_text_ignoring_case(key.as_str(), id) {
            kept.insert(key, value);
        }
        k -= 1;
    }
    proof {
        assert(ids.skip(0) =~= ids);
        assert(kept@ =~= others(held, id@));
    }
    kept
}

/// Puts a phase into a file in place of those with its id, up to ASCII case, and
/// its catalog entry, if one is given, into the catalog.
pub fn upsert_phase(
    file: YamlWorkflowFile,
    phase_id: &str,
    definition: PhaseExecutionDefinition,
    catalog_entry: Option<PhaseUiDefinition>,
) -> (r: YamlWorkflowFile)
    ensures
        r == (YamlWorkflowFile { phases: r.phases, phase_catalog: r.phase_catalog, ..file }),
        exists|yaml: YamlPhaseDefinition| #[trigger]
            same_phase(yaml, definition) && r.phases@ == others(file.phases@, phase_id@).insert(
                phase_id@,
                yaml,
            ),
        match catalog_entry {
            Some(entry) => r.phase_catalog is Some && (r.phase_catalog->0)@ == (
            match file.phase_catalog {
                Some(catalog) => catalog@,
                None => Map::empty(),
            }).insert(phase_id@, entry),
            None => r.phase_catalog == file.phase_catalog,
        },
        phase_put_in(file, r, phase_id@, definition, catalog_entry),
{
    let mut out = file;
    let mut phases: TextMap<YamlPhaseDefinition> = TextMap::new();
    std::mem::swap(&mut phases, &mut out.phases);
    let mut kept = without_name(phases, phase_id);
    let yaml = phase_execution_definition_to_yaml(definition);
    proof {
        assert(same_phase(yaml, definition));
    }
    kept.insert(phase_id.to_owned(), yaml);
    out.phases = kept;
    if let Some(entry) = catalog_entry {
        let mut catalog = match out.phase_catalog {
            Some(catalog) => catalog,
            None => TextMap::new(),
        };
        catalog.insert(phase_id.to_owned(), entry);
        out.phase_catalog = Some(catalog);
    }
    out
}

impl Identified for YamlWorkflowDefinition {
    open spec fn id_view(&self) -> Seq<char> {
        self.id@
    }

    fn id_text(&self) -> (r: &str) {
        self.id.as_str()
    }
}

/// Puts a pipeline into a file in place of the one with its id, up to ASCII case,
/// or at the end.
pub fn upsert_pipeline(file: YamlWorkflowFile, pipeline: WorkflowDefinition) -> (r:
    YamlWorkflowFile)
    ensures
        r == (YamlWorkflowFile { workflows: r.workflows, ..file }),
        exists|yaml: YamlWorkflowDefinition| #[trigger]
            same_workflow(yaml, pipeline) && r.workflows@ == upserted(file.workflows@, yaml),
        pipeline_put_in(file, r, pipeline),
{
    let mut out = file;
    let yaml = workflow_definition_to_yaml(pipeline);
    proof {
        assert(same_workflow(yaml, pipeline));
    }
    upsert(&mut out.workflows, yaml);
    out
}

/// Whether a file defines a phase, up to ASCII case.
pub fn defines_phase(file: &YamlWorkflowFile, phase_id: &str) -> (r: bool)
    ensures
        r == has_name(file.phases@, phase_id@),
{
    holds_name(&file.phases, phase_id)
}

/// The catalog of a file without its entries for a phase, up to ASCII case.
pub open spec fn catalog_without(
    catalog: Option<TextMap<PhaseUiDefinition>>,
    phase_id: Seq<char>,
) -> Option<Map<Seq<char>, PhaseUiDefinition>> {
    match catalog {
        Some(m) => Some(others(m@, phase_id)),
        None => None,
    }
}

/// Whether `after` is `before` without a phase and its catalog entry, up to ASCII
/// case.
pub open spec fn phase_taken_out(
    before: YamlWorkflowFile,
    after: YamlWorkflowFile,
    phase_id: Seq<char>,
) -> bool {
    &&& after == (YamlWorkflowFile {
        phases: after.phases,
        phase_catalog: after.phase_catalog,
        ..before
    })
    &&& after.phases@ == others(before.phases@, phase_id)
    &&& match after.phase_catalog {
        Some(m) => Some(m@),
        None => None,
    } == catalog_without(before.phase_catalog, phase_id)
}

/// Whether a file holds a phase or a catalog entry for it, up to ASCII case.
pub open spec fn mentions_phase(file: YamlWorkflowFile, phase_id: Seq<char>) -> bool {
    has_name(file.phases@, phase_id) || (file.phase_catalog matches Some(catalog) && has_name(
        catalog@,
        phase_id,
    ))
}

/// Whether one of the files defines a phase, up to ASCII case.
pub open spec fn some_file_defines(files: Seq<YamlWorkflowFile>, phase_id: Seq<char>) -> bool {
    exists|i: int| 0 <= i < files.len() && has_name((#[trigger] files[i]).phases@, phase_id)
}

/// Whether `after` and `removed` are what taking a phase out of `files` gives:
/// `removed` says whether a file defined it. If none did, every file stays as it
/// is; else each is without the phase and its catalog entry. A flag stands with
/// each file that says whether it changed.
pub open spec fn removal_of(
    files: Seq<YamlWorkflowFile>,
    phase_id: Seq<char>,
    after: Seq<(YamlWorkflowFile, bool)>,
    removed: bool,
) -> bool {
    &&& removed == some_file_defines(files, phase_id)
    &&& after.len() == files.len()
    &&& !removed ==> forall|i: int|
        0 <= i < files.len() ==> #[trigger] after[i] == (files[i], false)
    &&& removed ==> forall|i: int|
        0 <= i < files.len() ==> phase_taken_out(files[i], (#[trigger] after[i]).0, phase_id)
            && after[i].1 == mentions_phase(files[i], phase_id)
}

/// Takes a phase and its catalog entry out of a file. The second result says
/// whether there was anything to take out.
fn take_phase_out(file: YamlWorkflowFile, phase_id: &str) -> (r: (YamlWorkflowFile, bool))
    ensures
        phase_taken_out(file, r.0, phase_id@),
        r.1 == mentions_phase(file, phase_id@),
{
    let mut out = file;
    let mut changed = holds_name(&out.phases, phase_id);
    let mut phases: TextMap<YamlPhaseDefinition> = TextMap::new();
    std::mem::swap(&mut phases, &mut out.phases);
    out.phases = without_name(phases, phase_id);
    let mut held: Option<TextMap<PhaseUiDefinition>> = None;
    std::mem::swap(&mut held, &mut out.phase_catalog);
    out.phase_catalog =
    match held {
        Some(catalog) => {
            if holds_name(&catalog, phase_id) {
                changed = true;
            }
            Some(without_name(catalog, phase_id))
        },
        None => None,
    };
    (out, changed)
}

/// Takes a phase and its catalog entries out of the files, up to ASCII case, if
/// one of them defines the phase. A catalog entry alone defines none: the files
/// then stay as they are.
///
/// With each file stands whether it changed. The second result says whether the
/// phase was defined; a phase that was not has its definition elsewhere.
pub fn remove_phase_from(files: Vec<YamlWorkflowFile>, phase_id: &str) -> (r: (
    Vec<(YamlWorkflowFile, bool)>,
    bool,
))
    ensures
        removal_of(files@, phase_id@, r.0@, r.1),
{
    let mut removed = false;
    let mut i: usize = 0;
    while i < files.len()
        invariant
            i <= files@.len(),
            removed == some_file_defines(files@.take(i as int), phase_id@),
        decreases files@.len() - i,
    {
        let ghost seen = files@.take(i as int);
        let ghost next = files@.take(i + 1);
        let found = defines_phase(&files[i], phase_id);
        proof {
            assert(next =~= seen.push(files@[i as int]));
            if removed {
                let j = choose|j: int|
                    0 <= j < seen.len() && has_name((#[trigger] seen[j]).phases@, phase_id@);
                assert(next[j] == seen[j]);
            }
            if found {
                assert(has_name(next[i as int].phases@, phase_id@));
            }
            if some_file_defines(next, phase_id@) && !found {
                let j = choose|j: int|
                    0 <= j < next.len() && has_name((#[trigger] next[j]).phases@, phase_id@);
                assert(seen[j] == next[j]);
            }
        }
        removed = removed || found;
        i += 1;
    }
    proof {
        assert(files@.take(i as int) =~= files@);
    }
    let ghost all = files@;
    let mut rest = files;
    let mut out: Vec<(YamlWorkflowFile, bool)> = Vec::new();
    while rest.len() > 0
        invariant
            out@.len() + rest@.len() == all.len(),
            rest@ == all.skip(out@.len() as int),
            removed == some_file_defines(all, phase_id@),
            !removed ==> forall|i: int|
                0 <= i < out@.len() ==> #[trigger] out@[i] == (all[i], false),
            removed ==> forall|i: int|
                0 <= i < out@.len() ==> phase_taken_out(all[i], (#[trigger] out@[i]).0, phase_id@)
                    && out@[i].1 == mentions_phase(all[i], phase_id@),
        decreases rest@.len(),
    {
        let file = rest.remove(0);
        proof {
            assert(file == all[out@.len() as int]);
            assert(rest@ =~= all.skip(out@.len() as int + 1));
        }
        if removed {
            out.push(take_phase_out(file, phase_id));
        } else {
            out.push((file, false));
        }
    }
    (out, removed)
}

// ---------------------------------------------------------------------
// Laws
// ---------------------------------------------------------------------

/// A phase that has been taken out is not defined any more, and taking it out
/// again changes nothing.
pub proof fn removed_phase_is_gone<V>(m: Map<Seq<char>, V>, id: Seq<char>)
    ensures
        !has_name(others(m, id), id),
        others(others(m, id), id) == others(m, id),
{
    assert(others(others(m, id), id) =~= others(m, id));
}

/// The files of a removal's result, without their flags.
pub open spec fn files_of(after: Seq<(YamlWorkflowFile, bool)>) -> Seq<YamlWorkflowFile> {
    after.map_values(|f: (YamlWorkflowFile, bool)| f.0)
}

/// A removal answers as asking for the phase does: `true` exactly if one of the
/// files defines it. Where none does, no file is changed or marked for writing.
pub proof fn removal_answers_as_defined(
    files: Seq<YamlWorkflowFile>,
    phase_id: Seq<char>,
    after: Seq<(YamlWorkflowFile, bool)>,
    removed: bool,
)
    requires
        removal_of(files, phase_id, after, removed),
    ensures
        removed <==> exists|i: int|
            0 <= i < files.len() && has_name((#[trigger] files[i]).phases@, phase_id),
        !removed ==> files_of(after) == files && forall|i: int|
            0 <= i < after.len() ==> !(#[trigger] after[i]).1,
        removed ==> exists|i: int| 0 <= i < after.len() && (#[trigger] after[i]).1,
{
    if removed {
        let i = choose|i: int|
            0 <= i < files.len() && has_name((#[trigger] files[i]).phases@, phase_id);
        assert(after[i].1 == mentions_phase(files[i], phase_id));
    } else {
        assert(files_of(after) =~= files);
    }
}

/// After a removal no file defines the phase, so a second one finds nothing and
/// leaves every file as the first one left it.
pub proof fn second_removal_finds_nothing(
    files: Seq<YamlWorkflowFile>,
    phase_id: Seq<char>,
    after: Seq<(YamlWorkflowFile, bool)>,
    removed: bool,
    again: Seq<(YamlWorkflowFile, bool)>,
    removed_again: bool,
)
    requires
        removal_of(files, phase_id, after, removed),
        removal_of(files_of(after), phase_id, again, removed_again),
    ensures
        !removed_again,
        files_of(again) == files_of(after),
{
    if removed_again {
        let i = choose|i: int|
            0 <= i < files_of(after).len() && has_name(
                (#[trigger] files_of(after)[i]).phases@,
                phase_id,
            );
        assert(files_of(after)[i] == after[i].0);
        if removed {
            assert(phase_taken_out(files[i], after[i].0, phase_id));
            removed_phase_is_gone(files[i].phases@, phase_id);
        } else {
            assert(after[i] == (files[i], false));
            assert(has_name(files[i].phases@, phase_id));
        }
    } else {
        assert(files_of(again) =~= files_of(after));
    }
}

/// Taking out a phase that is not there changes nothing, and taking one out
/// leaves every other phase as it was.
pub proof fn other_phases_are_kept<V>(m: Map<Seq<char>, V>, id: Seq<char>, other: Seq<char>)
    ensures
        !has_name(m, id) ==> others(m, id) == m,
        !same_ignoring_case(other, id) && m.contains_key(other) ==> others(m, id).contains_key(
            other,
        ) && others(m, id)[other] == m[other],
{
    if !has_name(m, id) {
        assert(others(m, id) =~= m);
    }
}

/// A phase that has been put in is defined under its id, and taking it out again
/// leaves the phases with other ids.
pub proof fn upserted_phase_is_there<V>(m: Map<Seq<char>, V>, id: Seq<char>, value: V)
    ensures
        has_name(others(m, id).insert(id, value), id),
        others(others(m, id).insert(id, value), id) == others(m, id),
{
    let after = others(m, id).insert(id, value);
    assert(after.contains_key(id));
    assert(others(after, id) =~= others(m, id));
}

/// Whether `after` is `before` with a phase put in, and its catalog entry where one
/// is given.
pub open spec fn phase_put_in(
    before: YamlWorkflowFile,
    after: YamlWorkflowFile,
    phase_id: Seq<char>,
    definition: PhaseExecutionDefinition,
    catalog_entry: Option<PhaseUiDefinition>,
) -> bool {
    &&& after == (YamlWorkflowFile {
        phases: after.phases,
        phase_catalog: after.phase_catalog,
        ..before
    })
    &&& exists|yaml: YamlPhaseDefinition| #[trigger]
        same_phase(yaml, definition) && after.phases@ == others(before.phases@, phase_id).insert(
            phase_id,
            yaml,
        )
    &&& match catalog_entry {
        Some(entry) => after.phase_catalog is Some && (after.phase_catalog->0)@ == (
        match before.phase_catalog {
            Some(catalog) => catalog@,
            None => Map::empty(),
        }).insert(phase_id, entry),
        None => after.phase_catalog == before.phase_catalog,
    }
}

/// Whether `after` is `before` with a pipeline put in.
pub open spec fn pipeline_put_in(
    before: YamlWorkflowFile,
    after: YamlWorkflowFile,
    pipeline: WorkflowDefinition,
) -> bool {
    &&& after == (YamlWorkflowFile { workflows: after.workflows, ..before })
    &&& exists|yaml: YamlWorkflowDefinition| #[trigger]
        same_workflow(yaml, pipeline) && after.workflows@ == upserted(before.workflows@, yaml)
}

/// Whether `r` holds the authored blocks of `raw`, and nothing else.
pub open spec fn only_authored_blocks_left(raw: YamlWorkflowFile, r: YamlWorkflowFile) -> bool {
    &&& r.holds_only_authored_blocks()
    &&& r.workflows == raw.workflows
    &&& r.phases == raw.phases
    &&& r.phase_catalog == match raw.phase_catalog {
        Some(catalog) => if catalog@ == Map::<Seq<char>, PhaseUiDefinition>::empty() {
            None
        } else {
            Some(catalog)
        },
        None => None,
    }
}

/// A phase that is put in is there, as it was given, under its id and under no
/// other case of it. Every other phase, workflow and catalog entry stays, and the
/// rest of the file too.
pub proof fn a_phase_put_in_is_there(
    before: YamlWorkflowFile,
    after: YamlWorkflowFile,
    phase_id: Seq<char>,
    definition: PhaseExecutionDefinition,
    catalog_entry: Option<PhaseUiDefinition>,
    k: Seq<char>,
)
    requires
        phase_put_in(before, after, phase_id, definition, catalog_entry),
    ensures
        after.phases@.contains_key(phase_id) && same_phase(after.phases@[phase_id], definition),
        k != phase_id && same_ignoring_case(k, phase_id) ==> !after.phases@.contains_key(k),
        !same_ignoring_case(k, phase_id) ==> (after.phases@.contains_key(k)
            <==> before.phases@.contains_key(k)),
        !same_ignoring_case(k, phase_id) && before.phases@.contains_key(k) ==> after.phases@[k]
            == before.phases@[k],
        catalog_entry is None ==> after.phase_catalog == before.phase_catalog,
        catalog_entry matches Some(entry) ==> after.phase_catalog is Some && (
        after.phase_catalog->0)@.contains_key(phase_id) && (after.phase_catalog->0)@[phase_id]
            == entry,
        catalog_entry is Some && k != phase_id && before.phase_catalog is Some && (
        before.phase_catalog->0)@.contains_key(k) ==> (after.phase_catalog->0)@.contains_key(k) && (
        after.phase_catalog->0)@[k] == (before.phase_catalog->0)@[k],
        after.workflows == before.workflows,
        after.agents == before.agents,
        after.default_workflow_ref == before.default_workflow_ref,
{
}

/// A pipeline that is put in is found under its id, up to ASCII case, as it was
/// given. Every other workflow is found as before, in its place, and the phases
/// stay.
pub proof fn a_pipeline_put_in_is_there(
    before: YamlWorkflowFile,
    after: YamlWorkflowFile,
    pipeline: WorkflowDefinition,
    id: Seq<char>,
)
    requires
        pipeline_put_in(before, after, pipeline),
    ensures
        same_ignoring_case(id, pipeline.id@) ==> (crate::config::parse::item_with_id(
            after.workflows@,
            id,
        ) matches Some(found) && same_workflow(found, pipeline)),
        !same_ignoring_case(id, pipeline.id@) ==> crate::config::parse::item_with_id(
            after.workflows@,
            id,
        ) == crate::config::parse::item_with_id(before.workflows@, id),
        before.workflows@.len() <= after.workflows@.len() <= before.workflows@.len() + 1,
        after.phases == before.phases,
        after.phase_catalog == before.phase_catalog,
{
    let yaml = choose|yaml: YamlWorkflowDefinition| #[trigger]
        same_workflow(yaml, pipeline) && after.workflows@ == upserted(before.workflows@, yaml);
    crate::config::parse::lemma_upserted_lookup(before.workflows@, yaml, id);
}

/// Of a file that is rewritten, the workflows, the phases and a catalog that holds
/// something are kept; nothing else is.
pub proof fn only_authored_blocks_are_rewritten(raw: YamlWorkflowFile, r: YamlWorkflowFile)
    requires
        only_authored_blocks_left(raw, r),
    ensures
        r.workflows == raw.workflows,
        r.phases == raw.phases,
        raw.phase_catalog matches Some(catalog) ==> (catalog@.dom().len() > 0 ==> r.phase_catalog
            == raw.phase_catalog),
        raw.phase_catalog is None ==> r.phase_catalog is None,
        r.default_workflow_ref is None,
        r.integrations is None,
        r.daemon is None,
        r.environment_routing is None,
        r.tools_allowlist@.len() == 0,
        r.schedules@.len() == 0,
        r.triggers@.len() == 0,
        forall|k: Seq<char>|
            !r.agents@.contains_key(k) && !r.secrets@.contains_key(k) && !r.models@.contains_key(k)
                && !r.mcp_servers@.contains_key(k) && !r.tools@.contains_key(k)
                && !r.workspaces@.contains_key(k) && !r.agent_channels@.contains_key(k)
                && !r.phase_mcp_bindings@.contains_key(k),
{
    assert(Map::<Seq<char>, PhaseUiDefinition>::empty().dom().len() == 0);
}

/// A file written for a configuration says all that it says: every block is there,
/// with one workflow and one phase for each, and reading it never fails on a
/// workflow.
pub proof fn a_written_file_says_everything(
    config: WorkflowConfig,
    file: YamlWorkflowFile,
    k: Seq<char>,
    i: int,
)
    requires
        is_file_of(config, file),
    ensures
        file.default_workflow_ref matches Some(name) && name@ == config.default_workflow_ref@,
        config.phase_catalog@.contains_key(k) ==> (file.phase_catalog matches Some(catalog)
            && catalog@.contains_key(k) && catalog@[k] == config.phase_catalog@[k]),
        file.phases@.contains_key(k) <==> config.phase_definitions@.contains_key(k),
        file.phases@.contains_key(k) ==> same_phase(file.phases@[k], config.phase_definitions@[k]),
        file.workflows@.len() == config.workflows@.len(),
        0 <= i < file.workflows@.len() ==> same_workflow(file.workflows@[i], config.workflows@[i])
            && workflow_problem(file.workflows@[i]) is None,
        file.agents == config.agent_profiles,
        file.agent_channels == config.agent_channels,
        file.tools_allowlist == config.tools_allowlist,
        file.mcp_servers == config.mcp_servers,
        file.phase_mcp_bindings == config.phase_mcp_bindings,
        file.tools == config.tools,
        file.integrations == config.integrations,
        file.schedules == config.schedules,
        file.triggers == config.triggers,
        file.daemon == config.daemon,
        file.secrets == config.secrets,
        file.workspaces == config.workspaces,
        file.environment_routing == config.environment_routing,
{
    assert(file.phases@.dom().contains(k) <==> config.phase_definitions@.dom().contains(k));
}

/// A configuration survives being written as a file and read back: its default
/// workflow, its phases and workflows with all that they say, its catalog entries,
/// and every other block.
pub proof fn a_configuration_survives_its_file(
    config: WorkflowConfig,
    file: YamlWorkflowFile,
    back: WorkflowConfig,
    k: Seq<char>,
    i: int,
)
    requires
        is_file_of(config, file),
        crate::config::compile::is_overlay_of(file, back),
    ensures
        back.default_workflow_ref@ == config.default_workflow_ref@,
        back.phase_definitions@.contains_key(k) <==> config.phase_definitions@.contains_key(k),
        config.phase_definitions@.contains_key(k) ==> crate::config::conversion::same_definition(
            back.phase_definitions@[k],
            config.phase_definitions@[k],
        ),
        config.phase_catalog@.contains_key(k) ==> back.phase_catalog@.contains_key(k)
            && back.phase_catalog@[k] == config.phase_catalog@[k],
        back.workflows@.len() == config.workflows@.len(),
        0 <= i < config.workflows@.len() ==> back.workflows@[i].id@ == config.workflows@[i].id@
            && back.workflows@[i].name@ == config.workflows@[i].name@
            && crate::config::workflow_types::entry_views(back.workflows@[i].phases@)
            == crate::config::workflow_types::entry_views(config.workflows@[i].phases@),
        back.agent_profiles == config.agent_profiles,
        back.agent_channels == config.agent_channels,
        back.tools_allowlist == config.tools_allowlist,
        back.mcp_servers == config.mcp_servers,
        back.phase_mcp_bindings == config.phase_mcp_bindings,
        back.tools == config.tools,
        back.integrations == config.integrations,
        back.schedules == config.schedules,
        back.triggers == config.triggers,
        back.daemon == config.daemon,
        back.secrets == config.secrets,
        back.workspaces == config.workspaces,
        back.environment_routing == config.environment_routing,
{
    a_written_file_says_everything(config, file, k, i);
    crate::config::compile::phases_are_defined_and_listed(file, back, k);
    if config.phase_definitions@.contains_key(k) {
        crate::config::conversion::phase_definition_round_trips(
            config.phase_definitions@[k],
            file.phases@[k],
            back.phase_definitions@[k],
        );
    }
    if 0 <= i < config.workflows@.len() {
        assert(same_workflow(file.workflows@[i], back.workflows@[i]));
        crate::config::conversion::workflow_round_trips(
            config.workflows@[i],
            file.workflows@[i],
            back.workflows@[i],
        );
    }
}

/// A phase is found under its id in whatever ASCII case, and not where no entry has
/// it.
pub proof fn phases_are_found_in_any_case<V>(m: Map<Seq<char>, V>, id: Seq<char>, k: Seq<char>)
    ensures
        m.contains_key(k) && same_ignoring_case(k, id) ==> has_name(m, id),
        (forall|name: Seq<char>| #[trigger] m.contains_key(name) ==> !same_ignoring_case(name, id))
            ==> !has_name(m, id),
        has_name(others(m, id), k) ==> has_name(m, k),
{
    if has_name(others(m, id), k) {
        let name = choose|name: Seq<char>| #[trigger]
            others(m, id).contains_key(name) && same_ignoring_case(name, k);
        assert(m.contains_key(name));
    }
}

/// A removal takes the phase and its catalog entries out of every file, in whatever
/// ASCII case, and nothing else; a file is marked exactly if it held one of them.
pub proof fn a_removal_takes_all_of_the_phase(
    files: Seq<YamlWorkflowFile>,
    phase_id: Seq<char>,
    after: Seq<(YamlWorkflowFile, bool)>,
    removed: bool,
    i: int,
    k: Seq<char>,
)
    requires
        removal_of(files, phase_id, after, removed),
        removed,
        0 <= i < files.len(),
    ensures
        same_ignoring_case(k, phase_id) ==> !after[i].0.phases@.contains_key(k),
        !same_ignoring_case(k, phase_id) ==> (after[i].0.phases@.contains_key(k)
            <==> files[i].phases@.contains_key(k)),
        !same_ignoring_case(k, phase_id) && files[i].phases@.contains_key(k)
            ==> after[i].0.phases@[k] == files[i].phases@[k],
        after[i].0.phase_catalog is Some <==> files[i].phase_catalog is Some,
        files[i].phase_catalog is Some && same_ignoring_case(k, phase_id) ==> !(
        after[i].0.phase_catalog->0)@.contains_key(k),
        files[i].phase_catalog is Some && !same_ignoring_case(k, phase_id) ==> ((
        after[i].0.phase_catalog->0)@.contains_key(k) <==> (
        files[i].phase_catalog->0)@.contains_key(k)),
        after[i].0.workflows == files[i].workflows,
        after[i].0.agents == files[i].agents,
        files[i].phases@.contains_key(k) && same_ignoring_case(k, phase_id) ==> after[i].1,
        files[i].phase_catalog is Some && (files[i].phase_catalog->0)@.contains_key(k)
            && same_ignoring_case(k, phase_id) ==> after[i].1,
        (forall|n: Seq<char>| #[trigger]
            files[i].phases@.contains_key(n) ==> !same_ignoring_case(n, phase_id)) && (
        files[i].phase_catalog is None || forall|n: Seq<char>| #[trigger]
            (files[i].phase_catalog->0)@.contains_key(n) ==> !same_ignoring_case(n, phase_id))
            ==> !after[i].1,
{
    assert(phase_taken_out(files[i], after[i].0, phase_id));
    assert(after[i].1 == mentions_phase(files[i], phase_id));
}

} // verus!
