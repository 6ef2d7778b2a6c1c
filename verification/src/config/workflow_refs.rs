//! Sub-workflow references: expansion of a workflow into its phases, and the
//! list of the workflows it reaches.

use vstd::prelude::*;

use crate::config::workflow_types::{
    entry_views, SubWorkflowRef, WorkflowDefinition, WorkflowPhaseEntry, WorkflowPhaseEntryView,
};
use crate::text::{
    join_texts, joined, lower, lower_text, same_ignoring_case, same_text, same_text_ignoring_case,
    texts,
};

verus! {

/// Why a workflow reference cannot be followed.
#[derive(Debug, Clone)]
pub enum WorkflowRefError {
    /// The reference leads back to a workflow that is being followed.
    Circular { workflow_ref: String, visited: Vec<String> },
    /// No workflow has the id.
    NotFound { workflow_ref: String },
}

/// View of [`WorkflowRefError`].
pub enum WorkflowRefErrorView {
    Circular(Seq<char>, Seq<Seq<char>>),
    NotFound(Seq<char>),
}

impl View for WorkflowRefError {
    type V = WorkflowRefErrorView;

    open spec fn view(&self) -> WorkflowRefErrorView {
        match self {
            WorkflowRefError::Circular { workflow_ref, visited } => WorkflowRefErrorView::Circular(
                workflow_ref@,
                texts(visited@),
            ),
            WorkflowRefError::NotFound { workflow_ref } => WorkflowRefErrorView::NotFound(
                workflow_ref@,
            ),
        }
    }
}

/// The message of an error.
pub open spec fn ref_error_message(e: WorkflowRefErrorView) -> Seq<char> {
    match e {
        WorkflowRefErrorView::Circular(r, visited) => {
            "circular sub-workflow reference detected: '"@ + r + "' (visited: "@ + joined(
                visited,
                " -> "@,
            ) + ")"@
        },
        WorkflowRefErrorView::NotFound(r) => "sub-workflow '"@ + r + "' not found"@,
    }
}

impl WorkflowRefError {
    /// The error as one line of text.
    pub fn message(&self) -> (r: String)
        ensures
            r@ == ref_error_message(self@),
    {
        let mut out = String::new();
        match self {
            WorkflowRefError::Circular { workflow_ref, visited } => {
                out.append("circular sub-workflow reference detected: '");
                out.append(workflow_ref.as_str());
                out.append("' (visited: ");
                out.append(join_texts(visited.as_slice(), " -> ").as_str());
                out.append(")");
            },
            WorkflowRefError::NotFound { workflow_ref } => {
                out.append("sub-workflow '");
                out.append(workflow_ref.as_str());
                out.append("' not found");
            },
        }
        proof {
            assert(out@ =~= ref_error_message(self@));
        }
        out
    }
}

/// Whether `ws[i]` is the first workflow with the given id, up to ASCII case.
pub open spec fn is_first_with_id(ws: Seq<WorkflowDefinition>, id: Seq<char>, i: int) -> bool {
    &&& 0 <= i < ws.len()
    &&& same_ignoring_case(ws[i].id@, id)
    &&& forall|j: int| 0 <= j < i ==> !same_ignoring_case((#[trigger] ws[j]).id@, id)
}

/// Index of the first workflow from `from` on with the given id, up to ASCII case.
pub open spec fn lookup_from(ws: Seq<WorkflowDefinition>, id: Seq<char>, from: int) -> Option<int>
    decreases ws.len() - from,
{
    if from < 0 || from >= ws.len() {
        None
    } else if same_ignoring_case(ws[from].id@, id) {
        Some(from)
    } else {
        lookup_from(ws, id, from + 1)
    }
}

/// Index of the first workflow with the given id, up to ASCII case.
pub open spec fn lookup(ws: Seq<WorkflowDefinition>, id: Seq<char>) -> Option<int> {
    lookup_from(ws, id, 0)
}

proof fn lemma_lookup_from(ws: Seq<WorkflowDefinition>, id: Seq<char>, from: int)
    requires
        0 <= from,
    ensures
        match lookup_from(ws, id, from) {
            Some(i) => from <= i < ws.len() && same_ignoring_case(ws[i].id@, id) && forall|j: int|
                from <= j < i ==> !same_ignoring_case((#[trigger] ws[j]).id@, id),
            None => forall|j: int|
                from <= j < ws.len() ==> !same_ignoring_case((#[trigger] ws[j]).id@, id),
        },
    decreases ws.len() - from,
{
    if from < ws.len() && !same_ignoring_case(ws[from].id@, id) {
        lemma_lookup_from(ws, id, from + 1);
    }
}

/// `lookup` answers the first workflow with the id, and `None` exactly when no
/// workflow has it.
pub proof fn lookup_finds_the_first(ws: Seq<WorkflowDefinition>, id: Seq<char>)
    ensures
        match lookup(ws, id) {
            Some(i) => is_first_with_id(ws, id, i),
            None => forall|j: int|
                0 <= j < ws.len() ==> !same_ignoring_case((#[trigger] ws[j]).id@, id),
        },
{
    lemma_lookup_from(ws, id, 0);
}

/// Number of workflows whose lower-cased id is not on the path.
pub open spec fn unvisited(ws: Seq<WorkflowDefinition>, path: Seq<Seq<char>>) -> nat
    decreases ws.len(),
{
    if ws.len() == 0 {
        0
    } else {
        unvisited(ws.drop_last(), path) + if path.contains(lower(ws.last().id@)) {
            0nat
        } else {
            1
        }
    }
}

proof fn lemma_unvisited_mono(ws: Seq<WorkflowDefinition>, path: Seq<Seq<char>>, n: Seq<char>)
    ensures
        unvisited(ws, path.push(n)) <= unvisited(ws, path),
    decreases ws.len(),
{
    if ws.len() > 0 {
        lemma_unvisited_mono(ws.drop_last(), path, n);
        let k = lower(ws.last().id@);
        if path.contains(k) {
            let j = path.index_of(k);
            assert(path.push(n)[j] == k);
        }
    }
}

/// Following a workflow that is not on the path leaves fewer to be visited.
proof fn lemma_unvisited_decreases(
    ws: Seq<WorkflowDefinition>,
    path: Seq<Seq<char>>,
    n: Seq<char>,
    i: int,
)
    requires
        0 <= i < ws.len(),
        lower(ws[i].id@) == n,
        !path.contains(n),
    ensures
        unvisited(ws, path.push(n)) < unvisited(ws, path),
    decreases ws.len(),
{
    if i == ws.len() - 1 {
        lemma_unvisited_mono(ws.drop_last(), path, n);
        assert(path.push(n)[path.len() as int] == n);
    } else {
        lemma_unvisited_decreases(ws.drop_last(), path, n, i);
        let k = lower(ws.last().id@);
        if path.contains(k) {
            let j = path.index_of(k);
            assert(path.push(n)[j] == k);
        }
    }
}

/// The phases that a workflow reference stands for. `path` holds the lower-cased
/// references that are being followed.
pub open spec fn expansion(
    ws: Seq<WorkflowDefinition>,
    workflow_ref: Seq<char>,
    path: Seq<Seq<char>>,
) -> Result<Seq<WorkflowPhaseEntryView>, WorkflowRefErrorView>
    decreases unvisited(ws, path), 0int,
    via expansion_decreases
{
    let n = lower(workflow_ref);
    if path.contains(n) {
        Err(WorkflowRefErrorView::Circular(workflow_ref, path))
    } else {
        match lookup(ws, workflow_ref) {
            None => Err(WorkflowRefErrorView::NotFound(workflow_ref)),
            Some(i) => expansion_of_phases(ws, ws[i].phases@, 0, path.push(n)),
        }
    }
}

#[via_fn]
proof fn expansion_decreases(
    ws: Seq<WorkflowDefinition>,
    workflow_ref: Seq<char>,
    path: Seq<Seq<char>>,
) {
    lemma_lookup_from(ws, workflow_ref, 0);
    if !path.contains(lower(workflow_ref)) && lookup(ws, workflow_ref) is Some {
        lemma_unvisited_decreases(
            ws,
            path,
            lower(workflow_ref),
            lookup(ws, workflow_ref)->0,
        );
    }
}

/// The phases that the entries from index `k` on stand for: a sub-workflow's
/// phases take the place of its reference, every other entry stands for itself.
pub open spec fn expansion_of_phases(
    ws: Seq<WorkflowDefinition>,
    phases: Seq<WorkflowPhaseEntry>,
    k: int,
    path: Seq<Seq<char>>,
) -> Result<Seq<WorkflowPhaseEntryView>, WorkflowRefErrorView>
    decreases unvisited(ws, path), phases.len() - k + 1,
{
    if k < 0 || k >= phases.len() {
        Ok(Seq::empty())
    } else {
        let head = match phases[k] {
            WorkflowPhaseEntry::SubWorkflow(sub) => expansion(ws, sub.workflow_ref@, path),
            other => Ok(seq![other@]),
        };
        match head {
            Err(e) => Err(e),
            Ok(first) => match expansion_of_phases(ws, phases, k + 1, path) {
                Err(e) => Err(e),
                Ok(rest) => Ok(first + rest),
            },
        }
    }
}

/// Index of the first workflow with the given id, up to ASCII case.
fn find_workflow(ws: &[WorkflowDefinition], id: &str) -> (r: Option<usize>)
    ensures
        match r {
            Some(i) => lookup(ws@, id@) == Some(i as int) && i < ws@.len(),
            None => lookup(ws@, id@) is None,
        },
{
    let mut i: usize = 0;
    while i < ws.len()
        invariant
            i <= ws@.len(),
            lookup(ws@, id@) == lookup_from(ws@, id@, i as int),
        decreases ws@.len() - i,
    {
        if same_text_ignoring_case(ws[i].id.as_str(), id) {
            return Some(i);
        }
        i += 1;
    }
    None
}

/// Whether a list of strings holds a text.
fn holds(list: &Vec<String>, text: &str) -> (r: bool)
    ensures
        r == texts(list@).contains(text@),
{
    let mut i: usize = 0;
    while i < list.len()
        invariant
            i <= list@.len(),
            forall|j: int| 0 <= j < i ==> #[trigger] texts(list@)[j] != text@,
        decreases list@.len() - i,
    {
        if same_text(list[i].as_str(), text) {
            assert(texts(list@)[i as int] == text@);
            return true;
        }
        i += 1;
    }
    false
}

/// The phases that a workflow reference stands for: the phases of the workflow
/// with that id, every sub-workflow reference replaced by the phases it stands
/// for.
pub fn expand_workflow_phases(workflows: &[WorkflowDefinition], workflow_ref: &str) -> (r: Result<
    Vec<WorkflowPhaseEntry>,
    WorkflowRefError,
>)
    ensures
        match r {
            Ok(entries) => expansion(workflows@, workflow_ref@, Seq::empty()) == Ok::<
                Seq<WorkflowPhaseEntryView>,
                WorkflowRefErrorView,
            >(entry_views(entries@)),
            Err(e) => expansion(workflows@, workflow_ref@, Seq::empty()) == Err::<
                Seq<WorkflowPhaseEntryView>,
                WorkflowRefErrorView,
            >(e@),
        },
{
    let mut visited: Vec<String> = Vec::new();
    proof {
        assert(texts(visited@) =~= Seq::empty());
    }
    expand_workflow_phases_inner(workflows, workflow_ref, &mut visited)
}

fn expand_workflow_phases_inner(
    workflows: &[WorkflowDefinition],
    workflow_ref: &str,
    visited: &mut Vec<String>,
) -> (r: Result<Vec<WorkflowPhaseEntry>, WorkflowRefError>)
    ensures
        match r {
            Ok(entries) => final(visited)@ == old(visited)@ && expansion(
                workflows@,
                workflow_ref@,
                texts(old(visited)@),
            ) == Ok::<Seq<WorkflowPhaseEntryView>, WorkflowRefErrorView>(entry_views(entries@)),
            Err(e) => expansion(workflows@, workflow_ref@, texts(old(visited)@)) == Err::<
                Seq<WorkflowPhaseEntryView>,
                WorkflowRefErrorView,
            >(e@),
        },
    decreases unvisited(workflows@, texts(old(visited)@)),
{
    let ghost before = visited@;
    let ghost path = texts(visited@);
    let normalized = lower_text(workflow_ref);
    if holds(visited, normalized.as_str()) {
        return Err(
            WorkflowRefError::Circular {
                workflow_ref: workflow_ref.to_owned(),
                visited: crate::text::copy_strings(visited),
            },
        );
    }
    let at = match find_workflow(workflows, workflow_ref) {
        None => {
            return Err(WorkflowRefError::NotFound { workflow_ref: workflow_ref.to_owned() });
        },
        Some(at) => at,
    };
    let ghost name = normalized@;
    visited.push(normalized);
    let ghost inside = visited@;
    proof {
        assert(texts(inside) =~= path.push(name));
        lookup_finds_the_first(workflows@, workflow_ref@);
        lemma_unvisited_decreases(workflows@, path, name, at as int);
    }
    let phases = &workflows[at].phases;
    let mut expanded: Vec<WorkflowPhaseEntry> = Vec::new();
    let ghost whole = expansion_of_phases(workflows@, phases@, 0, texts(inside));
    let mut k: usize = 0;
    proof {
        assert(entry_views(expanded@) =~= Seq::empty());
        if whole is Ok {
            assert(entry_views(expanded@) + whole->Ok_0 =~= whole->Ok_0);
        }
    }
    while k < phases.len()
        invariant
            k <= phases@.len(),
            visited@ == inside,
            before == old(visited)@,
            path == texts(old(visited)@),
            whole == expansion(workflows@, workflow_ref@, path),
            unvisited(workflows@, texts(inside)) < unvisited(workflows@, path),
            whole == (match expansion_of_phases(workflows@, phases@, k as int, texts(inside)) {
                Err(e) => Err(e),
                Ok(rest) => Ok(entry_views(expanded@) + rest),
            }),
        decreases phases@.len() - k,
    {
        let ghost so_far = expanded@;
        let ghost mut head: Seq<WorkflowPhaseEntryView> = Seq::empty();
        match &phases[k] {
            WorkflowPhaseEntry::SubWorkflow(sub) => {
                match expand_workflow_phases_inner(
                    workflows,
                    sub.workflow_ref.as_str(),
                    visited,
                ) {
                    Err(e) => {
                        return Err(e);
                    },
                    Ok(mut sub_phases) => {
                        let ghost added = sub_phases@;
                        expanded.append(&mut sub_phases);
                        proof {
                            head = entry_views(added);
                            assert(entry_views(expanded@) =~= entry_views(so_far) + head);
                        }
                    },
                }
            },
            other => {
                let kept = other.clone();
                expanded.push(kept);
                proof {
                    head = seq![kept@];
                    assert(entry_views(expanded@) =~= entry_views(so_far) + head);
                }
            },
        }
        proof {
            if let Ok(rest) = expansion_of_phases(
                workflows@,
                phases@,
                k + 1,
                texts(inside),
            ) {
                assert(entry_views(so_far) + (head + rest) =~= entry_views(expanded@) + rest);
            }
        }
        k += 1;
    }
    visited.pop();
    proof {
        assert(visited@ =~= before);
        assert(entry_views(expanded@) + Seq::<WorkflowPhaseEntryView>::empty() =~= entry_views(
            expanded@,
        ));
    }
    Ok(expanded)
}

// ---------------------------------------------------------------------
// Reached workflows
// ---------------------------------------------------------------------

/// What has been collected: the lower-cased references that were followed, and
/// the ids of their workflows, in the order of the first visit.
pub struct Collected {
    pub seen: Seq<Seq<char>>,
    pub refs: Seq<Seq<char>>,
}

/// What is collected after a workflow reference has been followed.
pub open spec fn collection(
    ws: Seq<WorkflowDefinition>,
    workflow_ref: Seq<char>,
    path: Seq<Seq<char>>,
    so_far: Collected,
) -> Result<Collected, WorkflowRefErrorView>
    decreases unvisited(ws, path), 0int,
    via collection_decreases
{
    let n = lower(workflow_ref);
    if path.contains(n) {
        Err(WorkflowRefErrorView::Circular(workflow_ref, path))
    } else {
        match lookup(ws, workflow_ref) {
            None => Err(WorkflowRefErrorView::NotFound(workflow_ref)),
            Some(i) => if so_far.seen.contains(n) {
                Ok(so_far)
            } else {
                collection_of_phases(
                    ws,
                    ws[i].phases@,
                    0,
                    path.push(n),
                    Collected { seen: so_far.seen.push(n), refs: so_far.refs.push(ws[i].id@) },
                )
            },
        }
    }
}

#[via_fn]
proof fn collection_decreases(
    ws: Seq<WorkflowDefinition>,
    workflow_ref: Seq<char>,
    path: Seq<Seq<char>>,
    so_far: Collected,
) {
    lemma_lookup_from(ws, workflow_ref, 0);
    if !path.contains(lower(workflow_ref)) && lookup(ws, workflow_ref) is Some {
        lemma_unvisited_decreases(
            ws,
            path,
            lower(workflow_ref),
            lookup(ws, workflow_ref)->0,
        );
    }
}

/// What is collected after the sub-workflow references from index `k` on have
/// been followed.
pub open spec fn collection_of_phases(
    ws: Seq<WorkflowDefinition>,
    phases: Seq<WorkflowPhaseEntry>,
    k: int,
    path: Seq<Seq<char>>,
    so_far: Collected,
) -> Result<Collected, WorkflowRefErrorView>
    decreases unvisited(ws, path), phases.len() - k + 1,
{
    if k < 0 || k >= phases.len() {
        Ok(so_far)
    } else {
        let after = match phases[k] {
            WorkflowPhaseEntry::SubWorkflow(sub) => collection(ws, sub.workflow_ref@, path, so_far),
            _ => Ok(so_far),
        };
        match after {
            Err(e) => Err(e),
            Ok(more) => collection_of_phases(ws, phases, k + 1, path, more),
        }
    }
}

/// The ids of the workflows that a reference reaches, each once, in the order of
/// the first visit.
pub fn collect_workflow_refs(workflows: &[WorkflowDefinition], workflow_ref: &str) -> (r: Result<
    Vec<String>,
    WorkflowRefError,
>)
    ensures
        match collection(
            workflows@,
            workflow_ref@,
            Seq::empty(),
            (Collected { seen: Seq::empty(), refs: Seq::empty() }),
        ) {
            Ok(all) => r is Ok && texts((r->Ok_0)@) == all.refs,
            Err(e) => r is Err && (r->Err_0)@ == e,
        },
{
    let mut active: Vec<String> = Vec::new();
    let mut seen: Vec<String> = Vec::new();
    let mut refs: Vec<String> = Vec::new();
    proof {
        assert(texts(active@) =~= Seq::empty());
        assert(texts(seen@) =~= Seq::empty());
        assert(texts(refs@) =~= Seq::empty());
    }
    match collect_workflow_refs_inner(workflows, workflow_ref, &mut active, &mut seen, &mut refs) {
        Ok(_) => Ok(refs),
        Err(e) => Err(e),
    }
}

fn collect_workflow_refs_inner(
    workflows: &[WorkflowDefinition],
    workflow_ref: &str,
    active: &mut Vec<String>,
    seen: &mut Vec<String>,
    refs: &mut Vec<String>,
) -> (r: Result<(), WorkflowRefError>)
    ensures
        match collection(
            workflows@,
            workflow_ref@,
            texts(old(active)@),
            (Collected { seen: texts(old(seen)@), refs: texts(old(refs)@) }),
        ) {
            Ok(all) => r is Ok && final(active)@ == old(active)@ && texts(final(seen)@) == all.seen
                && texts(final(refs)@) == all.refs,
            Err(e) => r is Err && (r->Err_0)@ == e,
        },
    decreases unvisited(workflows@, texts(old(active)@)),
{
    let ghost before = active@;
    let ghost path = texts(active@);
    let ghost start = Collected { seen: texts(seen@), refs: texts(refs@) };
    let normalized = lower_text(workflow_ref);
    if holds(active, normalized.as_str()) {
        return Err(
            WorkflowRefError::Circular {
                workflow_ref: workflow_ref.to_owned(),
                visited: crate::text::copy_strings(active),
            },
        );
    }
    let at = match find_workflow(workflows, workflow_ref) {
        None => {
            return Err(WorkflowRefError::NotFound { workflow_ref: workflow_ref.to_owned() });
        },
        Some(at) => at,
    };
    if holds(seen, normalized.as_str()) {
        return Ok(());
    }
    let ghost name = normalized@;
    active.push(normalized.clone());
    seen.push(normalized);
    refs.push(workflows[at].id.clone());
    let ghost inside = active@;
    proof {
        assert(texts(inside) =~= path.push(name));
        assert(texts(seen@) =~= start.seen.push(name));
        assert(texts(refs@) =~= start.refs.push(workflows@[at as int].id@));
        lookup_finds_the_first(workflows@, workflow_ref@);
        lemma_unvisited_decreases(workflows@, path, name, at as int);
    }
    let phases = &workflows[at].phases;
    let ghost whole = collection(workflows@, workflow_ref@, path, start);
    let mut k: usize = 0;
    while k < phases.len()
        invariant
            k <= phases@.len(),
            active@ == inside,
            before == old(active)@,
            path == texts(old(active)@),
            start == (Collected { seen: texts(old(seen)@), refs: texts(old(refs)@) }),
            whole == collection(workflows@, workflow_ref@, path, start),
            unvisited(workflows@, texts(inside)) < unvisited(workflows@, path),
            whole == collection_of_phases(
                workflows@,
                phases@,
                k as int,
                texts(inside),
                (Collected { seen: texts(seen@), refs: texts(refs@) }),
            ),
        decreases phases@.len() - k,
    {
        if let WorkflowPhaseEntry::SubWorkflow(sub) = &phases[k] {
            match collect_workflow_refs_inner(
                workflows,
                sub.workflow_ref.as_str(),
                active,
                seen,
                refs,
            ) {
                Err(e) => {
                    return Err(e);
                },
                Ok(_) => {},
            }
        }
        k += 1;
    }
    active.pop();
    proof {
        assert(active@ =~= before);
    }
    Ok(())
}

// ---------------------------------------------------------------------
// Laws
// ---------------------------------------------------------------------

/// Whether a list of entries holds no sub-workflow reference.
pub open spec fn no_references(entries: Seq<WorkflowPhaseEntryView>) -> bool {
    forall|i: int| 0 <= i < entries.len() ==> !(#[trigger] entries[i] is SubWorkflow)
}

/// An expansion holds no sub-workflow reference.
pub proof fn expansion_has_no_references(
    ws: Seq<WorkflowDefinition>,
    workflow_ref: Seq<char>,
    path: Seq<Seq<char>>,
)
    ensures
        expansion(ws, workflow_ref, path) matches Ok(entries) ==> no_references(entries),
    decreases unvisited(ws, path), 0int,
{
    lookup_finds_the_first(ws, workflow_ref);
    let n = lower(workflow_ref);
    if !path.contains(n) && lookup(ws, workflow_ref) is Some {
        let i = lookup(ws, workflow_ref)->0;
        lemma_unvisited_decreases(ws, path, n, i);
        lemma_expansion_of_phases_has_no_references(ws, ws[i].phases@, 0, path.push(n));
    }
}

proof fn lemma_expansion_of_phases_has_no_references(
    ws: Seq<WorkflowDefinition>,
    phases: Seq<WorkflowPhaseEntry>,
    k: int,
    path: Seq<Seq<char>>,
)
    requires
        0 <= k,
    ensures
        expansion_of_phases(ws, phases, k, path) matches Ok(entries) ==> no_references(entries),
    decreases unvisited(ws, path), phases.len() - k + 1,
{
    if k < phases.len() {
        if let WorkflowPhaseEntry::SubWorkflow(sub) = phases[k] {
            expansion_has_no_references(ws, sub.workflow_ref@, path);
        }
        lemma_expansion_of_phases_has_no_references(ws, phases, k + 1, path);
    }
}

/// A workflow without sub-workflow references expands to its own entries.
pub proof fn plain_workflow_expands_to_itself(
    ws: Seq<WorkflowDefinition>,
    workflow_ref: Seq<char>,
    i: int,
)
    requires
        is_first_with_id(ws, workflow_ref, i),
        no_references(entry_views(ws[i].phases@)),
    ensures
        expansion(ws, workflow_ref, Seq::empty()) == Ok::<
            Seq<WorkflowPhaseEntryView>,
            WorkflowRefErrorView,
        >(entry_views(ws[i].phases@)),
{
    lookup_finds_the_first(ws, workflow_ref);
    lemma_plain_phases(ws, ws[i].phases@, 0, Seq::empty().push(lower(workflow_ref)));
    assert(entry_views(ws[i].phases@).skip(0) =~= entry_views(ws[i].phases@));
}

proof fn lemma_plain_phases(
    ws: Seq<WorkflowDefinition>,
    phases: Seq<WorkflowPhaseEntry>,
    k: int,
    path: Seq<Seq<char>>,
)
    requires
        0 <= k <= phases.len(),
        no_references(entry_views(phases)),
    ensures
        expansion_of_phases(ws, phases, k, path) == Ok::<
            Seq<WorkflowPhaseEntryView>,
            WorkflowRefErrorView,
        >(entry_views(phases).skip(k)),
    decreases phases.len() - k,
{
    if k < phases.len() {
        lemma_plain_phases(ws, phases, k + 1, path);
        assert(!(entry_views(phases)[k] is SubWorkflow));
        assert(entry_views(phases).skip(k) =~= seq![phases[k]@] + entry_views(phases).skip(k + 1));
    } else {
        assert(entry_views(phases).skip(k) =~= Seq::empty());
    }
}

proof fn lemma_every_reference_expands(
    ws: Seq<WorkflowDefinition>,
    phases: Seq<WorkflowPhaseEntry>,
    k: int,
    path: Seq<Seq<char>>,
    j: int,
)
    requires
        0 <= k <= j < phases.len(),
        expansion_of_phases(ws, phases, k, path) is Ok,
    ensures
        phases[j] matches WorkflowPhaseEntry::SubWorkflow(sub) ==> expansion(
            ws,
            sub.workflow_ref@,
            path,
        ) is Ok,
    decreases j - k,
{
    if k < j {
        lemma_every_reference_expands(ws, phases, k + 1, path, j);
    }
}

/// A workflow that refers to itself, in whatever ASCII case, has no expansion.
pub proof fn self_reference_has_no_expansion(
    ws: Seq<WorkflowDefinition>,
    workflow_ref: Seq<char>,
    i: int,
    j: int,
)
    requires
        is_first_with_id(ws, workflow_ref, i),
        0 <= j < ws[i].phases@.len(),
        ws[i].phases@[j] matches WorkflowPhaseEntry::SubWorkflow(sub) && same_ignoring_case(
            sub.workflow_ref@,
            workflow_ref,
        ),
    ensures
        expansion(ws, workflow_ref, Seq::empty()) is Err,
{
    lookup_finds_the_first(ws, workflow_ref);
    let path = Seq::empty().push(lower(workflow_ref));
    if expansion_of_phases(ws, ws[i].phases@, 0, path) is Ok {
        lemma_every_reference_expands(ws, ws[i].phases@, 0, path, j);
        assert(path[0] == lower(workflow_ref));
    }
}

/// Each reached workflow is listed once, and the one asked for comes first.
pub open spec fn is_listing(c: Collected) -> bool {
    &&& c.seen.len() == c.refs.len()
    &&& forall|i: int| 0 <= i < c.refs.len() ==> lower(#[trigger] c.refs[i]) == c.seen[i]
    &&& forall|i: int, j: int|
        0 <= i < j < c.seen.len() ==> #[trigger] c.seen[i] != #[trigger] c.seen[j]
}

/// Every workflow that a reference reaches is listed once, whatever the ASCII
/// case it is referred to by, and the one asked for is listed first.
pub proof fn collection_lists_each_once(ws: Seq<WorkflowDefinition>, workflow_ref: Seq<char>)
    ensures
        collection(
            ws,
            workflow_ref,
            Seq::empty(),
            (Collected { seen: Seq::empty(), refs: Seq::empty() }),
        ) matches Ok(all) ==> is_listing(all) && all.refs.len() > 0 && same_ignoring_case(
            all.refs[0],
            workflow_ref,
        ),
{
    let none = Collected { seen: Seq::empty(), refs: Seq::empty() };
    lemma_collection_keeps_listing(ws, workflow_ref, Seq::empty(), none);
    lookup_finds_the_first(ws, workflow_ref);
    if lookup(ws, workflow_ref) is Some {
        let i = lookup(ws, workflow_ref)->0;
        let n = lower(workflow_ref);
        let first = Collected { seen: none.seen.push(n), refs: none.refs.push(ws[i].id@) };
        lemma_unvisited_decreases(ws, Seq::empty(), n, i);
        lemma_collection_of_phases_keeps_listing(
            ws,
            ws[i].phases@,
            0,
            Seq::empty().push(n),
            first,
        );
        if let Ok(all) = collection_of_phases(
            ws,
            ws[i].phases@,
            0,
            Seq::empty().push(n),
            first,
        ) {
            assert(all.refs.subrange(0, 1)[0] == first.refs[0]);
        }
    }
}

proof fn lemma_collection_keeps_listing(
    ws: Seq<WorkflowDefinition>,
    workflow_ref: Seq<char>,
    path: Seq<Seq<char>>,
    so_far: Collected,
)
    requires
        is_listing(so_far),
    ensures
        collection(ws, workflow_ref, path, so_far) matches Ok(all) ==> is_listing(all)
            && so_far.refs.is_prefix_of(all.refs),
    decreases unvisited(ws, path), 0int,
{
    lookup_finds_the_first(ws, workflow_ref);
    let n = lower(workflow_ref);
    if !path.contains(n) && lookup(ws, workflow_ref) is Some && !so_far.seen.contains(n) {
        let i = lookup(ws, workflow_ref)->0;
        lemma_unvisited_decreases(ws, path, n, i);
        let next = Collected { seen: so_far.seen.push(n), refs: so_far.refs.push(ws[i].id@) };
        assert(is_listing(next)) by {
            assert forall|a: int, b: int|
                0 <= a < b < next.seen.len() implies #[trigger] next.seen[a]
                != #[trigger] next.seen[b] by {
                if b == so_far.seen.len() {
                    if next.seen[a] == n {
                        assert(so_far.seen.contains(n));
                    }
                }
            }
        }
        lemma_collection_of_phases_keeps_listing(ws, ws[i].phases@, 0, path.push(n), next);
    }
}

proof fn lemma_collection_of_phases_keeps_listing(
    ws: Seq<WorkflowDefinition>,
    phases: Seq<WorkflowPhaseEntry>,
    k: int,
    path: Seq<Seq<char>>,
    so_far: Collected,
)
    requires
        0 <= k,
        is_listing(so_far),
    ensures
        collection_of_phases(ws, phases, k, path, so_far) matches Ok(all) ==> is_listing(all)
            && so_far.refs.is_prefix_of(all.refs),
    decreases unvisited(ws, path), phases.len() - k + 1,
{
    if k < phases.len() {
        let after = match phases[k] {
            WorkflowPhaseEntry::SubWorkflow(sub) => collection(ws, sub.workflow_ref@, path, so_far),
            _ => Ok(so_far),
        };
        if let WorkflowPhaseEntry::SubWorkflow(sub) = phases[k] {
            lemma_collection_keeps_listing(ws, sub.workflow_ref@, path, so_far);
        }
        if let Ok(more) = after {
            lemma_collection_of_phases_keeps_listing(ws, phases, k + 1, path, more);
        }
    }
}

// ---------------------------------------------------------------------
// Laws of expansion
// ---------------------------------------------------------------------

spec fn holds_all(path: Seq<Seq<char>>, sub: Seq<Seq<char>>) -> bool {
    forall|t: Seq<char>| #[trigger] sub.contains(t) ==> path.contains(t)
}

proof fn lemma_holds_all_push(path: Seq<Seq<char>>, sub: Seq<Seq<char>>, n: Seq<char>)
    requires
        holds_all(path, sub),
    ensures
        holds_all(path.push(n), sub.push(n)),
{
    assert forall|t: Seq<char>| #[trigger] sub.push(n).contains(t) implies path.push(n).contains(
        t,
    ) by {
        let k = sub.push(n).index_of(t);
        if k < sub.len() {
            assert(sub[k] == t);
            assert(sub.contains(t));
            let j = path.index_of(t);
            assert(path.push(n)[j] == t);
        } else {
            assert(path.push(n)[path.len() as int] == t);
        }
    }
}

/// What expands while some workflows are being followed expands to the same while
/// fewer are.
proof fn lemma_expands_elsewhere(
    ws: Seq<WorkflowDefinition>,
    workflow_ref: Seq<char>,
    path: Seq<Seq<char>>,
    sub: Seq<Seq<char>>,
)
    requires
        holds_all(path, sub),
        expansion(ws, workflow_ref, path) is Ok,
    ensures
        expansion(ws, workflow_ref, sub) == expansion(ws, workflow_ref, path),
    decreases unvisited(ws, path), 0int,
{
    lookup_finds_the_first(ws, workflow_ref);
    let n = lower(workflow_ref);
    let i = lookup(ws, workflow_ref)->0;
    assert(!sub.contains(n));
    lemma_unvisited_decreases(ws, path, n, i);
    lemma_holds_all_push(path, sub, n);
    lemma_phases_expand_elsewhere(ws, ws[i].phases@, 0, path.push(n), sub.push(n));
}

proof fn lemma_phases_expand_elsewhere(
    ws: Seq<WorkflowDefinition>,
    phases: Seq<WorkflowPhaseEntry>,
    k: int,
    path: Seq<Seq<char>>,
    sub: Seq<Seq<char>>,
)
    requires
        0 <= k,
        holds_all(path, sub),
        expansion_of_phases(ws, phases, k, path) is Ok,
    ensures
        expansion_of_phases(ws, phases, k, sub) == expansion_of_phases(ws, phases, k, path),
    decreases unvisited(ws, path), phases.len() - k + 1,
{
    if k < phases.len() {
        if let WorkflowPhaseEntry::SubWorkflow(entry) = phases[k] {
            lemma_expands_elsewhere(ws, entry.workflow_ref@, path, sub);
        }
        lemma_phases_expand_elsewhere(ws, phases, k + 1, path, sub);
    }
}

/// The expansion of entries in two parts is that of the parts, one after the
/// other.
proof fn lemma_phases_in_two_parts(
    ws: Seq<WorkflowDefinition>,
    front: Seq<WorkflowPhaseEntry>,
    back: Seq<WorkflowPhaseEntry>,
    k: int,
    path: Seq<Seq<char>>,
)
    requires
        0 <= k <= front.len() + back.len(),
    ensures
        k >= front.len() ==> expansion_of_phases(ws, front + back, k, path) == expansion_of_phases(
            ws,
            back,
            k - front.len(),
            path,
        ),
        k < front.len() ==> expansion_of_phases(ws, front + back, k, path) == (
        match expansion_of_phases(ws, front, k, path) {
            Err(e) => Err(e),
            Ok(a) => match expansion_of_phases(ws, back, 0, path) {
                Err(e) => Err(e),
                Ok(b) => Ok(a + b),
            },
        }),
    decreases front.len() + back.len() - k,
{
    let whole = front + back;
    if k < whole.len() {
        lemma_phases_in_two_parts(ws, front, back, k + 1, path);
        if k < front.len() {
            assert(whole[k] == front[k]);
            let head = match front[k] {
                WorkflowPhaseEntry::SubWorkflow(sub) => expansion(ws, sub.workflow_ref@, path),
                other => Ok(seq![other@]),
            };
            if k + 1 == front.len() {
                assert(expansion_of_phases(ws, front, k + 1, path) == Ok::<
                    Seq<WorkflowPhaseEntryView>,
                    WorkflowRefErrorView,
                >(Seq::empty()));
                if let Ok(b) = expansion_of_phases(ws, back, 0, path) {
                    if let Ok(h) = head {
                        assert(h + b =~= (h + Seq::<WorkflowPhaseEntryView>::empty()) + b);
                    }
                }
            } else {
                if let Ok(h) = head {
                    if let Ok(a) = expansion_of_phases(ws, front, k + 1, path) {
                        if let Ok(b) = expansion_of_phases(ws, back, 0, path) {
                            assert(h + (a + b) =~= (h + a) + b);
                        }
                    }
                }
            }
        } else {
            assert(whole[k] == back[k - front.len()]);
        }
    }
}

proof fn lemma_first_is_one(ws: Seq<WorkflowDefinition>, id: Seq<char>, i: int)
    requires
        is_first_with_id(ws, id, i),
    ensures
        lookup(ws, id) == Some(i),
{
    lookup_finds_the_first(ws, id);
}

/// No phase is lost and none is made up: a reference among other entries stands
/// for the whole expansion of the workflow that it names, and the entries around
/// it stay, in their order.
pub proof fn a_reference_stands_for_its_whole_expansion(
    ws: Seq<WorkflowDefinition>,
    workflow_ref: Seq<char>,
    i: int,
    front: Seq<WorkflowPhaseEntry>,
    sub: SubWorkflowRef,
    back: Seq<WorkflowPhaseEntry>,
)
    requires
        is_first_with_id(ws, workflow_ref, i),
        ws[i].phases@ == front + seq![WorkflowPhaseEntry::SubWorkflow(sub)] + back,
        no_references(entry_views(front)),
        no_references(entry_views(back)),
    ensures
        expansion(ws, workflow_ref, Seq::empty()) matches Ok(all) ==> (expansion(
            ws,
            sub.workflow_ref@,
            Seq::empty(),
        ) matches Ok(inner) && all == entry_views(front) + inner + entry_views(back)),
{
    lemma_first_is_one(ws, workflow_ref, i);
    let path = Seq::empty().push(lower(workflow_ref));
    let middle = seq![WorkflowPhaseEntry::SubWorkflow(sub)];
    let rest = middle + back;
    assert(ws[i].phases@ =~= front + rest);
    if let Ok(all) = expansion(ws, workflow_ref, Seq::empty()) {
        lemma_phases_in_two_parts(ws, front, rest, 0, path);
        lemma_phases_in_two_parts(ws, middle, back, 0, path);
        lemma_plain_phases(ws, front, 0, path);
        lemma_plain_phases(ws, back, 0, path);
        assert(entry_views(front).skip(0) =~= entry_views(front));
        assert(entry_views(back).skip(0) =~= entry_views(back));
        let none = Seq::<Seq<char>>::empty();
        assert(expansion_of_phases(ws, rest, 0, path) is Ok) by {
            if front.len() == 0 {
                assert(front + rest =~= rest);
            }
        }
        assert(expansion_of_phases(ws, middle, 0, path) is Ok);
        assert(middle[0] == WorkflowPhaseEntry::SubWorkflow(sub));
        assert(expansion(ws, sub.workflow_ref@, path) is Ok);
        assert(holds_all(path, none));
        lemma_expands_elsewhere(ws, sub.workflow_ref@, path, none);
        let inner = expansion(ws, sub.workflow_ref@, path)->Ok_0;
        assert(expansion_of_phases(ws, middle, 1, path) == Ok::<
            Seq<WorkflowPhaseEntryView>,
            WorkflowRefErrorView,
        >(Seq::empty()));
        assert(expansion_of_phases(ws, middle, 0, path)->Ok_0 =~= inner);
        assert(expansion_of_phases(ws, rest, 0, path)->Ok_0 =~= inner + entry_views(back));
        if front.len() == 0 {
            assert(front + rest =~= rest);
            assert(all =~= entry_views(front) + inner + entry_views(back));
        } else {
            assert(all =~= entry_views(front) + inner + entry_views(back));
        }
    }
}

/// Expansion goes by entries: a workflow whose entries are those of one workflow
/// followed by those of another expands to their expansions, one after the other.
pub proof fn expansions_add_up(
    ws: Seq<WorkflowDefinition>,
    whole_ref: Seq<char>,
    front_ref: Seq<char>,
    back_ref: Seq<char>,
    w: int,
    f: int,
    b: int,
)
    requires
        is_first_with_id(ws, whole_ref, w),
        is_first_with_id(ws, front_ref, f),
        is_first_with_id(ws, back_ref, b),
        ws[w].phases@ == ws[f].phases@ + ws[b].phases@,
        expansion(ws, whole_ref, Seq::empty()) is Ok,
        expansion(ws, front_ref, Seq::empty()) is Ok,
        expansion(ws, back_ref, Seq::empty()) is Ok,
    ensures
        expansion(ws, whole_ref, Seq::empty())->Ok_0 == expansion(
            ws,
            front_ref,
            Seq::empty(),
        )->Ok_0 + expansion(ws, back_ref, Seq::empty())->Ok_0,
{
    lemma_first_is_one(ws, whole_ref, w);
    lemma_first_is_one(ws, front_ref, f);
    lemma_first_is_one(ws, back_ref, b);
    let none = Seq::<Seq<char>>::empty();
    let pw = none.push(lower(whole_ref));
    let pf = none.push(lower(front_ref));
    let pb = none.push(lower(back_ref));
    let front = ws[f].phases@;
    let back = ws[b].phases@;
    lemma_phases_in_two_parts(ws, front, back, 0, pw);
    lemma_phases_expand_elsewhere(ws, front, 0, pf, none);
    lemma_phases_expand_elsewhere(ws, back, 0, pb, none);
    if front.len() > 0 {
        lemma_phases_expand_elsewhere(ws, front, 0, pw, none);
    } else {
        assert(front + back =~= back);
    }
    lemma_phases_expand_elsewhere(ws, back, 0, pw, none);
    assert(expansion(ws, whole_ref, none)->Ok_0 =~= expansion(ws, front_ref, none)->Ok_0
        + expansion(ws, back_ref, none)->Ok_0);
}

/// Whether every reference in the workflows names a workflow, and one of a lower
/// rank than the workflow it stands in. So no reference leads back.
pub open spec fn references_go_down(
    ws: Seq<WorkflowDefinition>,
    rank: spec_fn(Seq<char>) -> nat,
) -> bool {
    forall|i: int, j: int|
        #![trigger ws[i].phases@[j]]
        0 <= i < ws.len() && 0 <= j < ws[i].phases@.len() ==> (
        ws[i].phases@[j] matches WorkflowPhaseEntry::SubWorkflow(sub) ==> rank(
            lower(sub.workflow_ref@),
        ) < rank(lower(ws[i].id@)) && exists|t: int| #[trigger]
            is_first_with_id(ws, sub.workflow_ref@, t))
}

/// Where every reference names a workflow and none leads back, every workflow has
/// an expansion.
pub proof fn references_without_cycles_expand(
    ws: Seq<WorkflowDefinition>,
    rank: spec_fn(Seq<char>) -> nat,
    workflow_ref: Seq<char>,
    i: int,
)
    requires
        references_go_down(ws, rank),
        is_first_with_id(ws, workflow_ref, i),
    ensures
        expansion(ws, workflow_ref, Seq::empty()) is Ok,
{
    lemma_descends(ws, rank, workflow_ref, Seq::empty());
}

proof fn lemma_descends(
    ws: Seq<WorkflowDefinition>,
    rank: spec_fn(Seq<char>) -> nat,
    workflow_ref: Seq<char>,
    path: Seq<Seq<char>>,
)
    requires
        references_go_down(ws, rank),
        exists|t: int| #[trigger] is_first_with_id(ws, workflow_ref, t),
        forall|k: int| 0 <= k < path.len() ==> rank(#[trigger] path[k]) > rank(lower(workflow_ref)),
    ensures
        expansion(ws, workflow_ref, path) is Ok,
    decreases unvisited(ws, path), 0int,
{
    let t = choose|t: int| #[trigger] is_first_with_id(ws, workflow_ref, t);
    lemma_first_is_one(ws, workflow_ref, t);
    let n = lower(workflow_ref);
    if path.contains(n) {
        let k = path.index_of(n);
        assert(rank(path[k]) > rank(n));
    }
    lemma_unvisited_decreases(ws, path, n, t);
    lemma_phases_descend(ws, rank, t, 0, path.push(n));
}

proof fn lemma_phases_descend(
    ws: Seq<WorkflowDefinition>,
    rank: spec_fn(Seq<char>) -> nat,
    i: int,
    k: int,
    path: Seq<Seq<char>>,
)
    requires
        references_go_down(ws, rank),
        0 <= i < ws.len(),
        0 <= k,
        forall|j: int|
            0 <= j < path.len() ==> rank(#[trigger] path[j]) >= rank(lower(ws[i].id@)),
    ensures
        expansion_of_phases(ws, ws[i].phases@, k, path) is Ok,
    decreases unvisited(ws, path), ws[i].phases@.len() - k + 1,
{
    if k < ws[i].phases@.len() {
        if let WorkflowPhaseEntry::SubWorkflow(sub) = ws[i].phases@[k] {
            lemma_descends(ws, rank, sub.workflow_ref@, path);
        }
        lemma_phases_descend(ws, rank, i, k + 1, path);
    }
}

/// What stops an expansion is told: a workflow that is not there, whether asked
/// for or referred to behind plain entries, and a workflow that refers to itself.
pub proof fn broken_references_are_told(
    ws: Seq<WorkflowDefinition>,
    workflow_ref: Seq<char>,
    i: int,
    j: int,
)
    ensures
        (forall|k: int| 0 <= k < ws.len() ==> !same_ignoring_case((#[trigger] ws[k]).id@, workflow_ref))
            ==> expansion(ws, workflow_ref, Seq::empty()) == Err::<
            Seq<WorkflowPhaseEntryView>,
            WorkflowRefErrorView,
        >(WorkflowRefErrorView::NotFound(workflow_ref)),
        is_first_with_id(ws, workflow_ref, i) && 0 <= j < ws[i].phases@.len() && no_references(
            entry_views(ws[i].phases@.take(j)),
        ) ==> (ws[i].phases@[j] matches WorkflowPhaseEntry::SubWorkflow(sub) ==> (
        same_ignoring_case(sub.workflow_ref@, workflow_ref) ==> expansion(
            ws,
            workflow_ref,
            Seq::empty(),
        ) == Err::<Seq<WorkflowPhaseEntryView>, WorkflowRefErrorView>(
            WorkflowRefErrorView::Circular(sub.workflow_ref@, seq![lower(workflow_ref)]),
        )) && ((forall|k: int|
            0 <= k < ws.len() ==> !same_ignoring_case((#[trigger] ws[k]).id@, sub.workflow_ref@))
            ==> expansion(ws, workflow_ref, Seq::empty()) == Err::<
            Seq<WorkflowPhaseEntryView>,
            WorkflowRefErrorView,
        >(WorkflowRefErrorView::NotFound(sub.workflow_ref@)))),
{
    lookup_finds_the_first(ws, workflow_ref);
    if is_first_with_id(ws, workflow_ref, i) && 0 <= j < ws[i].phases@.len() && no_references(
        entry_views(ws[i].phases@.take(j)),
    ) {
        if let WorkflowPhaseEntry::SubWorkflow(sub) = ws[i].phases@[j] {
            let phases = ws[i].phases@;
            let path = Seq::empty().push(lower(workflow_ref));
            assert(path =~= seq![lower(workflow_ref)]);
            lookup_finds_the_first(ws, sub.workflow_ref@);
            assert(phases =~= phases.take(j) + phases.skip(j));
            lemma_phases_in_two_parts(ws, phases.take(j), phases.skip(j), 0, path);
            lemma_plain_phases(ws, phases.take(j), 0, path);
            assert(phases.skip(j)[0] == phases[j]);
            if same_ignoring_case(sub.workflow_ref@, workflow_ref) {
                assert(path[0] == lower(sub.workflow_ref@));
                assert(path.contains(lower(sub.workflow_ref@)));
            } else if forall|k: int|
                0 <= k < ws.len() ==> !same_ignoring_case(
                    (#[trigger] ws[k]).id@,
                    sub.workflow_ref@,
                ) {
                assert(lookup(ws, sub.workflow_ref@) is None);
                if path.contains(lower(sub.workflow_ref@)) {
                    assert(path[0] == lower(sub.workflow_ref@));
                    assert(same_ignoring_case(ws[i].id@, sub.workflow_ref@));
                }
            }
            lemma_first_is_one(ws, workflow_ref, i);
            assert(expansion(ws, workflow_ref, Seq::empty()) == expansion_of_phases(
                ws,
                phases,
                0,
                path,
            ));
            let inner = expansion(ws, sub.workflow_ref@, path);
            if inner is Err {
                assert(expansion_of_phases(ws, phases.skip(j), 0, path) == inner);
                assert(expansion_of_phases(ws, phases, 0, path) == inner);
            }
            if same_ignoring_case(sub.workflow_ref@, workflow_ref) {
                assert(same_ignoring_case(ws[i].id@, sub.workflow_ref@));
            }
        }
    }
}

// ---------------------------------------------------------------------
// Laws of collection
// ---------------------------------------------------------------------

/// Whether the first workflow with one id refers to another id.
pub open spec fn refers_to(ws: Seq<WorkflowDefinition>, from: Seq<char>, to: Seq<char>) -> bool {
    exists|i: int, j: int|
        #![trigger ws[i].phases@[j]]
        is_first_with_id(ws, from, i) && 0 <= j < ws[i].phases@.len() && (
        ws[i].phases@[j] matches WorkflowPhaseEntry::SubWorkflow(sub) && same_ignoring_case(
            sub.workflow_ref@,
            to,
        ))
}

/// Whether everything that a workflow refers to has been seen.
spec fn followed(ws: Seq<WorkflowDefinition>, id: Seq<char>, seen: Seq<Seq<char>>) -> bool {
    forall|i: int, j: int|
        #![trigger ws[i].phases@[j]]
        is_first_with_id(ws, id, i) && 0 <= j < ws[i].phases@.len() ==> (
        ws[i].phases@[j] matches WorkflowPhaseEntry::SubWorkflow(sub) ==> seen.contains(
            lower(sub.workflow_ref@),
        ))
}

/// Whether the item at `m` is an id of the workflows that an earlier item refers
/// to.
spec fn was_referred_to(ws: Seq<WorkflowDefinition>, refs: Seq<Seq<char>>, m: int) -> bool {
    exists|k: int| 0 <= k < m && refers_to(ws, #[trigger] refs[k], refs[m])
}

/// Whether what was collected after `so_far` is complete and sound.
spec fn collected_well(ws: Seq<WorkflowDefinition>, so_far: Collected, all: Collected) -> bool {
    &&& is_listing(all)
    &&& so_far.refs.len() <= all.refs.len()
    &&& forall|k: int| 0 <= k < so_far.refs.len() ==> #[trigger] all.refs[k] == so_far.refs[k]
    &&& forall|k: int| 0 <= k < so_far.seen.len() ==> #[trigger] all.seen[k] == so_far.seen[k]
    &&& forall|k: int|
        so_far.refs.len() <= k < all.refs.len() ==> followed(ws, #[trigger] all.refs[k], all.seen)
}

proof fn lemma_followed_further(
    ws: Seq<WorkflowDefinition>,
    id: Seq<char>,
    seen: Seq<Seq<char>>,
    more: Seq<Seq<char>>,
)
    requires
        followed(ws, id, seen),
        seen.len() <= more.len(),
        forall|k: int| 0 <= k < seen.len() ==> #[trigger] more[k] == seen[k],
    ensures
        followed(ws, id, more),
{
    assert forall|i: int, j: int|
        #![trigger ws[i].phases@[j]]
        is_first_with_id(ws, id, i) && 0 <= j < ws[i].phases@.len() implies (
    ws[i].phases@[j] matches WorkflowPhaseEntry::SubWorkflow(sub) ==> more.contains(
        lower(sub.workflow_ref@),
    )) by {
        if let WorkflowPhaseEntry::SubWorkflow(sub) = ws[i].phases@[j] {
            let k = seen.index_of(lower(sub.workflow_ref@));
            assert(seen.contains(lower(sub.workflow_ref@)));
            assert(more[k] == seen[k]);
        }
    }
}

proof fn lemma_collects(
    ws: Seq<WorkflowDefinition>,
    workflow_ref: Seq<char>,
    path: Seq<Seq<char>>,
    so_far: Collected,
)
    requires
        is_listing(so_far),
    ensures
        collection(ws, workflow_ref, path, so_far) matches Ok(all) ==> collected_well(
            ws,
            so_far,
            all,
        ) && all.seen.contains(lower(workflow_ref)) && (forall|m: int|
            so_far.refs.len() < m < all.refs.len() ==> #[trigger] was_referred_to(ws, all.refs, m))
            && (so_far.refs.len() < all.refs.len() ==> same_ignoring_case(
            all.refs[so_far.refs.len() as int],
            workflow_ref,
        )),
    decreases unvisited(ws, path), 0int,
{
    lookup_finds_the_first(ws, workflow_ref);
    let n = lower(workflow_ref);
    if !path.contains(n) && lookup(ws, workflow_ref) is Some && !so_far.seen.contains(n) {
        let i = lookup(ws, workflow_ref)->0;
        lemma_unvisited_decreases(ws, path, n, i);
        let next = Collected { seen: so_far.seen.push(n), refs: so_far.refs.push(ws[i].id@) };
        assert(is_listing(next)) by {
            assert forall|a: int, b: int|
                0 <= a < b < next.seen.len() implies #[trigger] next.seen[a]
                != #[trigger] next.seen[b] by {
                if b == so_far.seen.len() && next.seen[a] == n {
                    assert(so_far.seen.contains(n));
                }
            }
        }
        let at = so_far.refs.len() as int;
        assert(is_first_with_id(ws, next.refs[at], i));
        lemma_collects_phases(ws, i, 0, path.push(n), next, at);
        if let Ok(all) = collection_of_phases(ws, ws[i].phases@, 0, path.push(n), next) {
            assert(all.refs[at] == next.refs[at]);
            assert(all.seen[at] == next.seen[at]);
            assert(followed(ws, all.refs[at], all.seen)) by {
                assert forall|a: int, b: int|
                    #![trigger ws[a].phases@[b]]
                    is_first_with_id(ws, all.refs[at], a) && 0 <= b < ws[a].phases@.len() implies (
                ws[a].phases@[b] matches WorkflowPhaseEntry::SubWorkflow(sub)
                    ==> all.seen.contains(lower(sub.workflow_ref@))) by {
                    lemma_first_is_one(ws, all.refs[at], a);
                    lemma_first_is_one(ws, all.refs[at], i);
                    assert(a == i);
                }
            }
            assert forall|k: int| so_far.refs.len() <= k < all.refs.len() implies followed(
                ws,
                #[trigger] all.refs[k],
                all.seen,
            ) by {}
            assert forall|k: int| 0 <= k < so_far.refs.len() implies #[trigger] all.refs[k]
                == so_far.refs[k] by {
                assert(all.refs[k] == next.refs[k]);
            }
            assert forall|k: int| 0 <= k < so_far.seen.len() implies #[trigger] all.seen[k]
                == so_far.seen[k] by {
                assert(all.seen[k] == next.seen[k]);
            }
        }
    }
}

proof fn lemma_collects_phases(
    ws: Seq<WorkflowDefinition>,
    i: int,
    k: int,
    path: Seq<Seq<char>>,
    so_far: Collected,
    at: int,
)
    requires
        0 <= k,
        is_listing(so_far),
        0 <= at < so_far.refs.len(),
        is_first_with_id(ws, so_far.refs[at], i),
    ensures
        collection_of_phases(ws, ws[i].phases@, k, path, so_far) matches Ok(all) ==> collected_well(
            ws,
            so_far,
            all,
        ) && (forall|j: int|
            k <= j < ws[i].phases@.len() ==> (
            #[trigger] ws[i].phases@[j] matches WorkflowPhaseEntry::SubWorkflow(sub)
                ==> all.seen.contains(lower(sub.workflow_ref@)))) && (forall|m: int|
            so_far.refs.len() <= m < all.refs.len() ==> #[trigger] was_referred_to(
                ws,
                all.refs,
                m,
            )),
    decreases unvisited(ws, path), ws[i].phases@.len() - k + 1,
{
    let phases = ws[i].phases@;
    if k < phases.len() {
        let after = match phases[k] {
            WorkflowPhaseEntry::SubWorkflow(sub) => collection(ws, sub.workflow_ref@, path, so_far),
            _ => Ok(so_far),
        };
        if let WorkflowPhaseEntry::SubWorkflow(sub) = phases[k] {
            lemma_collects(ws, sub.workflow_ref@, path, so_far);
        }
        if let Ok(more) = after {
            assert(more.refs[at] == so_far.refs[at]);
            lemma_collects_phases(ws, i, k + 1, path, more, at);
            if let Ok(all) = collection_of_phases(ws, phases, k + 1, path, more) {
                assert forall|x: int| so_far.refs.len() <= x < all.refs.len() implies followed(
                    ws,
                    #[trigger] all.refs[x],
                    all.seen,
                ) by {
                    if x < more.refs.len() {
                        assert(all.refs[x] == more.refs[x]);
                        lemma_followed_further(ws, more.refs[x], more.seen, all.seen);
                    }
                }
                assert forall|x: int| 0 <= x < so_far.refs.len() implies #[trigger] all.refs[x]
                    == so_far.refs[x] by {
                    assert(all.refs[x] == more.refs[x]);
                }
                assert forall|x: int| 0 <= x < so_far.seen.len() implies #[trigger] all.seen[x]
                    == so_far.seen[x] by {
                    assert(all.seen[x] == more.seen[x]);
                }
                if let WorkflowPhaseEntry::SubWorkflow(sub) = phases[k] {
                    let x = more.seen.index_of(lower(sub.workflow_ref@));
                    assert(all.seen[x] == more.seen[x]);
                    assert(all.seen.contains(lower(sub.workflow_ref@)));
                    let first = so_far.refs.len() as int;
                    if first < more.refs.len() {
                        assert(all.refs[first] == more.refs[first]);
                        assert(same_ignoring_case(sub.workflow_ref@, all.refs[first]));
                        assert(ws[i].phases@[k] == phases[k]);
                        assert(all.refs[at] == so_far.refs[at]);
                        assert(refers_to(ws, all.refs[at], all.refs[first]));
                        assert(was_referred_to(ws, all.refs, first));
                    }
                }
                assert forall|m: int| so_far.refs.len() <= m < all.refs.len() implies
                    #[trigger] was_referred_to(ws, all.refs, m) by {
                    if so_far.refs.len() < m < more.refs.len() {
                        assert(was_referred_to(ws, more.refs, m));
                        let y = choose|y: int|
                            0 <= y < m && refers_to(ws, #[trigger] more.refs[y], more.refs[m]);
                        assert(all.refs[y] == more.refs[y]);
                        assert(all.refs[m] == more.refs[m]);
                    }
                }
            }
        }
    }
}

/// The workflows listed are those that are reached: everything that a listed one
/// refers to is listed, whatever its ASCII case, and each but the first is
/// referred to by one that is listed before it.
pub proof fn collection_lists_what_is_reached(
    ws: Seq<WorkflowDefinition>,
    workflow_ref: Seq<char>,
    k: int,
    to: Seq<char>,
)
    ensures
        collection(
            ws,
            workflow_ref,
            Seq::empty(),
            (Collected { seen: Seq::empty(), refs: Seq::empty() }),
        ) matches Ok(all) ==> (0 <= k < all.refs.len() && refers_to(ws, all.refs[k], to) ==> exists|
            m: int,
        |
            0 <= m < all.refs.len() && same_ignoring_case(#[trigger] all.refs[m], to)) && (0 < k
            < all.refs.len() ==> exists|m: int|
            0 <= m < k && refers_to(ws, #[trigger] all.refs[m], all.refs[k])),
{
    let none = Collected { seen: Seq::empty(), refs: Seq::empty() };
    lemma_collects(ws, workflow_ref, Seq::empty(), none);
    if let Ok(all) = collection(ws, workflow_ref, Seq::empty(), none) {
        if 0 <= k < all.refs.len() && refers_to(ws, all.refs[k], to) {
            assert(followed(ws, all.refs[k], all.seen));
            let (i, j) = choose|i: int, j: int|
                #![trigger ws[i].phases@[j]]
                is_first_with_id(ws, all.refs[k], i) && 0 <= j < ws[i].phases@.len() && (
                ws[i].phases@[j] matches WorkflowPhaseEntry::SubWorkflow(sub) && same_ignoring_case(
                    sub.workflow_ref@,
                    to,
                ));
            let sub = ws[i].phases@[j]->SubWorkflow_0;
            let m = all.seen.index_of(lower(sub.workflow_ref@));
            assert(all.seen.contains(lower(sub.workflow_ref@)));
            assert(lower(all.refs[m]) == all.seen[m]);
            assert(same_ignoring_case(all.refs[m], to));
        }
        if 0 < k < all.refs.len() {
            assert(was_referred_to(ws, all.refs, k));
        }
    }
}

/// The text of an error names the reference, and where it leads back, the way that
/// led there.
pub proof fn errors_name_the_reference(workflow_ref: Seq<char>, visited: Seq<Seq<char>>)
    ensures
        ref_error_message(WorkflowRefErrorView::NotFound(workflow_ref)) == "sub-workflow '"@
            + workflow_ref + "' not found"@,
        ref_error_message(WorkflowRefErrorView::Circular(workflow_ref, visited))
            == "circular sub-workflow reference detected: '"@ + workflow_ref + "' (visited: "@
            + joined(visited, " -> "@) + ")"@,
{
}

} // verus!
