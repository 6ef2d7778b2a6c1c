//! Merging of workflow configurations: a parsed overlay onto a base.

use vstd::prelude::*;

use crate::config::agent_types::{
    declared_opt, layered, layering_is_associative, layering_is_idempotent, AgentProfileOverlay,
};
use crate::config::workflow_types::{
    DaemonConfig, IntegrationsConfig, WorkflowConfig, WorkflowDefinition, WorkflowSchedule,
    WorkflowTrigger, WORKFLOW_CONFIG_SCHEMA_ID, WORKFLOW_CONFIG_VERSION,
};
use crate::lists::reversed;
use crate::text::{same_ignoring_case, same_text_ignoring_case, texts};
use crate::text_map::{ascending, entries_map, lemma_ascending_determined, TextMap};

verus! {

// ---------------------------------------------------------------------
// Lists of named items
// ---------------------------------------------------------------------

/// An item of a list that is found by its id.
pub trait Identified {
    /// The item's id.
    spec fn id_view(&self) -> Seq<char>;

    /// The item's id.
    fn id_text(&self) -> (r: &str)
        ensures
            r@ == self.id_view(),
    ;
}

impl Identified for WorkflowDefinition {
    open spec fn id_view(&self) -> Seq<char> {
        self.id@
    }

    fn id_text(&self) -> (r: &str) {
        self.id.as_str()
    }
}

impl Identified for WorkflowSchedule {
    open spec fn id_view(&self) -> Seq<char> {
        self.id@
    }

    fn id_text(&self) -> (r: &str) {
        self.id.as_str()
    }
}

impl Identified for WorkflowTrigger {
    open spec fn id_view(&self) -> Seq<char> {
        self.id@
    }

    fn id_text(&self) -> (r: &str) {
        self.id.as_str()
    }
}

/// Index of the first item with the given id, up to ASCII case; the length of
/// the list where there is none.
pub open spec fn position<T: Identified>(list: Seq<T>, id: Seq<char>) -> int
    decreases list.len(),
{
    if list.len() == 0 || same_ignoring_case(list[0].id_view(), id) {
        0
    } else {
        1 + position(list.drop_first(), id)
    }
}

/// The first item with the given id, up to ASCII case.
pub open spec fn item_with_id<T: Identified>(list: Seq<T>, id: Seq<char>) -> Option<T> {
    if position(list, id) < list.len() {
        Some(list[position(list, id)])
    } else {
        None
    }
}

/// The list with an item put in the place of the one with its id, or at the end.
pub open spec fn upserted<T: Identified>(list: Seq<T>, item: T) -> Seq<T> {
    let at = position(list, item.id_view());
    if at < list.len() {
        list.update(at, item)
    } else {
        list.push(item)
    }
}

/// The list with every item put in, from the first to the last.
pub open spec fn upserted_all<T: Identified>(list: Seq<T>, items: Seq<T>) -> Seq<T>
    decreases items.len(),
{
    if items.len() == 0 {
        list
    } else {
        upserted(upserted_all(list, items.drop_last()), items.last())
    }
}

proof fn lemma_position<T: Identified>(list: Seq<T>, id: Seq<char>, k: int)
    requires
        0 <= k <= list.len(),
        forall|i: int| 0 <= i < k ==> !same_ignoring_case((#[trigger] list[i]).id_view(), id),
        k == list.len() || same_ignoring_case(list[k].id_view(), id),
    ensures
        position(list, id) == k,
    decreases k,
{
    if k > 0 {
        assert(!same_ignoring_case(list[0].id_view(), id));
        let tail = list.drop_first();
        assert forall|i: int| 0 <= i < k - 1 implies !same_ignoring_case(
            (#[trigger] tail[i]).id_view(),
            id,
        ) by {
            assert(!same_ignoring_case(list[i + 1].id_view(), id));
        }
        lemma_position(tail, id, k - 1);
    }
}

proof fn lemma_position_found<T: Identified>(list: Seq<T>, id: Seq<char>)
    ensures
        0 <= position(list, id) <= list.len(),
        forall|i: int|
            0 <= i < position(list, id) ==> !same_ignoring_case(
                (#[trigger] list[i]).id_view(),
                id,
            ),
        position(list, id) < list.len() ==> same_ignoring_case(
            list[position(list, id)].id_view(),
            id,
        ),
    decreases list.len(),
{
    if list.len() > 0 && !same_ignoring_case(list[0].id_view(), id) {
        let tail = list.drop_first();
        lemma_position_found(tail, id);
        assert forall|i: int| 0 <= i < position(list, id) implies !same_ignoring_case(
            (#[trigger] list[i]).id_view(),
            id,
        ) by {
            if i > 0 {
                assert(!same_ignoring_case(tail[i - 1].id_view(), id));
            }
        }
    }
}

/// Index of the first item with the given id, or the length of the list.
fn position_of<T: Identified>(list: &Vec<T>, id: &str) -> (r: usize)
    ensures
        r == position(list@, id@),
        r <= list@.len(),
{
    let mut i: usize = 0;
    while i < list.len() && !same_text_ignoring_case(list[i].id_text(), id)
        invariant
            i <= list@.len(),
            forall|j: int|
                0 <= j < i ==> !same_ignoring_case((#[trigger] list@[j]).id_view(), id@),
        decreases list@.len() - i,
    {
        i += 1;
    }
    proof {
        lemma_position(list@, id@, i as int);
    }
    i
}

/// Puts an item in the place of the one with its id, or at the end.
pub fn upsert<T: Identified>(list: &mut Vec<T>, item: T)
    ensures
        final(list)@ == upserted(old(list)@, item),
{
    let at = position_of(list, item.id_text());
    if at < list.len() {
        list.set(at, item);
    } else {
        list.push(item);
    }
}

/// The list with every item put in, from the first to the last.
fn upsert_all<T: Identified>(list: Vec<T>, items: Vec<T>) -> (r: Vec<T>)
    ensures
        r@ == upserted_all(list@, items@),
{
    let ghost start = list@;
    let ghost whole = items@;
    let mut merged = list;
    // The items are taken from the end of `queue`, which holds them reversed.
    let mut queue = reversed(items);
    proof {
        assert(whole.take(0) =~= Seq::empty());
    }
    while queue.len() > 0
        invariant
            queue@.len() <= whole.len(),
            queue@ =~= whole.reverse().take(queue@.len() as int),
            merged@ == upserted_all(start, whole.take(whole.len() - queue@.len())),
        decreases queue@.len(),
    {
        let ghost n = queue@.len() as int;
        let ghost done = whole.take(whole.len() - n);
        let ghost next = whole.take(whole.len() - n + 1);
        let item = queue.pop().unwrap();
        proof {
            assert(item == whole[whole.len() - n]);
            assert(next.drop_last() =~= done);
            assert(next.last() == item);
        }
        upsert(&mut merged, item);
    }
    proof {
        assert(whole.take(whole.len() as int) =~= whole);
    }
    merged
}

/// Index of the last item with the given id, up to ASCII case; -1 where there is
/// none.
pub open spec fn last_position<T: Identified>(items: Seq<T>, id: Seq<char>) -> int
    decreases items.len(),
{
    if items.len() == 0 {
        -1
    } else if same_ignoring_case(items.last().id_view(), id) {
        items.len() - 1
    } else {
        last_position(items.drop_last(), id)
    }
}

/// Under an item's id the list with it finds it; under any other, what it found.
pub proof fn lemma_upserted_lookup<T: Identified>(list: Seq<T>, item: T, id: Seq<char>)
    ensures
        item_with_id(upserted(list, item), id) == if same_ignoring_case(item.id_view(), id) {
            Some(item)
        } else {
            item_with_id(list, id)
        },
        list.len() <= upserted(list, item).len() <= list.len() + 1,
{
    let key = item.id_view();
    let at = position(list, key);
    let after = upserted(list, item);
    lemma_position_found(list, key);
    lemma_position_found(list, id);
    if same_ignoring_case(key, id) {
        let k = if at < list.len() {
            at
        } else {
            list.len() as int
        };
        assert forall|i: int| 0 <= i < k implies !same_ignoring_case(
            (#[trigger] after[i]).id_view(),
            id,
        ) by {
            assert(!same_ignoring_case(list[i].id_view(), key));
        }
        lemma_position(after, id, k);
    } else {
        let p = position(list, id);
        if p < list.len() {
            assert(same_ignoring_case(list[p].id_view(), id));
            if p == at {
                assert(same_ignoring_case(list[p].id_view(), key));
            }
            assert forall|i: int| 0 <= i < p implies !same_ignoring_case(
                (#[trigger] after[i]).id_view(),
                id,
            ) by {
                assert(!same_ignoring_case(list[i].id_view(), id));
            }
            lemma_position(after, id, p);
        } else {
            assert forall|i: int| 0 <= i < after.len() implies !same_ignoring_case(
                (#[trigger] after[i]).id_view(),
                id,
            ) by {
                if i < list.len() {
                    assert(!same_ignoring_case(list[i].id_view(), id));
                }
            }
            lemma_position(after, id, after.len() as int);
        }
    }
}

/// The overlay wins, the base is kept: under every id the merged list gives the
/// overlay's last item with that id, and the base's first where the overlay has
/// none.
pub proof fn overlay_items_win<T: Identified>(list: Seq<T>, items: Seq<T>, id: Seq<char>)
    ensures
        item_with_id(upserted_all(list, items), id) == if last_position(items, id) >= 0 {
            Some(items[last_position(items, id)])
        } else {
            item_with_id(list, id)
        },
        last_position(items, id) < items.len(),
    decreases items.len(),
{
    if items.len() > 0 {
        overlay_items_win(list, items.drop_last(), id);
        lemma_upserted_lookup(upserted_all(list, items.drop_last()), items.last(), id);
    }
}

/// The merged list keeps the base's order: its items stand, by id, where they
/// stood.
pub proof fn base_order_is_kept<T: Identified>(list: Seq<T>, items: Seq<T>, i: int)
    requires
        0 <= i < list.len(),
    ensures
        list.len() <= upserted_all(list, items).len() <= list.len() + items.len(),
        same_ignoring_case(upserted_all(list, items)[i].id_view(), list[i].id_view()),
    decreases items.len(),
{
    if items.len() > 0 {
        base_order_is_kept(list, items.drop_last(), i);
        lemma_position_found(
            upserted_all(list, items.drop_last()),
            items.last().id_view(),
        );
    }
}

// ---------------------------------------------------------------------
// Parts of a configuration
// ---------------------------------------------------------------------

/// The overlay's profiles layered onto the base's, agent by agent.
pub open spec fn merged_agents(
    base: Map<Seq<char>, AgentProfileOverlay>,
    overlay: Map<Seq<char>, AgentProfileOverlay>,
) -> Map<Seq<char>, AgentProfileOverlay> {
    Map::new(
        |k: Seq<char>| base.contains_key(k) || overlay.contains_key(k),
        |k: Seq<char>|
            if !overlay.contains_key(k) {
                base[k]
            } else if !base.contains_key(k) {
                overlay[k]
            } else {
                layered(base[k], overlay[k])
            },
    )
}

/// Layers the overlay's profiles onto the base's, agent by agent.
fn merge_agents(base: TextMap<AgentProfileOverlay>, overlay: TextMap<AgentProfileOverlay>) -> (r:
    TextMap<AgentProfileOverlay>)
    ensures
        r@ == merged_agents(base@, overlay@),
{
    let ghost under = base@;
    let ghost names = overlay.names();
    let ghost over = overlay@;
    let mut merged = base;
    let (mut keys, mut values) = overlay.into_parts();
    let ghost vals = values@;
    proof {
        assert(merged@ =~= merged_agents(
            under,
            entries_map(names.skip(names.len() as int), vals.skip(names.len() as int)),
        ));
    }
    while keys.len() > 0
        invariant
            keys@.len() == values@.len(),
            keys@.len() <= names.len(),
            names.len() == vals.len(),
            ascending(names),
            texts(keys@) =~= names.take(keys@.len() as int),
            values@ =~= vals.take(keys@.len() as int),
            merged@ == merged_agents(
                under,
                entries_map(names.skip(keys@.len() as int), vals.skip(keys@.len() as int)),
            ),
        decreases keys@.len(),
    {
        let ghost n = keys@.len() as int;
        let ghost held_keys = keys@;
        let ghost held = merged@;
        let key = keys.pop().unwrap();
        let value = values.pop().unwrap();
        let ghost done = entries_map(names.skip(n), vals.skip(n));
        proof {
            assert(texts(held_keys)[n - 1] == key@);
            crate::text_map::lemma_entries_extend(names, vals, n);
            assert(texts(keys@) =~= names.take(n - 1));
            assert(!done.contains_key(key@)) by {
                if names.skip(n).contains(key@) {
                    let j = names.skip(n).index_of(key@);
                    crate::text_map::lemma_ascending_unique(names, n - 1, j + n);
                }
            }
        }
        match merged.remove(key.as_str()) {
            Some(existing) => {
                let mut layered_profile = existing;
                layered_profile.merge_from(value);
                merged.insert(key, layered_profile);
            },
            None => {
                merged.insert(key, value);
            },
        }
        proof {
            assert(merged@ =~= merged_agents(under, done.insert(key@, value)));
        }
    }
    proof {
        assert(names.skip(0) =~= names);
        assert(vals.skip(0) =~= vals);
    }
    merged
}

/// Whether a list holds the texts of two lists, each once and in order.
pub open spec fn is_ordered_union(r: Seq<Seq<char>>, a: Seq<Seq<char>>, b: Seq<Seq<char>>) -> bool {
    &&& ascending(r)
    &&& forall|t: Seq<char>| #[trigger] r.contains(t) <==> a.contains(t) || b.contains(t)
}

/// The texts of two lists, each once and in order.
fn ordered_union(a: Vec<String>, b: Vec<String>) -> (r: Vec<String>)
    ensures
        is_ordered_union(texts(r@), texts(a@), texts(b@)),
{
    let mut set: TextMap<bool> = TextMap::new();
    insert_all(&mut set, a);
    insert_all(&mut set, b);
    let n = set.len();
    let ghost names = set.names();
    let ghost held = set@;
    let (keys, _flags) = set.into_parts();
    proof {
        assert forall|t: Seq<char>| #[trigger] texts(keys@).contains(t) <==> texts(a@).contains(t)
            || texts(b@).contains(t) by {
            assert(held.contains_key(t) <==> names.contains(t));
        }
    }
    keys
}

/// Adds texts to a set of texts.
fn insert_all(set: &mut TextMap<bool>, items: Vec<String>)
    ensures
        forall|t: Seq<char>| #[trigger]
            final(set)@.contains_key(t) <==> old(set)@.contains_key(t) || texts(items@).contains(t),
{
    let ghost all = texts(items@);
    let mut i: usize = 0;
    while i < items.len()
        invariant
            i <= items@.len(),
            all == texts(items@),
            forall|t: Seq<char>| #[trigger]
                set@.contains_key(t) <==> old(set)@.contains_key(t) || all.take(
                    i as int,
                ).contains(t),
        decreases items@.len() - i,
    {
        let ghost before = set@;
        set.insert(items[i].clone(), true);
        proof {
            assert forall|t: Seq<char>| #[trigger] set@.contains_key(t) <==> old(set)@.contains_key(
                t,
            ) || all.take(i + 1).contains(t) by {
                if all.take(i as int).contains(t) {
                    let j = all.take(i as int).index_of(t);
                    assert(all.take(i + 1)[j] == t);
                }
                if t == all[i as int] {
                    assert(all.take(i + 1)[i as int] == t);
                }
                if all.take(i + 1).contains(t) {
                    let j = all.take(i + 1).index_of(t);
                    if j < i {
                        assert(all.take(i as int)[j] == t);
                    }
                }
                assert(before.contains_key(t) || t == all[i as int] <==> set@.contains_key(t));
            }
        }
        i += 1;
    }
    proof {
        assert(all.take(i as int) =~= all);
    }
}

/// The overlay's integrations over the base's, one by one.
pub open spec fn merged_integrations(
    base: Option<IntegrationsConfig>,
    overlay: Option<IntegrationsConfig>,
) -> Option<IntegrationsConfig> {
    match (base, overlay) {
        (None, o) => o,
        (b, None) => b,
        (Some(b), Some(o)) => Some(
            IntegrationsConfig {
                tasks: declared_opt(o.tasks, b.tasks),
                git: declared_opt(o.git, b.git),
            },
        ),
    }
}

/// The overlay's daemon settings over the base's, one by one.
pub open spec fn merged_daemon(
    base: Option<DaemonConfig>,
    overlay: Option<DaemonConfig>,
) -> Option<DaemonConfig> {
    match (base, overlay) {
        (None, o) => o,
        (b, None) => b,
        (Some(b), Some(o)) => Some(
            DaemonConfig {
                active_hours: declared_opt(o.active_hours, b.active_hours),
                phase_routing: declared_opt(o.phase_routing, b.phase_routing),
                mcp: declared_opt(o.mcp, b.mcp),
                budget: declared_opt(o.budget, b.budget),
            },
        ),
    }
}

fn pick<T>(overlay: Option<T>, base: Option<T>) -> (r: Option<T>)
    ensures
        r == declared_opt(overlay, base),
{
    match overlay {
        Some(v) => Some(v),
        None => base,
    }
}

fn merge_integrations(base: Option<IntegrationsConfig>, overlay: Option<IntegrationsConfig>) -> (r:
    Option<IntegrationsConfig>)
    ensures
        r == merged_integrations(base, overlay),
{
    match base {
        None => overlay,
        Some(b) => match overlay {
            None => Some(b),
            Some(o) => Some(
                IntegrationsConfig { tasks: pick(o.tasks, b.tasks), git: pick(o.git, b.git) },
            ),
        },
    }
}

fn merge_daemon(base: Option<DaemonConfig>, overlay: Option<DaemonConfig>) -> (r: Option<
    DaemonConfig,
>)
    ensures
        r == merged_daemon(base, overlay),
{
    match base {
        None => overlay,
        Some(b) => match overlay {
            None => Some(b),
            Some(o) => Some(
                DaemonConfig {
                    active_hours: pick(o.active_hours, b.active_hours),
                    phase_routing: pick(o.phase_routing, b.phase_routing),
                    mcp: pick(o.mcp, b.mcp),
                    budget: pick(o.budget, b.budget),
                },
            ),
        },
    }
}

// ---------------------------------------------------------------------
// Whole configurations
// ---------------------------------------------------------------------

/// Whether `r` is the overlay `yaml` merged onto `base`.
pub open spec fn is_merge(base: WorkflowConfig, yaml: WorkflowConfig, r: WorkflowConfig) -> bool {
    &&& r.schema@ == WORKFLOW_CONFIG_SCHEMA_ID@
    &&& r.version == WORKFLOW_CONFIG_VERSION
    &&& r.default_workflow_ref@ == if yaml.default_workflow_ref@.len() > 0 {
        yaml.default_workflow_ref@
    } else {
        base.default_workflow_ref@
    }
    &&& r.phase_catalog@ == base.phase_catalog@.union_prefer_right(yaml.phase_catalog@)
    &&& r.workflows@ == upserted_all(base.workflows@, yaml.workflows@)
    &&& r.checkpoint_retention == base.checkpoint_retention
    &&& r.phase_definitions@ == base.phase_definitions@.union_prefer_right(yaml.phase_definitions@)
    &&& r.agent_profiles@ == merged_agents(base.agent_profiles@, yaml.agent_profiles@)
    &&& r.agent_channels@ == base.agent_channels@.union_prefer_right(yaml.agent_channels@)
    &&& is_ordered_union(
        texts(r.tools_allowlist@),
        texts(base.tools_allowlist@),
        texts(yaml.tools_allowlist@),
    )
    &&& r.mcp_servers@ == base.mcp_servers@.union_prefer_right(yaml.mcp_servers@)
    &&& r.phase_mcp_bindings@ == base.phase_mcp_bindings@.union_prefer_right(
        yaml.phase_mcp_bindings@,
    )
    &&& r.tools@ == base.tools@.union_prefer_right(yaml.tools@)
    &&& r.integrations == merged_integrations(base.integrations, yaml.integrations)
    &&& r.schedules@ == upserted_all(base.schedules@, yaml.schedules@)
    &&& r.triggers@ == upserted_all(base.triggers@, yaml.triggers@)
    &&& r.daemon == merged_daemon(base.daemon, yaml.daemon)
    &&& r.secrets@ == base.secrets@.union_prefer_right(yaml.secrets@)
    &&& r.workspaces@ == base.workspaces@.union_prefer_right(yaml.workspaces@)
    &&& r.environment_routing == declared_opt(yaml.environment_routing, base.environment_routing)
}

fn extended<V>(base: TextMap<V>, overlay: TextMap<V>) -> (r: TextMap<V>)
    ensures
        r@ == base@.union_prefer_right(overlay@),
{
    let mut merged = base;
    merged.extend(overlay);
    merged
}

/// Merges a parsed overlay onto `base`: entries of the overlay replace those of
/// the base, agent profiles are layered, the tool list is the union.
pub fn merge_yaml_into_config(base: WorkflowConfig, yaml: WorkflowConfig) -> (r: WorkflowConfig)
    ensures
        is_merge(base, yaml, r),
{
    let default_workflow_ref = if !yaml.default_workflow_ref.as_str().is_empty() {
        yaml.default_workflow_ref
    } else {
        base.default_workflow_ref
    };
    WorkflowConfig {
        schema: WORKFLOW_CONFIG_SCHEMA_ID.to_owned(),
        version: WORKFLOW_CONFIG_VERSION,
        default_workflow_ref,
        phase_catalog: extended(base.phase_catalog, yaml.phase_catalog),
        workflows: upsert_all(base.workflows, yaml.workflows),
        checkpoint_retention: base.checkpoint_retention,
        phase_definitions: extended(base.phase_definitions, yaml.phase_definitions),
        agent_profiles: merge_agents(base.agent_profiles, yaml.agent_profiles),
        agent_channels: extended(base.agent_channels, yaml.agent_channels),
        tools_allowlist: ordered_union(base.tools_allowlist, yaml.tools_allowlist),
        mcp_servers: extended(base.mcp_servers, yaml.mcp_servers),
        phase_mcp_bindings: extended(base.phase_mcp_bindings, yaml.phase_mcp_bindings),
        tools: extended(base.tools, yaml.tools),
        integrations: merge_integrations(base.integrations, yaml.integrations),
        schedules: upsert_all(base.schedules, yaml.schedules),
        triggers: upsert_all(base.triggers, yaml.triggers),
        daemon: merge_daemon(base.daemon, yaml.daemon),
        secrets: extended(base.secrets, yaml.secrets),
        workspaces: extended(base.workspaces, yaml.workspaces),
        environment_routing: pick(yaml.environment_routing, base.environment_routing),
    }
}

/// Where every id is there already, putting items in moves nothing: ids keep
/// their places, and an item that none of them replaces stays.
proof fn lemma_upserted_in_place<T: Identified>(
    list: Seq<T>,
    items: Seq<T>,
    id: Seq<char>,
    j: int,
)
    requires
        forall|i: int|
            0 <= i < items.len() ==> position(list, (#[trigger] items[i]).id_view()) < list.len(),
    ensures
        upserted_all(list, items).len() == list.len(),
        position(upserted_all(list, items), id) == position(list, id),
        0 <= j < list.len() && (forall|i: int|
            0 <= i < items.len() ==> position(list, (#[trigger] items[i]).id_view()) != j)
            ==> upserted_all(list, items)[j] == list[j],
    decreases items.len(),
{
    if items.len() > 0 {
        let front = items.drop_last();
        let item = items.last();
        let mid = upserted_all(list, front);
        assert forall|i: int| 0 <= i < front.len() implies position(
            list,
            (#[trigger] front[i]).id_view(),
        ) < list.len() by {
            assert(front[i] == items[i]);
        }
        lemma_upserted_in_place(list, front, id, j);
        lemma_upserted_in_place(list, front, item.id_view(), j);
        let at = position(mid, item.id_view());
        assert(item == items[items.len() - 1]);
        lemma_position_found(mid, item.id_view());
        lemma_position_found(mid, id);
        let after = upserted_all(list, items);
        assert(after == mid.update(at, item));
        let k = position(mid, id);
        assert forall|i: int| 0 <= i < k implies !same_ignoring_case(
            (#[trigger] after[i]).id_view(),
            id,
        ) by {
            assert(!same_ignoring_case(mid[i].id_view(), id));
        }
        lemma_position(after, id, k);
        if 0 <= j < list.len() && (forall|i: int|
            0 <= i < items.len() ==> position(list, (#[trigger] items[i]).id_view()) != j) {
            assert forall|i: int| 0 <= i < front.len() implies position(
                list,
                (#[trigger] front[i]).id_view(),
            ) != j by {
                assert(front[i] == items[i]);
            }
        }
    }
}

/// An item's own id is found among the items.
proof fn lemma_last_position_there<T: Identified>(items: Seq<T>, i: int)
    requires
        0 <= i < items.len(),
    ensures
        last_position(items, items[i].id_view()) >= 0,
    decreases items.len(),
{
    if i < items.len() - 1 {
        lemma_last_position_there(items.drop_last(), i);
    }
}

/// Putting the same items in a second time changes nothing.
proof fn lemma_upserted_again<T: Identified>(list: Seq<T>, items: Seq<T>)
    ensures
        upserted_all(upserted_all(list, items), items) == upserted_all(list, items),
{
    let once = upserted_all(list, items);
    let twice = upserted_all(once, items);
    assert forall|i: int| 0 <= i < items.len() implies position(
        once,
        (#[trigger] items[i]).id_view(),
    ) < once.len() by {
        lemma_last_position_there(items, i);
        overlay_items_win(list, items, items[i].id_view());
    }
    lemma_upserted_in_place(once, items, Seq::empty(), 0);
    assert forall|j: int| 0 <= j < once.len() implies #[trigger] twice[j] == once[j] by {
        if exists|i: int|
            0 <= i < items.len() && position(once, (#[trigger] items[i]).id_view()) == j {
            let i = choose|i: int|
                0 <= i < items.len() && position(once, (#[trigger] items[i]).id_view()) == j;
            let id = items[i].id_view();
            lemma_upserted_in_place(once, items, id, j);
            lemma_last_position_there(items, i);
            overlay_items_win(list, items, id);
            overlay_items_win(once, items, id);
            assert(item_with_id(once, id) == Some(once[j]));
            assert(item_with_id(twice, id) == Some(twice[j]));
        } else {
            lemma_upserted_in_place(once, items, Seq::empty(), j);
        }
    }
    assert(twice =~= once);
}

/// Merging an overlay a second time changes nothing.
pub proof fn merging_again_changes_nothing(
    base: WorkflowConfig,
    yaml: WorkflowConfig,
    once: WorkflowConfig,
    twice: WorkflowConfig,
)
    requires
        is_merge(base, yaml, once),
        is_merge(once, yaml, twice),
    ensures
        twice.schema@ == once.schema@,
        twice.version == once.version,
        twice.default_workflow_ref@ == once.default_workflow_ref@,
        twice.phase_catalog@ == once.phase_catalog@,
        twice.workflows@ == once.workflows@,
        twice.checkpoint_retention == once.checkpoint_retention,
        twice.phase_definitions@ == once.phase_definitions@,
        twice.agent_profiles@ == once.agent_profiles@,
        twice.agent_channels@ == once.agent_channels@,
        texts(twice.tools_allowlist@) == texts(once.tools_allowlist@),
        twice.mcp_servers@ == once.mcp_servers@,
        twice.phase_mcp_bindings@ == once.phase_mcp_bindings@,
        twice.tools@ == once.tools@,
        twice.integrations == once.integrations,
        twice.schedules@ == once.schedules@,
        twice.triggers@ == once.triggers@,
        twice.daemon == once.daemon,
        twice.secrets@ == once.secrets@,
        twice.workspaces@ == once.workspaces@,
        twice.environment_routing == once.environment_routing,
{
    assert(twice.phase_catalog@ =~= once.phase_catalog@);
    assert(twice.phase_definitions@ =~= once.phase_definitions@);
    assert(twice.agent_channels@ =~= once.agent_channels@);
    assert(twice.mcp_servers@ =~= once.mcp_servers@);
    assert(twice.phase_mcp_bindings@ =~= once.phase_mcp_bindings@);
    assert(twice.tools@ =~= once.tools@);
    assert(twice.secrets@ =~= once.secrets@);
    assert(twice.workspaces@ =~= once.workspaces@);
    lemma_upserted_again(base.workflows@, yaml.workflows@);
    lemma_upserted_again(base.schedules@, yaml.schedules@);
    lemma_upserted_again(base.triggers@, yaml.triggers@);
    assert forall|k: Seq<char>| once.agent_profiles@.contains_key(k) implies #[trigger]
    twice.agent_profiles@[k] == once.agent_profiles@[k] by {
        let a = base.agent_profiles@;
        let b = yaml.agent_profiles@;
        if b.contains_key(k) {
            if a.contains_key(k) {
                layering_is_idempotent(a[k], b[k]);
            } else {
                layering_is_idempotent(b[k], b[k]);
            }
        }
    }
    assert(twice.agent_profiles@ =~= once.agent_profiles@);
    let t1 = texts(once.tools_allowlist@);
    let t2 = texts(twice.tools_allowlist@);
    assert forall|t: Seq<char>| #[trigger] t2.contains(t) <==> t1.contains(t) by {}
    lemma_ascending_determined(t2, t1);
}

/// Whether no two items of a list have the same id, up to ASCII case.
pub open spec fn distinct_ids<T: Identified>(list: Seq<T>) -> bool {
    forall|i: int, j: int|
        0 <= i < j < list.len() ==> !same_ignoring_case(
            (#[trigger] list[i]).id_view(),
            (#[trigger] list[j]).id_view(),
        )
}

proof fn lemma_upserted_distinct<T: Identified>(list: Seq<T>, item: T)
    requires
        distinct_ids(list),
    ensures
        distinct_ids(upserted(list, item)),
{
    let at = position(list, item.id_view());
    let after = upserted(list, item);
    lemma_position_found(list, item.id_view());
    assert forall|i: int, j: int| 0 <= i < j < after.len() implies !same_ignoring_case(
        (#[trigger] after[i]).id_view(),
        (#[trigger] after[j]).id_view(),
    ) by {
        if at < list.len() {
            assert(!same_ignoring_case(list[i].id_view(), list[j].id_view()));
        } else if j < list.len() {
            assert(!same_ignoring_case(list[i].id_view(), list[j].id_view()));
        } else {
            assert(!same_ignoring_case(list[i].id_view(), item.id_view()));
        }
    }
}

proof fn lemma_upserted_all_distinct<T: Identified>(list: Seq<T>, items: Seq<T>)
    requires
        distinct_ids(list),
    ensures
        distinct_ids(upserted_all(list, items)),
    decreases items.len(),
{
    if items.len() > 0 {
        lemma_upserted_all_distinct(list, items.drop_last());
        lemma_upserted_distinct(upserted_all(list, items.drop_last()), items.last());
    }
}

/// Putting in the first `k` items of a list that keeps `list`'s ids in their
/// places gives those items, and `list`'s own behind them.
proof fn lemma_upserted_prefix<T: Identified>(list: Seq<T>, merged: Seq<T>, k: int)
    requires
        distinct_ids(merged),
        list.len() <= merged.len(),
        forall|i: int|
            0 <= i < list.len() ==> same_ignoring_case(
                (#[trigger] merged[i]).id_view(),
                (#[trigger] list[i]).id_view(),
            ),
        0 <= k <= merged.len(),
    ensures
        upserted_all(list, merged.take(k)) == if k <= list.len() {
            merged.take(k) + list.skip(k)
        } else {
            merged.take(k)
        },
    decreases k,
{
    if k == 0 {
        assert(merged.take(0) + list.skip(0) =~= list);
    } else {
        lemma_upserted_prefix(list, merged, k - 1);
        assert(merged.take(k).drop_last() =~= merged.take(k - 1));
        let item = merged[k - 1];
        assert(merged.take(k).last() == item);
        let before = upserted_all(list, merged.take(k - 1));
        if k - 1 < list.len() {
            assert(before == merged.take(k - 1) + list.skip(k - 1));
            assert(before[k - 1] == list[k - 1]);
            assert(same_ignoring_case(item.id_view(), list[k - 1].id_view()));
            assert forall|i: int| 0 <= i < k - 1 implies !same_ignoring_case(
                (#[trigger] before[i]).id_view(),
                item.id_view(),
            ) by {
                assert(before[i] == merged[i]);
            }
            lemma_position(before, item.id_view(), k - 1);
            assert(before.update(k - 1, item) =~= merged.take(k) + list.skip(k));
            assert(merged.take(k) + list.skip(k) =~= if k <= list.len() {
                merged.take(k) + list.skip(k)
            } else {
                merged.take(k)
            });
        } else {
            assert(before =~= merged.take(k - 1));
            assert forall|i: int| 0 <= i < before.len() implies !same_ignoring_case(
                (#[trigger] before[i]).id_view(),
                item.id_view(),
            ) by {
                assert(before[i] == merged[i]);
            }
            lemma_position(before, item.id_view(), before.len() as int);
            assert(before.push(item) =~= merged.take(k));
        }
    }
}

/// A list with distinct ids that is merged with a merge of itself gives that
/// merge.
proof fn lemma_merge_absorbs<T: Identified>(list: Seq<T>, items: Seq<T>)
    requires
        distinct_ids(list),
    ensures
        upserted_all(list, upserted_all(list, items)) == upserted_all(list, items),
{
    let merged = upserted_all(list, items);
    lemma_upserted_all_distinct(list, items);
    assert forall|i: int| 0 <= i < list.len() implies same_ignoring_case(
        (#[trigger] merged[i]).id_view(),
        (#[trigger] list[i]).id_view(),
    ) by {
        base_order_is_kept(list, items, i);
    }
    lemma_upserted_len(list, items);
    lemma_upserted_prefix(list, merged, merged.len() as int);
    assert(merged.take(merged.len() as int) =~= merged);
    if merged.len() <= list.len() {
        assert(list.skip(merged.len() as int) =~= Seq::empty());
        assert(merged + list.skip(merged.len() as int) =~= merged);
    }
}

proof fn lemma_upserted_len<T: Identified>(list: Seq<T>, items: Seq<T>)
    ensures
        list.len() <= upserted_all(list, items).len(),
    decreases items.len(),
{
    if items.len() > 0 {
        lemma_upserted_len(list, items.drop_last());
        lemma_position_found(upserted_all(list, items.drop_last()), items.last().id_view());
    }
}

/// Merging a base with what was itself merged onto that base changes nothing
/// more, where the base lists no id twice. So a file that was read on top of the
/// earlier ones can be merged with them again.
pub proof fn merging_a_merge_changes_nothing(
    base: WorkflowConfig,
    overlay: WorkflowConfig,
    once: WorkflowConfig,
    twice: WorkflowConfig,
)
    requires
        is_merge(base, overlay, once),
        is_merge(base, once, twice),
        distinct_ids(base.workflows@),
        distinct_ids(base.schedules@),
        distinct_ids(base.triggers@),
    ensures
        twice.schema@ == once.schema@,
        twice.version == once.version,
        twice.default_workflow_ref@ == once.default_workflow_ref@,
        twice.phase_catalog@ == once.phase_catalog@,
        twice.workflows@ == once.workflows@,
        twice.checkpoint_retention == once.checkpoint_retention,
        twice.phase_definitions@ == once.phase_definitions@,
        twice.agent_profiles@ == once.agent_profiles@,
        twice.agent_channels@ == once.agent_channels@,
        texts(twice.tools_allowlist@) == texts(once.tools_allowlist@),
        twice.mcp_servers@ == once.mcp_servers@,
        twice.phase_mcp_bindings@ == once.phase_mcp_bindings@,
        twice.tools@ == once.tools@,
        twice.integrations == once.integrations,
        twice.schedules@ == once.schedules@,
        twice.triggers@ == once.triggers@,
        twice.daemon == once.daemon,
        twice.secrets@ == once.secrets@,
        twice.workspaces@ == once.workspaces@,
        twice.environment_routing == once.environment_routing,
{
    assert(twice.phase_catalog@ =~= once.phase_catalog@);
    assert(twice.phase_definitions@ =~= once.phase_definitions@);
    assert(twice.agent_channels@ =~= once.agent_channels@);
    assert(twice.mcp_servers@ =~= once.mcp_servers@);
    assert(twice.phase_mcp_bindings@ =~= once.phase_mcp_bindings@);
    assert(twice.tools@ =~= once.tools@);
    assert(twice.secrets@ =~= once.secrets@);
    assert(twice.workspaces@ =~= once.workspaces@);
    lemma_merge_absorbs(base.workflows@, overlay.workflows@);
    lemma_merge_absorbs(base.schedules@, overlay.schedules@);
    lemma_merge_absorbs(base.triggers@, overlay.triggers@);
    assert forall|k: Seq<char>| once.agent_profiles@.contains_key(k) implies #[trigger]
    twice.agent_profiles@[k] == once.agent_profiles@[k] by {
        let a = base.agent_profiles@;
        let b = overlay.agent_profiles@;
        if a.contains_key(k) {
            layering_is_idempotent(a[k], a[k]);
            if b.contains_key(k) {
                layering_is_associative(a[k], a[k], b[k]);
            }
        }
    }
    assert(twice.agent_profiles@ =~= once.agent_profiles@);
    let t1 = texts(once.tools_allowlist@);
    let t2 = texts(twice.tools_allowlist@);
    assert forall|t: Seq<char>| #[trigger] t2.contains(t) <==> t1.contains(t) by {}
    lemma_ascending_determined(t2, t1);
}

proof fn lemma_last_position<T: Identified>(items: Seq<T>, id: Seq<char>)
    ensures
        -1 <= last_position(items, id) < items.len(),
        last_position(items, id) >= 0 ==> same_ignoring_case(
            items[last_position(items, id)].id_view(),
            id,
        ),
        forall|j: int|
            last_position(items, id) < j < items.len() ==> !same_ignoring_case(
                (#[trigger] items[j]).id_view(),
                id,
            ),
    decreases items.len(),
{
    if items.len() > 0 && !same_ignoring_case(items.last().id_view(), id) {
        let front = items.drop_last();
        lemma_last_position(front, id);
        let p = last_position(front, id);
        assert forall|j: int| p < j < items.len() implies !same_ignoring_case(
            (#[trigger] items[j]).id_view(),
            id,
        ) by {
            if j < front.len() {
                assert(!same_ignoring_case(front[j].id_view(), id));
            }
        }
        if p >= 0 {
            assert(front[p] == items[p]);
        }
    }
}

/// The overlay wins in every keyed block: what it has under a key is what the
/// merge has there. Under every other key the merge has what the base has, and
/// nothing where the base has nothing.
pub proof fn overlay_wins_under_every_key(
    base: WorkflowConfig,
    yaml: WorkflowConfig,
    r: WorkflowConfig,
    k: Seq<char>,
)
    requires
        is_merge(base, yaml, r),
    ensures
        yaml.phase_catalog@.contains_key(k) ==> r.phase_catalog@.contains_key(k) && r.phase_catalog@[k] == yaml.phase_catalog@[k],
        !yaml.phase_catalog@.contains_key(k) && base.phase_catalog@.contains_key(k) ==> r.phase_catalog@.contains_key(k)
            && r.phase_catalog@[k] == base.phase_catalog@[k],
        !yaml.phase_catalog@.contains_key(k) && !base.phase_catalog@.contains_key(k) ==> !r.phase_catalog@.contains_key(k),
        yaml.phase_definitions@.contains_key(k) ==> r.phase_definitions@.contains_key(k) && r.phase_definitions@[k] == yaml.phase_definitions@[k],
        !yaml.phase_definitions@.contains_key(k) && base.phase_definitions@.contains_key(k) ==> r.phase_definitions@.contains_key(k)
            && r.phase_definitions@[k] == base.phase_definitions@[k],
        !yaml.phase_definitions@.contains_key(k) && !base.phase_definitions@.contains_key(k) ==> !r.phase_definitions@.contains_key(k),
        yaml.agent_channels@.contains_key(k) ==> r.agent_channels@.contains_key(k) && r.agent_channels@[k] == yaml.agent_channels@[k],
        !yaml.agent_channels@.contains_key(k) && base.agent_channels@.contains_key(k) ==> r.agent_channels@.contains_key(k)
            && r.agent_channels@[k] == base.agent_channels@[k],
        !yaml.agent_channels@.contains_key(k) && !base.agent_channels@.contains_key(k) ==> !r.agent_channels@.contains_key(k),
        yaml.mcp_servers@.contains_key(k) ==> r.mcp_servers@.contains_key(k) && r.mcp_servers@[k] == yaml.mcp_servers@[k],
        !yaml.mcp_servers@.contains_key(k) && base.mcp_servers@.contains_key(k) ==> r.mcp_servers@.contains_key(k)
            && r.mcp_servers@[k] == base.mcp_servers@[k],
        !yaml.mcp_servers@.contains_key(k) && !base.mcp_servers@.contains_key(k) ==> !r.mcp_servers@.contains_key(k),
        yaml.phase_mcp_bindings@.contains_key(k) ==> r.phase_mcp_bindings@.contains_key(k) && r.phase_mcp_bindings@[k] == yaml.phase_mcp_bindings@[k],
        !yaml.phase_mcp_bindings@.contains_key(k) && base.phase_mcp_bindings@.contains_key(k) ==> r.phase_mcp_bindings@.contains_key(k)
            && r.phase_mcp_bindings@[k] == base.phase_mcp_bindings@[k],
        !yaml.phase_mcp_bindings@.contains_key(k) && !base.phase_mcp_bindings@.contains_key(k) ==> !r.phase_mcp_bindings@.contains_key(k),
        yaml.tools@.contains_key(k) ==> r.tools@.contains_key(k) && r.tools@[k] == yaml.tools@[k],
        !yaml.tools@.contains_key(k) && base.tools@.contains_key(k) ==> r.tools@.contains_key(k)
            && r.tools@[k] == base.tools@[k],
        !yaml.tools@.contains_key(k) && !base.tools@.contains_key(k) ==> !r.tools@.contains_key(k),
        yaml.secrets@.contains_key(k) ==> r.secrets@.contains_key(k) && r.secrets@[k] == yaml.secrets@[k],
        !yaml.secrets@.contains_key(k) && base.secrets@.contains_key(k) ==> r.secrets@.contains_key(k)
            && r.secrets@[k] == base.secrets@[k],
        !yaml.secrets@.contains_key(k) && !base.secrets@.contains_key(k) ==> !r.secrets@.contains_key(k),
        yaml.workspaces@.contains_key(k) ==> r.workspaces@.contains_key(k) && r.workspaces@[k] == yaml.workspaces@[k],
        !yaml.workspaces@.contains_key(k) && base.workspaces@.contains_key(k) ==> r.workspaces@.contains_key(k)
            && r.workspaces@[k] == base.workspaces@[k],
        !yaml.workspaces@.contains_key(k) && !base.workspaces@.contains_key(k) ==> !r.workspaces@.contains_key(k),
{
}

/// The overlay wins in every list: under an id, up to ASCII case, the merge finds
/// the overlay's last item, or the base's first where the overlay has none. The
/// base's items keep their places.
pub proof fn overlay_wins_under_every_id(
    base: WorkflowConfig,
    yaml: WorkflowConfig,
    r: WorkflowConfig,
    id: Seq<char>,
)
    requires
        is_merge(base, yaml, r),
    ensures
        (forall|j: int|
            0 <= j < yaml.workflows@.len() ==> !same_ignoring_case((#[trigger] yaml.workflows@[j]).id@, id))
            ==> item_with_id(r.workflows@, id) == item_with_id(base.workflows@, id),
        forall|i: int|
            0 <= i < yaml.workflows@.len() && same_ignoring_case((#[trigger] yaml.workflows@[i]).id@, id) && (
            forall|j: int|
                i < j < yaml.workflows@.len() ==> !same_ignoring_case(
                    (#[trigger] yaml.workflows@[j]).id@,
                    id,
                )) ==> item_with_id(r.workflows@, id) == Some(yaml.workflows@[i]),
        base.workflows@.len() <= r.workflows@.len(),
        forall|i: int|
            0 <= i < base.workflows@.len() ==> same_ignoring_case(
                (#[trigger] r.workflows@[i]).id@,
                base.workflows@[i].id@,
            ),
        (forall|j: int|
            0 <= j < yaml.schedules@.len() ==> !same_ignoring_case((#[trigger] yaml.schedules@[j]).id@, id))
            ==> item_with_id(r.schedules@, id) == item_with_id(base.schedules@, id),
        forall|i: int|
            0 <= i < yaml.schedules@.len() && same_ignoring_case((#[trigger] yaml.schedules@[i]).id@, id) && (
            forall|j: int|
                i < j < yaml.schedules@.len() ==> !same_ignoring_case(
                    (#[trigger] yaml.schedules@[j]).id@,
                    id,
                )) ==> item_with_id(r.schedules@, id) == Some(yaml.schedules@[i]),
        base.schedules@.len() <= r.schedules@.len(),
        forall|i: int|
            0 <= i < base.schedules@.len() ==> same_ignoring_case(
                (#[trigger] r.schedules@[i]).id@,
                base.schedules@[i].id@,
            ),
        (forall|j: int|
            0 <= j < yaml.triggers@.len() ==> !same_ignoring_case((#[trigger] yaml.triggers@[j]).id@, id))
            ==> item_with_id(r.triggers@, id) == item_with_id(base.triggers@, id),
        forall|i: int|
            0 <= i < yaml.triggers@.len() && same_ignoring_case((#[trigger] yaml.triggers@[i]).id@, id) && (
            forall|j: int|
                i < j < yaml.triggers@.len() ==> !same_ignoring_case(
                    (#[trigger] yaml.triggers@[j]).id@,
                    id,
                )) ==> item_with_id(r.triggers@, id) == Some(yaml.triggers@[i]),
        base.triggers@.len() <= r.triggers@.len(),
        forall|i: int|
            0 <= i < base.triggers@.len() ==> same_ignoring_case(
                (#[trigger] r.triggers@[i]).id@,
                base.triggers@[i].id@,
            ),
{
    overlay_items_win(base.workflows@, yaml.workflows@, id);
    lemma_last_position(yaml.workflows@, id);
    lemma_upserted_len(base.workflows@, yaml.workflows@);
    assert forall|i: int| 0 <= i < base.workflows@.len() implies same_ignoring_case(
        (#[trigger] r.workflows@[i]).id@,
        base.workflows@[i].id@,
    ) by {
        base_order_is_kept(base.workflows@, yaml.workflows@, i);
    }
    overlay_items_win(base.schedules@, yaml.schedules@, id);
    lemma_last_position(yaml.schedules@, id);
    lemma_upserted_len(base.schedules@, yaml.schedules@);
    assert forall|i: int| 0 <= i < base.schedules@.len() implies same_ignoring_case(
        (#[trigger] r.schedules@[i]).id@,
        base.schedules@[i].id@,
    ) by {
        base_order_is_kept(base.schedules@, yaml.schedules@, i);
    }
    overlay_items_win(base.triggers@, yaml.triggers@, id);
    lemma_last_position(yaml.triggers@, id);
    lemma_upserted_len(base.triggers@, yaml.triggers@);
    assert forall|i: int| 0 <= i < base.triggers@.len() implies same_ignoring_case(
        (#[trigger] r.triggers@[i]).id@,
        base.triggers@[i].id@,
    ) by {
        base_order_is_kept(base.triggers@, yaml.triggers@, i);
    }
}

/// An agent that only one side has is kept as it is; one that both have holds
/// every field that the overlay declares, and the base's in the others.
pub proof fn agents_are_layered_one_by_one(
    base: WorkflowConfig,
    yaml: WorkflowConfig,
    r: WorkflowConfig,
    k: Seq<char>,
)
    requires
        is_merge(base, yaml, r),
    ensures
        r.agent_profiles@.contains_key(k) <==> base.agent_profiles@.contains_key(k)
            || yaml.agent_profiles@.contains_key(k),
        yaml.agent_profiles@.contains_key(k) && !base.agent_profiles@.contains_key(k)
            ==> r.agent_profiles@[k] == yaml.agent_profiles@[k],
        base.agent_profiles@.contains_key(k) && !yaml.agent_profiles@.contains_key(k)
            ==> r.agent_profiles@[k] == base.agent_profiles@[k],
        base.agent_profiles@.contains_key(k) && yaml.agent_profiles@.contains_key(k)
            ==> r.agent_profiles@[k] == layered(base.agent_profiles@[k], yaml.agent_profiles@[k]),
        base.agent_profiles@.contains_key(k) && yaml.agent_profiles@.contains_key(k)
            && yaml.agent_profiles@[k].model is Some ==> r.agent_profiles@[k].model
            == yaml.agent_profiles@[k].model,
        base.agent_profiles@.contains_key(k) && yaml.agent_profiles@.contains_key(k)
            && yaml.agent_profiles@[k].model is None ==> r.agent_profiles@[k].model
            == base.agent_profiles@[k].model,
{
}

/// The single settings: the overlay's default workflow where it names one; each
/// integration and daemon setting of the overlay where it declares one, and the
/// base's otherwise; the base's checkpoint retention; and every tool that either
/// side allows, and no other.
pub proof fn overlay_settings_win_one_by_one(
    base: WorkflowConfig,
    yaml: WorkflowConfig,
    r: WorkflowConfig,
    tool: Seq<char>,
)
    requires
        is_merge(base, yaml, r),
    ensures
        yaml.default_workflow_ref@.len() > 0 ==> r.default_workflow_ref@
            == yaml.default_workflow_ref@,
        yaml.default_workflow_ref@.len() == 0 ==> r.default_workflow_ref@
            == base.default_workflow_ref@,
        r.checkpoint_retention == base.checkpoint_retention,
        texts(r.tools_allowlist@).contains(tool) <==> texts(base.tools_allowlist@).contains(tool)
            || texts(yaml.tools_allowlist@).contains(tool),
        texts(r.tools_allowlist@).no_duplicates(),
        yaml.environment_routing is Some ==> r.environment_routing == yaml.environment_routing,
        yaml.environment_routing is None ==> r.environment_routing == base.environment_routing,
        yaml.integrations is None ==> r.integrations == base.integrations,
        base.integrations is None ==> r.integrations == yaml.integrations,
        yaml.integrations is Some && base.integrations is Some && yaml.integrations->0.tasks is Some ==> r.integrations
            is Some && r.integrations->0.tasks == yaml.integrations->0.tasks,
        yaml.integrations is Some && base.integrations is Some && yaml.integrations->0.tasks is None ==> r.integrations
            is Some && r.integrations->0.tasks == base.integrations->0.tasks,
        yaml.integrations is Some && base.integrations is Some && yaml.integrations->0.git is Some ==> r.integrations
            is Some && r.integrations->0.git == yaml.integrations->0.git,
        yaml.integrations is Some && base.integrations is Some && yaml.integrations->0.git is None ==> r.integrations
            is Some && r.integrations->0.git == base.integrations->0.git,
        yaml.daemon is None ==> r.daemon == base.daemon,
        base.daemon is None ==> r.daemon == yaml.daemon,
        yaml.daemon is Some && base.daemon is Some && yaml.daemon->0.active_hours is Some ==> r.daemon
            is Some && r.daemon->0.active_hours == yaml.daemon->0.active_hours,
        yaml.daemon is Some && base.daemon is Some && yaml.daemon->0.active_hours is None ==> r.daemon
            is Some && r.daemon->0.active_hours == base.daemon->0.active_hours,
        yaml.daemon is Some && base.daemon is Some && yaml.daemon->0.phase_routing is Some ==> r.daemon
            is Some && r.daemon->0.phase_routing == yaml.daemon->0.phase_routing,
        yaml.daemon is Some && base.daemon is Some && yaml.daemon->0.phase_routing is None ==> r.daemon
            is Some && r.daemon->0.phase_routing == base.daemon->0.phase_routing,
        yaml.daemon is Some && base.daemon is Some && yaml.daemon->0.mcp is Some ==> r.daemon
            is Some && r.daemon->0.mcp == yaml.daemon->0.mcp,
        yaml.daemon is Some && base.daemon is Some && yaml.daemon->0.mcp is None ==> r.daemon
            is Some && r.daemon->0.mcp == base.daemon->0.mcp,
        yaml.daemon is Some && base.daemon is Some && yaml.daemon->0.budget is Some ==> r.daemon
            is Some && r.daemon->0.budget == yaml.daemon->0.budget,
        yaml.daemon is Some && base.daemon is Some && yaml.daemon->0.budget is None ==> r.daemon
            is Some && r.daemon->0.budget == base.daemon->0.budget,
{
    let names = texts(r.tools_allowlist@);
    assert forall|i: int, j: int| 0 <= i < names.len() && 0 <= j < names.len() && i != j implies names[i]
        != names[j] by {
        if names[i] == names[j] {
            crate::text_map::lemma_ascending_unique(names, i, j);
        }
    }
}

} // verus!
