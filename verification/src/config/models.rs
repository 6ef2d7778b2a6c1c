//! Model references of agents: named entries of the model registry expanded into
//! a primary model and its fallbacks.

use vstd::prelude::*;

use crate::config::agent_types::AgentProfileOverlay;
use crate::config::yaml_types::ModelRegistryEntry;
use crate::text::{opt_text, texts, trim, trimmed_text};
use crate::text_map::TextMap;

verus! {

/// The model and, if one is given, the tool that a name stands for. A name that
/// is not in the registry is a model id itself.
pub open spec fn model_of(
    name: Seq<char>,
    registry: Map<Seq<char>, ModelRegistryEntry>,
) -> (Seq<char>, Option<Seq<char>>) {
    if registry.contains_key(name) {
        let entry = registry[name];
        (
            trim(entry.model@),
            match entry.tool {
                Some(tool) => if trim(tool@).len() == 0 {
                    None
                } else {
                    Some(trim(tool@))
                },
                None => None,
            },
        )
    } else {
        (name, None)
    }
}

/// The models and tools that a list of names stands for; blank names are
/// skipped.
pub open spec fn models_of(
    names: Seq<Seq<char>>,
    registry: Map<Seq<char>, ModelRegistryEntry>,
) -> Seq<(Seq<char>, Option<Seq<char>>)>
    decreases names.len(),
{
    if names.len() == 0 {
        Seq::empty()
    } else {
        let rest = models_of(names.drop_last(), registry);
        let name = trim(names.last());
        if name.len() == 0 {
            rest
        } else {
            rest.push(model_of(name, registry))
        }
    }
}

/// The models of a chain.
pub open spec fn chain_models(chain: Seq<(Seq<char>, Option<Seq<char>>)>) -> Seq<Seq<char>> {
    chain.map_values(|m: (Seq<char>, Option<Seq<char>>)| m.0)
}

/// The index after the last link of a chain that has a tool, or 0.
pub open spec fn tools_end(chain: Seq<(Seq<char>, Option<Seq<char>>)>) -> nat
    decreases chain.len(),
{
    if chain.len() == 0 {
        0
    } else if chain.last().1 is Some {
        chain.len()
    } else {
        tools_end(chain.drop_last())
    }
}

/// The tool that is given for a link, or the empty text.
pub open spec fn tool_or_empty(link: (Seq<char>, Option<Seq<char>>)) -> Seq<char> {
    match link.1 {
        Some(tool) => tool,
        None => Seq::empty(),
    }
}

/// The tools of a chain, each at its model's index, up to the last one that is
/// given. A link before it that has no tool holds the empty text.
pub open spec fn chain_tools(chain: Seq<(Seq<char>, Option<Seq<char>>)>) -> Seq<Seq<char>> {
    Seq::new(tools_end(chain), |i: int| tool_or_empty(chain[i]))
}

/// The chain of models that a profile's name list stands for.
pub open spec fn profile_chain(
    profile: AgentProfileOverlay,
    registry: Map<Seq<char>, ModelRegistryEntry>,
) -> Seq<(Seq<char>, Option<Seq<char>>)> {
    match profile.models {
        Some(names) => models_of(texts(names@), registry),
        None => Seq::empty(),
    }
}

/// The texts of an optional list.
pub open spec fn opt_texts(o: Option<Vec<String>>) -> Option<Seq<Seq<char>>> {
    match o {
        Some(v) => Some(texts(v@)),
        None => None,
    }
}

/// Whether `after` is `before` with its name list expanded into a non-empty
/// chain, where `derived` is the tool for the primary model if the chain gives
/// none.
pub open spec fn chain_applied(
    before: AgentProfileOverlay,
    after: AgentProfileOverlay,
    chain: Seq<(Seq<char>, Option<Seq<char>>)>,
    derived: Seq<char>,
) -> bool {
    &&& after == (AgentProfileOverlay {
        models: None,
        model: after.model,
        tool: after.tool,
        fallback_models: after.fallback_models,
        fallback_tools: after.fallback_tools,
        ..before
    })
    &&& opt_text(after.model) == Some(chain[0].0)
    &&& opt_text(after.tool) == Some(
        match chain[0].1 {
            Some(tool) => tool,
            None => derived,
        },
    )
    &&& if chain.len() > 1 {
        &&& opt_texts(after.fallback_models) == Some(chain_models(chain.drop_first()))
        &&& opt_texts(after.fallback_tools) == Some(chain_tools(chain.drop_first()))
    } else {
        &&& opt_texts(after.fallback_models) == Some(
            match before.fallback_models {
                Some(v) => texts(v@),
                None => Seq::empty(),
            },
        )
        &&& opt_texts(after.fallback_tools) == Some(
            match before.fallback_tools {
                Some(v) => texts(v@),
                None => Seq::empty(),
            },
        )
    }
}

/// Whether the function may answer `tool` for the model `model`.
pub open spec fn may_derive<F: Fn(&str) -> String>(
    tool_for_model_id: F,
    model: Seq<char>,
    tool: Seq<char>,
) -> bool {
    exists|id: &str, answer: String|
        id@ == model && #[trigger] tool_for_model_id.ensures((id,), answer) && answer@ == tool
}

/// One step of a chain of models.
struct ChainLink {
    model: String,
    tool: Option<String>,
}

spec fn links_view(links: Seq<ChainLink>) -> Seq<(Seq<char>, Option<Seq<char>>)> {
    links.map_values(|l: ChainLink| (l.model@, opt_text(l.tool)))
}

/// The link that a name stands for.
fn link_of(name: &String, registry: &TextMap<ModelRegistryEntry>) -> (r: ChainLink)
    ensures
        (r.model@, opt_text(r.tool)) == model_of(name@, registry@),
{
    match registry.get(name.as_str()) {
        Some(entry) => {
            let tool = match &entry.tool {
                Some(tool) => {
                    let text = trimmed_text(tool.as_str());
                    if text.as_str().is_empty() {
                        None
                    } else {
                        Some(text)
                    }
                },
                None => None,
            };
            ChainLink { model: trimmed_text(entry.model.as_str()), tool }
        },
        None => ChainLink { model: name.clone(), tool: None },
    }
}

fn chain_of(names: &Vec<String>, registry: &TextMap<ModelRegistryEntry>) -> (r: Vec<ChainLink>)
    ensures
        links_view(r@) == models_of(texts(names@), registry@),
{
    let ghost all = texts(names@);
    let mut links: Vec<ChainLink> = Vec::new();
    let mut i: usize = 0;
    proof {
        assert(links_view(links@) =~= Seq::empty());
    }
    while i < names.len()
        invariant
            i <= names@.len(),
            all == texts(names@),
            links_view(links@) == models_of(all.take(i as int), registry@),
        decreases names@.len() - i,
    {
        let ghost before = links@;
        let name = trimmed_text(names[i].as_str());
        proof {
            assert(all.take(i + 1).drop_last() =~= all.take(i as int));
        }
        if !name.as_str().is_empty() {
            let link = link_of(&name, registry);
            links.push(link);
            proof {
                assert(links_view(links@) =~= links_view(before).push(
                    (link.model@, opt_text(link.tool)),
                ));
            }
        }
        i += 1;
    }
    proof {
        assert(all.take(i as int) =~= all);
    }
    links
}

/// The tools of the first `end` links, with the empty text where there is none.
fn tools_up_to(links: &Vec<ChainLink>, end: usize) -> (r: Vec<String>)
    requires
        end <= links@.len(),
    ensures
        texts(r@) == Seq::new(end as nat, |i: int| tool_or_empty(links_view(links@)[i])),
{
    let mut tools: Vec<String> = Vec::new();
    let mut i: usize = 0;
    while i < end
        invariant
            i <= end <= links@.len(),
            tools@.len() == i,
            forall|j: int|
                0 <= j < i ==> (#[trigger] tools@[j])@ == tool_or_empty(links_view(links@)[j]),
        decreases end - i,
    {
        match &links[i].tool {
            Some(tool) => {
                tools.push(tool.clone());
            },
            None => {
                tools.push(String::new());
            },
        }
        i += 1;
    }
    proof {
        assert(texts(tools@) =~= Seq::new(
            end as nat,
            |i: int| tool_or_empty(links_view(links@)[i]),
        ));
    }
    tools
}

/// Resolves an agent's `models:` name list against the model registry.
///
/// The first name becomes the primary `model` and `tool`; where the registry
/// gives no tool, `tool_for_model_id` derives it from the model id. The other
/// names become `fallback_models`. Their tools become `fallback_tools`, each at
/// its model's index, up to the last one that the registry gives; a model before
/// it without a tool has the empty text there. A single name clears inherited
/// fallbacks unless the profile declares its own. The name list is cleared. A
/// profile that names no model is left as it is.
pub fn resolve_agent_model_references<F: Fn(&str) -> String>(
    profile: &mut AgentProfileOverlay,
    registry: &TextMap<ModelRegistryEntry>,
    tool_for_model_id: &F,
)
    requires
        forall|id: &str| #[trigger] tool_for_model_id.requires((id,)),
    ensures
        profile_chain(*old(profile), registry@).len() == 0 ==> *final(profile) == *old(profile),
        profile_chain(*old(profile), registry@).len() > 0 ==> exists|derived: Seq<char>| #[trigger]
            chain_applied(
                *old(profile),
                *final(profile),
                profile_chain(*old(profile), registry@),
                derived,
            ) && (profile_chain(*old(profile), registry@)[0].1 is None ==> may_derive(
                *tool_for_model_id,
                profile_chain(*old(profile), registry@)[0].0,
                derived,
            )),
{
    let ghost chain = profile_chain(*profile, registry@);
    let ghost before = *profile;
    let mut links = match &profile.models {
        Some(names) => chain_of(names, registry),
        None => {
            return;
        },
    };
    if links.len() == 0 {
        return;
    }
    proof {
        assert(links_view(links@) == chain);
        assert(chain[0] == (links@[0].model@, opt_text(links@[0].tool)));
    }
    let ghost all = links@;
    let primary = links.remove(0);
    proof {
        assert(links_view(links@) =~= chain.drop_first());
    }
    let ghost mut derived: Seq<char> = Seq::empty();
    let tool = match primary.tool {
        Some(tool) => tool,
        None => {
            let answer = tool_for_model_id(primary.model.as_str());
            proof {
                derived = answer@;
                assert(may_derive(*tool_for_model_id, primary.model@, derived));
            }
            answer
        },
    };
    let many = links.len() > 0;
    let ghost rest = chain.drop_first();
    let mut models: Vec<String> = Vec::new();
    let mut end: usize = 0;
    let mut i: usize = 0;
    proof {
        assert(texts(models@) =~= chain_models(rest.take(0)));
    }
    while i < links.len()
        invariant
            i <= links@.len(),
            links_view(links@) == rest,
            texts(models@) == chain_models(rest.take(i as int)),
            end == tools_end(rest.take(i as int)),
        decreases links@.len() - i,
    {
        let ghost held_models = models@;
        proof {
            assert(rest[i as int] == (links@[i as int].model@, opt_text(links@[i as int].tool)));
            assert(rest.take(i + 1).drop_last() =~= rest.take(i as int));
        }
        models.push(links[i].model.clone());
        proof {
            assert(texts(models@) =~= texts(held_models).push(links@[i as int].model@));
            assert(chain_models(rest.take(i + 1)) =~= chain_models(rest.take(i as int)).push(
                rest[i as int].0,
            ));
        }
        i += 1;
        if links[i - 1].tool.is_some() {
            end = i;
        }
    }
    proof {
        assert(rest.take(i as int) =~= rest);
        lemma_tools_end(rest);
    }
    let tools = tools_up_to(&links, end);
    proof {
        assert(texts(tools@) =~= chain_tools(rest));
    }
    profile.tool = Some(tool);
    profile.model = Some(primary.model);
    if many {
        profile.fallback_models = Some(models);
        profile.fallback_tools = Some(tools);
    } else {
        if profile.fallback_models.is_none() {
            profile.fallback_models = Some(Vec::new());
        }
        if profile.fallback_tools.is_none() {
            profile.fallback_tools = Some(Vec::new());
        }
        proof {
            assert(texts((profile.fallback_models->0)@) =~= match before.fallback_models {
                Some(v) => texts(v@),
                None => Seq::empty(),
            });
            assert(texts((profile.fallback_tools->0)@) =~= match before.fallback_tools {
                Some(v) => texts(v@),
                None => Seq::empty(),
            });
        }
    }
    profile.models = None;
    proof {
        assert(chain_applied(before, *profile, chain, derived));
    }
}

/// Nothing behind the end of a chain's tools has one, and the link before it has.
proof fn lemma_tools_end(chain: Seq<(Seq<char>, Option<Seq<char>>)>)
    ensures
        tools_end(chain) <= chain.len(),
        tools_end(chain) > 0 ==> chain[tools_end(chain) - 1].1 is Some,
        forall|i: int| tools_end(chain) <= i < chain.len() ==> (#[trigger] chain[i]).1 is None,
    decreases chain.len(),
{
    if chain.len() > 0 && chain.last().1 is None {
        lemma_tools_end(chain.drop_last());
        assert forall|i: int| tools_end(chain) <= i < chain.len() implies (
        #[trigger] chain[i]).1 is None by {
            if i < chain.len() - 1 {
                assert(chain.drop_last()[i].1 is None);
            }
        }
    }
}

/// Every fallback tool stands at the index of its model: it is the tool that the
/// chain gives for that fallback, or empty where it gives none. Fallbacks behind
/// the end of the list have no tool, and the list does not end in a gap.
pub proof fn fallback_tools_stand_with_their_models(
    before: AgentProfileOverlay,
    after: AgentProfileOverlay,
    registry: Map<Seq<char>, ModelRegistryEntry>,
    derived: Seq<char>,
)
    requires
        chain_applied(before, after, profile_chain(before, registry), derived),
        profile_chain(before, registry).len() > 1,
    ensures
        after.fallback_models is Some,
        after.fallback_tools is Some,
        after.fallback_models->0@.len() == profile_chain(before, registry).len() - 1,
        after.fallback_tools->0@.len() <= after.fallback_models->0@.len(),
        forall|i: int|
            0 <= i < after.fallback_models->0@.len() ==> (
            #[trigger] after.fallback_models->0@[i])@ == profile_chain(before, registry)[i + 1].0,
        forall|i: int|
            0 <= i < after.fallback_tools->0@.len() ==> (
            #[trigger] after.fallback_tools->0@[i])@ == tool_or_empty(
                profile_chain(before, registry)[i + 1],
            ),
        forall|i: int|
            after.fallback_tools->0@.len() < i < profile_chain(before, registry).len() ==> (
            #[trigger] profile_chain(before, registry)[i]).1 is None,
        after.fallback_tools->0@.len() > 0 ==> profile_chain(
            before,
            registry,
        )[after.fallback_tools->0@.len() as int].1 is Some,
{
    let chain = profile_chain(before, registry);
    let rest = chain.drop_first();
    let models = after.fallback_models->0@;
    let tools = after.fallback_tools->0@;
    lemma_tools_end(rest);
    assert(texts(models).len() == models.len());
    assert(texts(tools).len() == tools.len());
    assert forall|i: int| 0 <= i < models.len() implies (#[trigger] models[i])@ == chain[i
        + 1].0 by {
        assert(texts(models)[i] == models[i]@);
        assert(chain_models(rest)[i] == rest[i].0);
    }
    assert forall|i: int| 0 <= i < tools.len() implies (#[trigger] tools[i])@ == tool_or_empty(
        chain[i + 1],
    ) by {
        assert(texts(tools)[i] == tools[i]@);
        assert(chain_tools(rest)[i] == tool_or_empty(rest[i]));
    }
    assert forall|i: int| tools.len() < i < chain.len() implies (#[trigger] chain[i]).1 is None by {
        assert(rest[i - 1].1 is None);
    }
}

/// A profile whose name list has been expanded is left as it is by a second
/// expansion.
pub proof fn expansion_happens_once(
    before: AgentProfileOverlay,
    after: AgentProfileOverlay,
    registry: Map<Seq<char>, ModelRegistryEntry>,
    derived: Seq<char>,
)
    requires
        chain_applied(before, after, profile_chain(before, registry), derived),
    ensures
        profile_chain(after, registry).len() == 0,
{
}

/// Every name stands for one model, in order: a registered name for its entry's
/// model and tool, any other for itself and no tool. A blank tool is none.
pub proof fn names_stand_for_their_models(
    names: Seq<Seq<char>>,
    registry: Map<Seq<char>, ModelRegistryEntry>,
    i: int,
)
    requires
        forall|k: int| 0 <= k < names.len() ==> trim(#[trigger] names[k]).len() > 0,
        0 <= i < names.len(),
    ensures
        models_of(names, registry).len() == names.len(),
        !registry.contains_key(trim(names[i])) ==> models_of(names, registry)[i] == (
            trim(names[i]),
            None::<Seq<char>>,
        ),
        registry.contains_key(trim(names[i])) ==> models_of(names, registry)[i].0 == trim(
            registry[trim(names[i])].model@,
        ),
        registry.contains_key(trim(names[i])) && registry[trim(names[i])].tool is None
            ==> models_of(names, registry)[i].1 is None,
        registry.contains_key(trim(names[i])) && registry[trim(names[i])].tool is Some ==> ({
            let tool = trim((registry[trim(names[i])].tool->0)@);
            if tool.len() > 0 {
                models_of(names, registry)[i].1 == Some(tool)
            } else {
                models_of(names, registry)[i].1 is None
            }
        }),
    decreases names.len(),
{
    let front = names.drop_last();
    assert(names.last() == names[names.len() - 1]);
    if front.len() > 0 {
        assert forall|k: int| 0 <= k < front.len() implies trim(#[trigger] front[k]).len() > 0 by {
            assert(front[k] == names[k]);
        }
        let k = if i < front.len() {
            i
        } else {
            0
        };
        names_stand_for_their_models(front, registry, k);
    } else {
        assert(models_of(front, registry).len() == 0);
    }
}

/// Blank names do not count.
pub proof fn blank_names_are_skipped(
    front: Seq<Seq<char>>,
    blank: Seq<char>,
    back: Seq<Seq<char>>,
    registry: Map<Seq<char>, ModelRegistryEntry>,
)
    requires
        trim(blank).len() == 0,
    ensures
        models_of(front + seq![blank] + back, registry) == models_of(front + back, registry),
    decreases back.len(),
{
    let with = front + seq![blank] + back;
    if back.len() == 0 {
        assert(with.drop_last() =~= front);
        assert(with.last() == blank);
        assert(front + back =~= front);
    } else {
        blank_names_are_skipped(front, blank, back.drop_last(), registry);
        assert(with.drop_last() =~= front + seq![blank] + back.drop_last());
        assert((front + back).drop_last() =~= front + back.drop_last());
    }
}

/// The first model of the chain is the agent's, with its tool, or with the derived
/// one where none is given. The others are its fallbacks; where there are no
/// others, the agent's own fallbacks stay. Nothing else of the agent changes.
pub proof fn the_first_model_is_the_primary(
    before: AgentProfileOverlay,
    after: AgentProfileOverlay,
    registry: Map<Seq<char>, ModelRegistryEntry>,
    derived: Seq<char>,
)
    requires
        profile_chain(before, registry).len() > 0,
        chain_applied(before, after, profile_chain(before, registry), derived),
    ensures
        after.model matches Some(m) && m@ == profile_chain(before, registry)[0].0,
        after.tool is Some,
        profile_chain(before, registry)[0].1 matches Some(t) ==> (after.tool->0)@ == t,
        profile_chain(before, registry)[0].1 is None ==> (after.tool->0)@ == derived,
        after.models is None,
        after.fallback_models is Some,
        after.fallback_tools is Some,
        profile_chain(before, registry).len() == 1 && before.fallback_models is None ==> (
        after.fallback_models->0)@.len() == 0,
        profile_chain(before, registry).len() == 1 && before.fallback_models is Some ==> texts(
            (after.fallback_models->0)@,
        ) == texts((before.fallback_models->0)@),
        profile_chain(before, registry).len() == 1 && before.fallback_tools is None ==> (
        after.fallback_tools->0)@.len() == 0,
        profile_chain(before, registry).len() == 1 && before.fallback_tools is Some ==> texts(
            (after.fallback_tools->0)@,
        ) == texts((before.fallback_tools->0)@),
        after.name == before.name,
        after.description == before.description,
        after.system_prompt == before.system_prompt,
        after.system_prompt_file == before.system_prompt_file,
        after.role == before.role,
        after.mcp_servers == before.mcp_servers,
        after.tool_policy == before.tool_policy,
        after.capabilities == before.capabilities,
        after.skills == before.skills,
        after.reasoning_effort == before.reasoning_effort,
        after.permission_mode == before.permission_mode,
        after.timeout_secs == before.timeout_secs,
        after.max_attempts == before.max_attempts,
        after.retry_on == before.retry_on,
        after.no_retry_on == before.no_retry_on,
        after.extra_args == before.extra_args,
{
    let chain = profile_chain(before, registry);
    if chain.len() == 1 {
        assert(texts((after.fallback_models->0)@).len() == (after.fallback_models->0)@.len());
        assert(texts((after.fallback_tools->0)@).len() == (after.fallback_tools->0)@.len());
    }
}

} // verus!
