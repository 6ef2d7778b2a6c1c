//! Workflow variables: their values, and their expansion in text.

use vstd::prelude::*;
use vstd::slice::slice_subrange;

use crate::config::workflow_types::WorkflowVariable;
use crate::text::{
    chars_of, find, find_text, join_texts, joined, lemma_find_from, push_chars, string_of, texts,
};
use crate::text_map::{
    comes_before, lemma_less_total, lemma_less_transitive, text_less, TextMap,
};

verus! {

// ---------------------------------------------------------------------
// Values
// ---------------------------------------------------------------------

/// The texts of a map of strings.
pub open spec fn text_values(m: Map<Seq<char>, String>) -> Map<Seq<char>, Seq<char>> {
    m.map_values(|t: String| t@)
}

/// The value of a variable: the one given, else its default.
pub open spec fn variable_value(
    var: WorkflowVariable,
    given: Map<Seq<char>, Seq<char>>,
) -> Option<Seq<char>> {
    if given.contains_key(var.name@) {
        Some(given[var.name@])
    } else {
        match var.default {
            Some(d) => Some(d@),
            None => None,
        }
    }
}

/// The values of the variables that have one, later definitions of a name
/// replacing earlier ones.
pub open spec fn variable_values(
    vars: Seq<WorkflowVariable>,
    given: Map<Seq<char>, Seq<char>>,
) -> Map<Seq<char>, Seq<char>>
    decreases vars.len(),
{
    if vars.len() == 0 {
        Map::empty()
    } else {
        let rest = variable_values(vars.drop_last(), given);
        match variable_value(vars.last(), given) {
            Some(value) => rest.insert(vars.last().name@, value),
            None => rest,
        }
    }
}

/// The names of the required variables that have no value, in their order.
pub open spec fn missing_variables(
    vars: Seq<WorkflowVariable>,
    given: Map<Seq<char>, Seq<char>>,
) -> Seq<Seq<char>>
    decreases vars.len(),
{
    if vars.len() == 0 {
        Seq::empty()
    } else {
        let rest = missing_variables(vars.drop_last(), given);
        if vars.last().required && variable_value(vars.last(), given) is None {
            rest.push(vars.last().name@)
        } else {
            rest
        }
    }
}

/// Texts in order, equal ones side by side.
pub open spec fn in_order(s: Seq<Seq<char>>) -> bool {
    forall|i: int, j: int| 0 <= i < j < s.len() ==> !text_less(#[trigger] s[j], #[trigger] s[i])
}

/// Required variables without a value, by name and in order.
#[derive(Debug, Clone)]
pub struct MissingVariables {
    pub names: Vec<String>,
}

impl MissingVariables {
    /// The error as one line of text.
    pub fn message(&self) -> (r: String)
        ensures
            r@ == "missing required workflow variable(s): "@ + joined(texts(self.names@), ", "@),
    {
        let mut out = String::new();
        out.append("missing required workflow variable(s): ");
        out.append(join_texts(self.names.as_slice(), ", ").as_str());
        proof {
            assert(out@ =~= "missing required workflow variable(s): "@ + joined(
                texts(self.names@),
                ", "@,
            ));
        }
        out
    }
}

/// Puts a text into its place among texts in order.
fn insert_in_order(sorted: &mut Vec<String>, text: String)
    requires
        in_order(texts(old(sorted)@)),
    ensures
        in_order(texts(final(sorted)@)),
        texts(final(sorted)@).to_multiset() == texts(old(sorted)@).to_multiset().insert(text@),
{
    let wanted = chars_of(text.as_str());
    let ghost before = texts(sorted@);
    let mut at: usize = sorted.len();
    while at > 0 && comes_before(wanted.as_slice(), chars_of(sorted[at - 1].as_str()).as_slice())
        invariant
            at <= sorted@.len(),
            wanted@ == text@,
            before == texts(sorted@),
            forall|i: int| at <= i < sorted@.len() ==> text_less(text@, #[trigger] before[i]),
        decreases at,
    {
        at -= 1;
    }
    let ghost added = text@;
    proof {
        assert forall|i: int| 0 <= i < at implies !text_less(added, #[trigger] before[i]) by {
            assert(!text_less(added, before[at - 1]));
            if i < at - 1 && text_less(added, before[i]) {
                assert(!text_less(before[at - 1], before[i]));
                lemma_less_total(before[at - 1], before[i]);
                if before[at - 1] != before[i] {
                    lemma_less_transitive(added, before[i], before[at - 1]);
                }
            }
        }
    }
    sorted.insert(at, text);
    proof {
        let after = texts(sorted@);
        assert(after =~= before.insert(at as int, added));
        assert forall|i: int, j: int| 0 <= i < j < after.len() implies !text_less(
            #[trigger] after[j],
            #[trigger] after[i],
        ) by {
            let i0 = if i < at {
                i
            } else {
                i - 1
            };
            let j0 = if j < at {
                j
            } else {
                j - 1
            };
            if i == at {
                assert(text_less(added, before[j0]));
                crate::text_map::lemma_less_asymmetric(added, before[j0]);
            } else if j == at {
                assert(!text_less(added, before[i0]));
            } else {
                assert(!text_less(before[j0], before[i0]));
            }
        }
        broadcast use vstd::multiset::group_multiset_axioms;

        after.to_multiset_ensures();
        assert(after.remove(at as int) =~= before);
        assert(after[at as int] == added);
        assert(after.contains(added));
        assert(after.to_multiset().count(added) > 0);
        assert(after.to_multiset() =~= before.to_multiset().insert(added));
    }
}

/// The values of a workflow's variables: the ones given, else the defaults.
/// Fails exactly if a required variable has neither; the error names all of
/// those, in order.
pub fn resolve_workflow_variables(
    definitions: &[WorkflowVariable],
    cli_vars: &TextMap<String>,
) -> (r: Result<TextMap<String>, MissingVariables>)
    ensures
        match r {
            Ok(values) => missing_variables(definitions@, text_values(cli_vars@)).len() == 0
                && text_values(values@) == variable_values(definitions@, text_values(cli_vars@)),
            Err(e) => missing_variables(definitions@, text_values(cli_vars@)).len() > 0 && in_order(
                texts(e.names@),
            ) && texts(e.names@).to_multiset() == missing_variables(
                definitions@,
                text_values(cli_vars@),
            ).to_multiset(),
        },
{
    let ghost given = text_values(cli_vars@);
    let mut resolved: TextMap<String> = TextMap::new();
    let mut missing: Vec<String> = Vec::new();
    let mut i: usize = 0;
    proof {
        assert(text_values(resolved@) =~= Map::empty());
        assert(texts(missing@) =~= Seq::empty());
    }
    while i < definitions.len()
        invariant
            i <= definitions@.len(),
            given == text_values(cli_vars@),
            text_values(resolved@) == variable_values(definitions@.take(i as int), given),
            in_order(texts(missing@)),
            texts(missing@).to_multiset() == missing_variables(
                definitions@.take(i as int),
                given,
            ).to_multiset(),
        decreases definitions@.len() - i,
    {
        let var = &definitions[i];
        let ghost held = resolved@;
        let ghost so_far = definitions@.take(i as int);
        let ghost next = definitions@.take(i + 1);
        proof {
            assert(next.drop_last() =~= so_far);
            assert(next.last() == *var);
        }
        match cli_vars.get(var.name.as_str()) {
            Some(value) => {
                let copy = value.clone();
                resolved.insert(var.name.clone(), copy);
                proof {
                    assert(text_values(resolved@) =~= text_values(held).insert(
                        var.name@,
                        copy@,
                    ));
                }
            },
            None => match &var.default {
                Some(value) => {
                    let copy = value.clone();
                    resolved.insert(var.name.clone(), copy);
                    proof {
                        assert(text_values(resolved@) =~= text_values(held).insert(
                            var.name@,
                            copy@,
                        ));
                    }
                },
                None => {
                    if var.required {
                        insert_in_order(&mut missing, var.name.clone());
                        proof {
                            missing_variables(so_far, given).to_multiset_ensures();
                        }
                    }
                },
            },
        }
        i += 1;
    }
    proof {
        assert(definitions@.take(i as int) =~= definitions@);
        texts(missing@).to_multiset_ensures();
        missing_variables(definitions@, given).to_multiset_ensures();
        assert(texts(missing@).len() == missing_variables(definitions@, given).len());
    }
    if missing.len() > 0 {
        return Err(MissingVariables { names: missing });
    }
    Ok(resolved)
}

// ---------------------------------------------------------------------
// Expansion
// ---------------------------------------------------------------------

/// A text with every `{{name}}` of a known variable replaced by its value, from
/// left to right. A `{{` in front of an unknown name stays, and the text behind
/// its first brace is looked at again; values are not looked at again.
pub open spec fn expanded(text: Seq<char>, vars: Map<Seq<char>, Seq<char>>) -> Seq<char>
    decreases text.len(),
    via expanded_decreases
{
    match find(text, seq!['{', '{']) {
        None => text,
        Some(start) => {
            let tail = text.skip(start + 2);
            match find(tail, seq!['}', '}']) {
                None => text,
                Some(len) => {
                    let name = tail.take(len);
                    if vars.contains_key(name) {
                        text.take(start) + vars[name] + expanded(tail.skip(len + 2), vars)
                    } else {
                        text.take(start + 1) + expanded(text.skip(start + 1), vars)
                    }
                },
            }
        },
    }
}

#[via_fn]
proof fn expanded_decreases(text: Seq<char>, vars: Map<Seq<char>, Seq<char>>) {
    lemma_find_from(text, seq!['{', '{'], 0);
    if let Some(start) = find(text, seq!['{', '{']) {
        lemma_find_from(text.skip(start + 2), seq!['}', '}'], 0);
    }
}

/// A text with every `{{name}}` of a known variable replaced by its value.
pub fn expand_variables(text: &str, vars: &TextMap<String>) -> (r: String)
    ensures
        r@ == expanded(text@, text_values(vars@)),
{
    let chars = chars_of(text);
    let open: Vec<char> = vec!['{', '{'];
    let close: Vec<char> = vec!['}', '}'];
    proof {
        assert(open@ =~= seq!['{', '{']);
        assert(close@ =~= seq!['}', '}']);
        assert(chars@.skip(0) =~= chars@);
    }
    let mut result = String::new();
    let mut from: usize = 0;
    proof {
        assert(result@ + expanded(chars@, text_values(vars@)) =~= expanded(
            chars@,
            text_values(vars@),
        ));
    }
    loop
        invariant
            from <= chars@.len(),
            open@ == seq!['{', '{'],
            close@ == seq!['}', '}'],
            result@ + expanded(chars@.skip(from as int), text_values(vars@)) == expanded(
                chars@,
                text_values(vars@),
            ),
        ensures
            from <= chars@.len(),
            result@ + chars@.skip(from as int) == expanded(chars@, text_values(vars@)),
        decreases chars@.len() - from,
    {
        let ghost before = result@;
        let rest = slice_subrange(chars.as_slice(), from, chars.len());
        proof {
            assert(rest@ =~= chars@.skip(from as int));
        }
        let start = match find_text(rest, open.as_slice()) {
            None => {
                break;
            },
            Some(start) => start,
        };
        let tail = slice_subrange(rest, start + 2, rest.len());
        proof {
            assert(tail@ =~= rest@.skip(start + 2));
        }
        let len = match find_text(tail, close.as_slice()) {
            None => {
                break;
            },
            Some(len) => len,
        };
        let name = string_of(slice_subrange(tail, 0, len));
        proof {
            assert(name@ =~= tail@.take(len as int));
        }
        match vars.get(name.as_str()) {
            Some(value) => {
                push_chars(&mut result, slice_subrange(rest, 0, start));
                result.append(value.as_str());
                let ghost left = tail@.skip(len + 2);
                from = from + start + 2 + len + 2;
                proof {
                    assert(chars@.skip(from as int) =~= left);
                    assert(rest@.subrange(0, start as int) =~= rest@.take(start as int));
                    assert(result@ + expanded(left, text_values(vars@)) =~= before + (rest@.take(
                        start as int,
                    ) + value@ + expanded(left, text_values(vars@))));
                }
            },
            None => {
                push_chars(&mut result, slice_subrange(rest, 0, start + 1));
                let ghost left = rest@.skip(start + 1);
                from = from + start + 1;
                proof {
                    assert(chars@.skip(from as int) =~= left);
                    assert(rest@.subrange(0, start + 1) =~= rest@.take(start + 1));
                    assert(result@ + expanded(left, text_values(vars@)) =~= before + (rest@.take(
                        start + 1,
                    ) + expanded(left, text_values(vars@))));
                }
            },
        }
    }
    push_chars(&mut result, slice_subrange(chars.as_slice(), from, chars.len()));
    proof {
        assert(chars@.subrange(from as int, chars@.len() as int) =~= chars@.skip(from as int));
    }
    result
}

/// Text without `{{` is left as it is.
pub proof fn expansion_keeps_plain_text(text: Seq<char>, vars: Map<Seq<char>, Seq<char>>)
    requires
        !crate::text::contains(text, seq!['{', '{']),
    ensures
        expanded(text, vars) == text,
{
    lemma_find_from(text, seq!['{', '{'], 0);
    if let Some(start) = find(text, seq!['{', '{']) {
        assert(crate::text::occurs_at(text, seq!['{', '{'], start));
    }
}

/// Without variables every text is left as it is.
pub proof fn expansion_without_variables(text: Seq<char>)
    ensures
        expanded(text, Map::empty()) == text,
    decreases text.len(),
{
    lemma_find_from(text, seq!['{', '{'], 0);
    if let Some(start) = find(text, seq!['{', '{']) {
        if find(text.skip(start + 2), seq!['}', '}']) is Some {
            expansion_without_variables(text.skip(start + 1));
            assert(text.take(start + 1) + text.skip(start + 1) =~= text);
        }
    }
}

// ---------------------------------------------------------------------
// Laws
// ---------------------------------------------------------------------

/// Text in front of the placeholders is kept: a part that holds no `{{` and does
/// not end in `{` changes nothing of how the rest is expanded.
pub proof fn expansion_keeps_text_in_front(
    front: Seq<char>,
    rest: Seq<char>,
    vars: Map<Seq<char>, Seq<char>>,
)
    requires
        forall|i: int| 0 <= i < front.len() - 1 ==> !(#[trigger] front[i] == '{' && front[i + 1]
            == '{'),
        front.len() > 0 ==> front.last() != '{',
    ensures
        expanded(front + rest, vars) == front + expanded(rest, vars),
{
    let text = front + rest;
    let n = front.len() as int;
    let open = seq!['{', '{'];
    lemma_find_from(text, open, 0);
    lemma_find_from(rest, open, 0);
    assert forall|j: int| #[trigger] crate::text::occurs_at(text, open, j) implies j >= n
        && crate::text::occurs_at(rest, open, j - n) by {
        assert(text.subrange(j, j + 2)[0] == '{' && text.subrange(j, j + 2)[1] == '{');
        assert(text[j] == '{' && text[j + 1] == '{');
        if j < n - 1 {
            assert(front[j] == '{' && front[j + 1] == '{');
        }
        assert(rest.subrange(j - n, j - n + 2) =~= text.subrange(j, j + 2));
    }
    assert forall|j: int| #[trigger] crate::text::occurs_at(rest, open, j) implies
        crate::text::occurs_at(text, open, j + n) by {
        assert(rest.subrange(j, j + 2) =~= text.subrange(j + n, j + n + 2));
    }
    match find(rest, open) {
        None => {
            if let Some(at) = find(text, open) {
                assert(crate::text::occurs_at(rest, open, at - n));
            }
        },
        Some(start) => {
            assert(crate::text::occurs_at(text, open, start + n));
            let at = find(text, open)->0;
            assert(crate::text::occurs_at(rest, open, at - n));
            assert(at == start + n);
            assert(text.skip(at + 2) =~= rest.skip(start + 2));
            assert(text.skip(at + 1) =~= rest.skip(start + 1));
            assert(text.take(at) =~= front + rest.take(start));
            assert(text.take(at + 1) =~= front + rest.take(start + 1));
            assert(expanded(text, vars) =~= front + expanded(rest, vars));
        },
    }
}

proof fn lemma_pair_at(text: Seq<char>, c: char, at: int)
    requires
        0 <= at,
        at + 2 <= text.len(),
    ensures
        crate::text::occurs_at(text, seq![c, c], at) <==> text[at] == c && text[at + 1] == c,
{
    let pair = seq![c, c];
    let part = text.subrange(at, at + 2);
    assert(part[0] == text[at] && part[1] == text[at + 1]);
    if text[at] == c && text[at + 1] == c {
        assert(part =~= pair);
    }
    if part == pair {
        assert(pair[0] == c && pair[1] == c);
    }
}

/// The first pair of a character stands where nothing before it is one.
proof fn lemma_first_pair(text: Seq<char>, c: char, at: int)
    requires
        0 <= at,
        at + 2 <= text.len(),
        text[at] == c,
        text[at + 1] == c,
        forall|i: int| 0 <= i < at ==> #[trigger] text[i] != c,
    ensures
        find(text, seq![c, c]) == Some(at),
{
    lemma_find_from(text, seq![c, c], 0);
    lemma_pair_at(text, c, at);
    assert(crate::text::occurs_at(text, seq![c, c], at));
    let found = find(text, seq![c, c])->0;
    if found < at {
        lemma_pair_at(text, c, found);
    }
}

proof fn lemma_first_placeholder(name: Seq<char>, back: Seq<char>)
    requires
        forall|i: int| 0 <= i < name.len() ==> #[trigger] name[i] != '{' && name[i] != '}',
    ensures
        find(seq!['{', '{'] + name + seq!['}', '}'] + back, seq!['{', '{']) == Some(0int),
        find(name + seq!['}', '}'] + back, seq!['}', '}']) == Some(name.len() as int),
{
    let open = seq!['{', '{'];
    let close = seq!['}', '}'];
    let text = open + name + close + back;
    assert(text[0] == open[0] && text[1] == open[1]);
    lemma_first_pair(text, '{', 0);
    let tail = name + close + back;
    let n = name.len() as int;
    assert(tail[n] == close[0] && tail[n + 1] == close[1]);
    assert forall|i: int| 0 <= i < n implies #[trigger] tail[i] != '}' by {
        assert(tail[i] == name[i]);
    }
    lemma_first_pair(tail, '}', n);
}

/// A placeholder with a known name is replaced by the variable's value, and what
/// stands behind it is expanded as it would be alone.
pub proof fn known_placeholders_are_replaced(
    front: Seq<char>,
    name: Seq<char>,
    back: Seq<char>,
    vars: Map<Seq<char>, Seq<char>>,
)
    requires
        forall|i: int| 0 <= i < front.len() ==> #[trigger] front[i] != '{',
        forall|i: int| 0 <= i < name.len() ==> #[trigger] name[i] != '{' && name[i] != '}',
        vars.contains_key(name),
    ensures
        expanded(front + seq!['{', '{'] + name + seq!['}', '}'] + back, vars) == front + vars[name]
            + expanded(back, vars),
{
    let text = seq!['{', '{'] + name + seq!['}', '}'] + back;
    lemma_first_placeholder(name, back);
    let tail = name + seq!['}', '}'] + back;
    assert(text.skip(2) =~= tail);
    assert(tail.take(name.len() as int) =~= name);
    assert(tail.skip(name.len() as int + 2) =~= back);
    assert(text.take(0) =~= Seq::<char>::empty());
    assert(expanded(text, vars) =~= vars[name] + expanded(back, vars));
    expansion_keeps_text_in_front(front, text, vars);
    assert(front + text =~= front + seq!['{', '{'] + name + seq!['}', '}'] + back);
    assert(front + (vars[name] + expanded(back, vars)) =~= front + vars[name] + expanded(
        back,
        vars,
    ));
}

/// A placeholder with an unknown name stays as it is, and what stands behind it
/// is expanded as it would be alone.
pub proof fn unknown_placeholders_stay(
    front: Seq<char>,
    name: Seq<char>,
    back: Seq<char>,
    vars: Map<Seq<char>, Seq<char>>,
)
    requires
        forall|i: int| 0 <= i < front.len() ==> #[trigger] front[i] != '{',
        forall|i: int| 0 <= i < name.len() ==> #[trigger] name[i] != '{' && name[i] != '}',
        !vars.contains_key(name),
    ensures
        expanded(front + seq!['{', '{'] + name + seq!['}', '}'] + back, vars) == front + seq![
            '{',
            '{',
        ] + name + seq!['}', '}'] + expanded(back, vars),
{
    let text = seq!['{', '{'] + name + seq!['}', '}'] + back;
    lemma_first_placeholder(name, back);
    let tail = name + seq!['}', '}'] + back;
    assert(text.skip(2) =~= tail);
    assert(tail.take(name.len() as int) =~= name);
    let inner = seq!['{'] + name + seq!['}', '}'];
    assert(text.skip(1) =~= inner + back);
    assert forall|i: int| 0 <= i < inner.len() - 1 implies !(#[trigger] inner[i] == '{' && inner[i
        + 1] == '{') by {
        if i > 0 && i <= name.len() {
            assert(inner[i] == name[i - 1]);
        }
        if i == 0 && name.len() > 0 {
            assert(inner[1] == name[0]);
        }
    }
    expansion_keeps_text_in_front(inner, back, vars);
    assert(text.take(1) =~= seq!['{']);
    let kept = seq!['{', '{'] + name + seq!['}', '}'];
    assert(expanded(text, vars) =~= kept + expanded(back, vars));
    expansion_keeps_text_in_front(front, text, vars);
    assert(front + text =~= front + seq!['{', '{'] + name + seq!['}', '}'] + back);
    assert(front + (kept + expanded(back, vars)) =~= front + seq!['{', '{'] + name + seq![
        '}',
        '}',
    ] + expanded(back, vars));
}

/// Text that opens a placeholder and never closes one behind it is kept.
pub proof fn unclosed_placeholders_stay(
    front: Seq<char>,
    back: Seq<char>,
    vars: Map<Seq<char>, Seq<char>>,
)
    requires
        forall|i: int| 0 <= i < front.len() ==> #[trigger] front[i] != '{',
        !crate::text::contains(back, seq!['}', '}']),
    ensures
        expanded(front + seq!['{', '{'] + back, vars) == front + seq!['{', '{'] + back,
{
    let text = seq!['{', '{'] + back;
    assert(text.subrange(0, 2) =~= seq!['{', '{']);
    assert(crate::text::occurs_at(text, seq!['{', '{'], 0));
    assert(text.skip(2) =~= back);
    lemma_find_from(back, seq!['}', '}'], 0);
    if let Some(at) = find(back, seq!['}', '}']) {
        assert(crate::text::occurs_at(back, seq!['}', '}'], at));
    }
    assert(expanded(text, vars) == text);
    expansion_keeps_text_in_front(front, text, vars);
    assert(front + text =~= front + seq!['{', '{'] + back);
}

/// The value of a declared variable: the given one wherever one is given; else
/// the last default that is declared for its name. No other name has a value.
pub proof fn given_values_win_over_defaults(
    vars: Seq<WorkflowVariable>,
    given: Map<Seq<char>, Seq<char>>,
    i: int,
)
    requires
        0 <= i < vars.len(),
    ensures
        given.contains_key(vars[i].name@) ==> variable_values(vars, given).contains_key(
            vars[i].name@,
        ) && variable_values(vars, given)[vars[i].name@] == given[vars[i].name@],
        !given.contains_key(vars[i].name@) && vars[i].default is Some && (forall|j: int|
            i < j < vars.len() ==> (#[trigger] vars[j]).name@ != vars[i].name@ || vars[j].default
                is None) ==> variable_values(vars, given).contains_key(vars[i].name@)
            && variable_values(vars, given)[vars[i].name@] == (vars[i].default->0)@,
    decreases vars.len(),
{
    let rest = vars.drop_last();
    if i < vars.len() - 1 {
        given_values_win_over_defaults(rest, given, i);
        if !given.contains_key(vars[i].name@) && vars[i].default is Some && (forall|j: int|
            i < j < vars.len() ==> (#[trigger] vars[j]).name@ != vars[i].name@ || vars[j].default
                is None) {
            assert forall|j: int| i < j < rest.len() implies (#[trigger] rest[j]).name@
                != rest[i].name@ || rest[j].default is None by {
                assert(rest[j] == vars[j]);
            }
            assert(vars.last() == vars[vars.len() - 1]);
        }
    }
}

/// A name has a value only if a variable of that name is declared, and is given
/// or has a default.
pub proof fn only_declared_variables_have_values(
    vars: Seq<WorkflowVariable>,
    given: Map<Seq<char>, Seq<char>>,
    name: Seq<char>,
)
    ensures
        variable_values(vars, given).contains_key(name) ==> exists|i: int|
            0 <= i < vars.len() && (#[trigger] vars[i]).name@ == name && (given.contains_key(name)
                || vars[i].default is Some),
    decreases vars.len(),
{
    if vars.len() > 0 && variable_values(vars, given).contains_key(name) {
        let rest = vars.drop_last();
        only_declared_variables_have_values(rest, given, name);
        if variable_values(rest, given).contains_key(name) {
            let i = choose|i: int|
                0 <= i < rest.len() && (#[trigger] rest[i]).name@ == name && (given.contains_key(
                    name,
                ) || rest[i].default is Some);
            assert(vars[i] == rest[i]);
        } else {
            assert(vars[vars.len() - 1].name@ == name);
        }
    }
}

/// A name is reported missing exactly if a required variable of that name is
/// neither given nor has a default.
pub proof fn required_variables_are_missed(
    vars: Seq<WorkflowVariable>,
    given: Map<Seq<char>, Seq<char>>,
    name: Seq<char>,
)
    ensures
        missing_variables(vars, given).contains(name) <==> exists|i: int|
            0 <= i < vars.len() && (#[trigger] vars[i]).name@ == name && vars[i].required
                && vars[i].default is None && !given.contains_key(name),
    decreases vars.len(),
{
    if vars.len() > 0 {
        let rest = vars.drop_last();
        let last = vars[vars.len() - 1];
        let before = missing_variables(rest, given);
        let all = missing_variables(vars, given);
        required_variables_are_missed(rest, given, name);
        if before.contains(name) {
            let i = choose|i: int|
                0 <= i < rest.len() && (#[trigger] rest[i]).name@ == name && rest[i].required
                    && rest[i].default is None && !given.contains_key(name);
            assert(vars[i] == rest[i]);
            let k = before.index_of(name);
            assert(all[k] == name);
        }
        if last.name@ == name && last.required && last.default is None && !given.contains_key(
            name,
        ) {
            assert(all[all.len() - 1] == name);
        }
        if all.contains(name) && !before.contains(name) {
            let k = all.index_of(name);
            if k < before.len() {
                assert(before[k] == name);
            }
            assert(last.name@ == name);
        }
        if exists|i: int|
            0 <= i < vars.len() && (#[trigger] vars[i]).name@ == name && vars[i].required
                && vars[i].default is None && !given.contains_key(name) {
            let i = choose|i: int|
                0 <= i < vars.len() && (#[trigger] vars[i]).name@ == name && vars[i].required
                    && vars[i].default is None && !given.contains_key(name);
            if i < rest.len() {
                assert(rest[i].name@ == name);
                assert(before.contains(name));
            }
        }
    }
}

/// Missing names are told in ascending order.
pub proof fn missing_names_come_in_order(names: Seq<Seq<char>>, i: int, j: int)
    requires
        in_order(names),
        0 <= i < j < names.len(),
    ensures
        names[i] == names[j] || text_less(names[i], names[j]),
{
    lemma_less_total(names[i], names[j]);
    assert(!text_less(names[j], names[i]));
}

} // verus!
