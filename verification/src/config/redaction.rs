//! Redaction of resolved secret values in messages.

use vstd::prelude::*;
use vstd::slice::slice_subrange;

use crate::text::{
    byte_count, byte_len, chars_of, contains, find, lemma_find_from, lemma_replaced_absent,
    occurs_at, replace_text, replaced, same_chars, texts,
};
use crate::text_map::TextMap;

verus! {

/// The debug rendering of a text.
pub uninterp spec fn debug_rendering(text: Seq<char>) -> Seq<char>;

/// `format!` with `{:?}` of a string: the string in quotes, with backslashes,
/// quotes and control characters escaped.
#[verifier::external_body]
fn debug_text(text: &str) -> (r: String)
    ensures
        r@ == debug_rendering(text@),
{
    format!("{:?}", text)
}

/// A text without its first and last character.
pub open spec fn unquoted(s: Seq<char>) -> Seq<char> {
    if s.len() < 2 {
        s
    } else {
        s.subrange(1, s.len() - 1)
    }
}

/// What takes the place of a secret value.
pub open spec fn redaction_marker(name: Seq<char>) -> Seq<char> {
    "[redacted:"@ + name + "]"@
}

/// A message with one secret value replaced: first as it is, then in its debug
/// rendering where that differs.
pub open spec fn value_redacted(
    message: Seq<char>,
    value: Seq<char>,
    rendering: Seq<char>,
    name: Seq<char>,
) -> Seq<char> {
    let plain = replaced(message, value, redaction_marker(name));
    let escaped = unquoted(rendering);
    if escaped == value {
        plain
    } else {
        replaced(plain, escaped, redaction_marker(name))
    }
}

/// Replaces one secret value in a message by a marker that names it: as it is,
/// and in the given debug rendering where that differs.
pub fn redact_value(message: &str, value: &str, rendering: &str, name: &str) -> (r: String)
    ensures
        r@ == value_redacted(message@, value@, rendering@, name@),
{
    let mut marker = String::new();
    marker.append("[redacted:");
    marker.append(name);
    marker.append("]");
    proof {
        assert(marker@ =~= redaction_marker(name@));
    }
    let marker = chars_of(marker.as_str());
    let value = chars_of(value);
    let rendering = chars_of(rendering);
    let plain = replace_text(chars_of(message).as_slice(), value.as_slice(), marker.as_slice());
    let escaped = if rendering.len() < 2 {
        rendering.as_slice()
    } else {
        slice_subrange(rendering.as_slice(), 1, rendering.len() - 1)
    };
    if same_chars(escaped, value.as_slice()) {
        plain
    } else {
        replace_text(chars_of(plain.as_str()).as_slice(), escaped, marker.as_slice())
    }
}

/// A list, longest first, with one more text put behind those that are at least
/// as long.
pub open spec fn inserted_by_length(list: Seq<Seq<char>>, text: Seq<char>) -> Seq<Seq<char>>
    decreases list.len(),
{
    if list.len() == 0 || byte_len(list.last()) >= byte_len(text) {
        list.push(text)
    } else {
        inserted_by_length(list.drop_last(), text).push(list.last())
    }
}

/// The values that are redacted, longest first: those of at least four
/// characters. Shorter ones are too likely to stand in a message by chance.
pub open spec fn redaction_order(values: Seq<Seq<char>>) -> Seq<Seq<char>>
    decreases values.len(),
{
    if values.len() == 0 {
        Seq::empty()
    } else {
        let rest = redaction_order(values.drop_last());
        if values.last().len() < 4 {
            rest
        } else {
            inserted_by_length(rest, values.last())
        }
    }
}

/// A message with every listed secret value replaced, one after the other.
pub open spec fn all_redacted(
    message: Seq<char>,
    order: Seq<Seq<char>>,
    names: Map<Seq<char>, String>,
) -> Seq<char>
    decreases order.len(),
{
    if order.len() == 0 {
        message
    } else {
        let value = order.last();
        value_redacted(
            all_redacted(message, order.drop_last(), names),
            value,
            debug_rendering(value),
            names[value]@,
        )
    }
}

fn insert_by_length(list: &mut Vec<String>, text: String)
    ensures
        texts(final(list)@) == inserted_by_length(texts(old(list)@), text@),
        final(list)@.len() == old(list)@.len() + 1,
        forall|i: int|
            0 <= i < final(list)@.len() ==> #[trigger] final(list)@[i]@ == text@ || texts(
                old(list)@,
            ).contains(final(list)@[i]@),
{
    let ghost before = texts(list@);
    let ghost added = text@;
    let wanted = byte_count(chars_of(text.as_str()).as_slice());
    let mut at: usize = list.len();
    proof {
        assert(before.skip(before.len() as int) =~= Seq::empty());
        assert(before.take(before.len() as int) =~= before);
        assert(inserted_by_length(before, added) + Seq::empty() =~= inserted_by_length(
            before,
            added,
        ));
    }
    while at > 0 && byte_count(chars_of(list[at - 1].as_str()).as_slice()) < wanted
        invariant
            at <= list@.len(),
            before == texts(list@),
            wanted == byte_len(added),
            inserted_by_length(before, added) == inserted_by_length(
                before.take(at as int),
                added,
            ) + before.skip(at as int),
        decreases at,
    {
        proof {
            let here = before.take(at as int);
            assert(here.drop_last() =~= before.take(at - 1));
            assert(here.last() == list@[at - 1]@);
            assert(inserted_by_length(here, added) == inserted_by_length(
                here.drop_last(),
                added,
            ).push(here.last()));
            assert(inserted_by_length(here.drop_last(), added).push(here.last()) + before.skip(
                at as int,
            ) =~= inserted_by_length(before.take(at - 1), added) + before.skip(at - 1));
        }
        at -= 1;
    }
    proof {
        if at > 0 {
            assert(before.take(at as int).last() == list@[at - 1]@);
        }
        assert(inserted_by_length(before.take(at as int), added) == before.take(at as int).push(
            added,
        ));
    }
    list.insert(at, text);
    proof {
        assert(texts(list@) =~= before.take(at as int).push(added) + before.skip(at as int));
        assert forall|i: int| 0 <= i < list@.len() implies #[trigger] list@[i]@ == added
            || before.contains(list@[i]@) by {
            if i < at {
                assert(before[i] == list@[i]@);
            } else if i > at {
                assert(before[i - 1] == list@[i]@);
            }
        }
    }
}

/// Replaces each resolved secret value in a message by a marker that names it.
/// `resolved_secrets` holds the name of each value under the value. Longer values
/// go first, so that a shorter one inside cannot split a longer one and leave its
/// tail.
pub fn redact_resolved_secret_values(message: &str, resolved_secrets: &TextMap<String>) -> (r:
    String)
    ensures
        r@ == all_redacted(
            message@,
            redaction_order(resolved_secrets.names()),
            resolved_secrets@,
        ),
{
    let n = resolved_secrets.len();
    let ghost names = resolved_secrets.names();
    let mut order: Vec<String> = Vec::new();
    let mut i: usize = 0;
    proof {
        assert(texts(order@) =~= Seq::empty());
    }
    while i < n
        invariant
            i <= n,
            n == names.len(),
            names == resolved_secrets.names(),
            texts(order@) == redaction_order(names.take(i as int)),
            forall|j: int|
                0 <= j < order@.len() ==> resolved_secrets@.contains_key(#[trigger] order@[j]@),
        decreases n - i,
    {
        let value = resolved_secrets.key_at(i);
        proof {
            assert(names.take(i + 1).drop_last() =~= names.take(i as int));
        }
        let ghost before = order@;
        if value.as_str().unicode_len() >= 4 {
            insert_by_length(&mut order, value.clone());
            proof {
                assert forall|j: int|
                    0 <= j < order@.len() implies resolved_secrets@.contains_key(
                    #[trigger] order@[j]@,
                ) by {
                    if order@[j]@ != value@ {
                        let k = texts(before).index_of(order@[j]@);
                        assert(before[k]@ == order@[j]@);
                    }
                }
            }
        }
        i += 1;
    }
    proof {
        assert(names.take(i as int) =~= names);
    }
    let ghost list = texts(order@);
    let mut redacted = message.to_owned();
    let mut k: usize = 0;
    while k < order.len()
        invariant
            k <= order@.len(),
            list == texts(order@),
            redacted@ == all_redacted(message@, list.take(k as int), resolved_secrets@),
            forall|j: int|
                0 <= j < order@.len() ==> resolved_secrets@.contains_key(#[trigger] order@[j]@),
        decreases order@.len() - k,
    {
        let value = &order[k];
        proof {
            assert(resolved_secrets@.contains_key(order@[k as int]@));
            assert(list.take(k + 1).drop_last() =~= list.take(k as int));
            assert(list.take(k + 1).last() == value@);
        }
        if let Some(name) = resolved_secrets.get(value.as_str()) {
            let rendering = debug_text(value.as_str());
            redacted =
            redact_value(redacted.as_str(), value.as_str(), rendering.as_str(), name.as_str());
        }
        k += 1;
    }
    proof {
        assert(list.take(k as int) =~= list);
    }
    redacted
}

/// Whether a message holds neither a value nor its debug rendering.
pub open spec fn free_of(message: Seq<char>, value: Seq<char>) -> bool {
    !contains(message, value) && !contains(message, unquoted(debug_rendering(value)))
}

/// A message that holds none of the secret values, in neither form, is left as
/// it is.
pub proof fn redaction_keeps_clean_messages(
    message: Seq<char>,
    order: Seq<Seq<char>>,
    names: Map<Seq<char>, String>,
)
    requires
        forall|i: int| 0 <= i < order.len() ==> free_of(message, #[trigger] order[i]),
    ensures
        all_redacted(message, order, names) == message,
    decreases order.len(),
{
    if order.len() > 0 {
        let value = order.last();
        assert forall|i: int| 0 <= i < order.drop_last().len() implies free_of(
            message,
            #[trigger] order.drop_last()[i],
        ) by {
            assert(free_of(message, order[i]));
        }
        redaction_keeps_clean_messages(message, order.drop_last(), names);
        assert(free_of(message, order[order.len() - 1]));
        lemma_replaced_absent(message, value, redaction_marker(names[value]@));
        lemma_replaced_absent(
            message,
            unquoted(debug_rendering(value)),
            redaction_marker(names[value]@),
        );
    }
}

/// Whether texts stand longest first.
pub open spec fn longest_first(list: Seq<Seq<char>>) -> bool {
    forall|i: int, j: int|
        0 <= i < j < list.len() ==> byte_len(#[trigger] list[j]) <= byte_len(#[trigger] list[i])
}

proof fn lemma_inserted_longest_first(list: Seq<Seq<char>>, text: Seq<char>)
    requires
        longest_first(list),
    ensures
        longest_first(inserted_by_length(list, text)),
        inserted_by_length(list, text).len() == list.len() + 1,
        forall|t: Seq<char>| #[trigger]
            inserted_by_length(list, text).contains(t) <==> list.contains(t) || t == text,
    decreases list.len(),
{
    let r = inserted_by_length(list, text);
    if list.len() == 0 || byte_len(list.last()) >= byte_len(text) {
        assert forall|t: Seq<char>| #[trigger] r.contains(t) <==> list.contains(t) || t == text by {
            if list.contains(t) {
                assert(r[list.index_of(t)] == t);
            }
            if t == text {
                assert(r[list.len() as int] == t);
            }
            if r.contains(t) {
                let i = r.index_of(t);
                if i < list.len() {
                    assert(list[i] == t);
                }
            }
        }
        assert forall|i: int, j: int| 0 <= i < j < r.len() implies byte_len(#[trigger] r[j])
            <= byte_len(#[trigger] r[i]) by {
            if i < list.len() - 1 {
                assert(byte_len(list[list.len() - 1]) <= byte_len(list[i]));
            }
        }
    } else {
        let short = list.drop_last();
        assert(longest_first(short)) by {
            assert forall|i: int, j: int|
                0 <= i < j < short.len() implies byte_len(#[trigger] short[j]) <= byte_len(
                #[trigger] short[i],
            ) by {
                assert(byte_len(list[j]) <= byte_len(list[i]));
            }
        }
        lemma_inserted_longest_first(short, text);
        let inner = inserted_by_length(short, text);
        assert forall|t: Seq<char>| #[trigger] r.contains(t) <==> list.contains(t) || t == text by {
            if inner.contains(t) {
                assert(r[inner.index_of(t)] == t);
            }
            if t == list.last() {
                assert(r[inner.len() as int] == t);
            }
            if r.contains(t) {
                let i = r.index_of(t);
                if i < inner.len() {
                    assert(inner[i] == t);
                }
            }
            if list.contains(t) {
                let i = list.index_of(t);
                if i < short.len() {
                    assert(short[i] == t);
                    assert(short.contains(t));
                }
            }
            if short.contains(t) {
                assert(list[short.index_of(t)] == t);
            }
            if t == list.last() {
                assert(list[list.len() - 1] == t);
            }
        }
        assert forall|i: int, j: int| 0 <= i < j < r.len() implies byte_len(#[trigger] r[j])
            <= byte_len(#[trigger] r[i]) by {
            if j == inner.len() {
                let t = inner[i];
                assert(inner.contains(t));
                if t != text {
                    assert(short.contains(t));
                    let k = short.index_of(t);
                    assert(byte_len(list[list.len() - 1]) <= byte_len(list[k]));
                }
            }
        }
    }
}

/// Values are redacted longest first, and exactly those of at least four
/// characters are.
pub proof fn redaction_goes_longest_first(values: Seq<Seq<char>>)
    ensures
        longest_first(redaction_order(values)),
        forall|t: Seq<char>| #[trigger]
            redaction_order(values).contains(t) <==> values.contains(t) && t.len() >= 4,
    decreases values.len(),
{
    if values.len() > 0 {
        let rest = values.drop_last();
        redaction_goes_longest_first(rest);
        if values.last().len() >= 4 {
            lemma_inserted_longest_first(redaction_order(rest), values.last());
        }
        assert forall|t: Seq<char>| #[trigger] redaction_order(values).contains(t)
            <==> values.contains(t) && t.len() >= 4 by {
            assert(redaction_order(rest).contains(t) <==> rest.contains(t) && t.len() >= 4);
            if rest.contains(t) {
                assert(values[rest.index_of(t)] == t);
            }
            if values.contains(t) {
                let i = values.index_of(t);
                if i < rest.len() {
                    assert(rest[i] == t);
                }
            }
            if t == values.last() {
                assert(values[values.len() - 1] == t);
            }
        }
    }
}

// ---------------------------------------------------------------------
// What is left of the values
// ---------------------------------------------------------------------

/// Whether a text, laid over a marker from index `d` of the marker on, agrees
/// with it where the two overlap.
pub open spec fn agrees(text: Seq<char>, marker: Seq<char>, d: int) -> bool {
    forall|j: int|
        0 <= j < text.len() && 0 <= d + j < marker.len() ==> #[trigger] text[j] == marker[d + j]
}

/// Whether an occurrence of a text can share a character with a marker: the text
/// can be laid over the marker so that they overlap and agree.
pub open spec fn touches(text: Seq<char>, marker: Seq<char>) -> bool {
    exists|d: int| -text.len() < d < marker.len() && #[trigger] agrees(text, marker, d)
}

proof fn lemma_absent_around_marker(
    a: Seq<char>,
    marker: Seq<char>,
    b: Seq<char>,
    text: Seq<char>,
)
    requires
        text.len() > 0,
        !contains(a, text),
        !contains(b, text),
        !touches(text, marker),
        marker.len() > 0,
    ensures
        !contains(a + marker + b, text),
{
    let whole = a + marker + b;
    if contains(whole, text) {
        let i = choose|i: int| occurs_at(whole, text, i);
        let n = text.len() as int;
        if i + n <= a.len() {
            assert(a.subrange(i, i + n) =~= whole.subrange(i, i + n));
            assert(occurs_at(a, text, i));
        } else if i >= a.len() + marker.len() {
            let k = i - a.len() - marker.len();
            assert(b.subrange(k, k + n) =~= whole.subrange(i, i + n));
            assert(occurs_at(b, text, k));
        } else {
            let d = i - a.len();
            assert forall|j: int| 0 <= j < n && 0 <= d + j < marker.len() implies #[trigger] text[j]
                == marker[d + j] by {
                assert(whole.subrange(i, i + n)[j] == whole[i + j]);
            }
            assert(agrees(text, marker, d));
        }
    }
}

/// A text that is absent stays absent where something else is replaced by a
/// marker that it does not touch.
proof fn lemma_stays_absent(s: Seq<char>, from: Seq<char>, marker: Seq<char>, text: Seq<char>)
    requires
        text.len() > 0,
        !contains(s, text),
        !touches(text, marker),
        marker.len() > 0,
    ensures
        !contains(replaced(s, from, marker), text),
    decreases s.len(),
{
    lemma_find_from(s, from, 0);
    if from.len() > 0 {
        if let Some(i) = find(s, from) {
            let head = s.take(i);
            let rest = s.skip(i + from.len());
            if contains(head, text) {
                let k = choose|k: int| occurs_at(head, text, k);
                assert(s.subrange(k, k + text.len()) =~= head.subrange(k, k + text.len()));
                assert(occurs_at(s, text, k));
            }
            if contains(rest, text) {
                let k = choose|k: int| occurs_at(rest, text, k);
                let at = k + i + from.len();
                assert(s.subrange(at, at + text.len()) =~= rest.subrange(k, k + text.len()));
                assert(occurs_at(s, text, at));
            }
            lemma_stays_absent(rest, from, marker, text);
            lemma_absent_around_marker(head, marker, replaced(rest, from, marker), text);
        }
    }
}

/// A text that is replaced by a marker that it does not touch is gone.
proof fn lemma_replaced_is_gone(s: Seq<char>, text: Seq<char>, marker: Seq<char>)
    requires
        text.len() > 0,
        !touches(text, marker),
        marker.len() > 0,
    ensures
        !contains(replaced(s, text, marker), text),
    decreases s.len(),
{
    lemma_find_from(s, text, 0);
    match find(s, text) {
        None => {
            if contains(s, text) {
                let k = choose|k: int| occurs_at(s, text, k);
                assert(!occurs_at(s, text, k));
            }
        },
        Some(i) => {
            let head = s.take(i);
            let rest = s.skip(i + text.len());
            if contains(head, text) {
                let k = choose|k: int| occurs_at(head, text, k);
                assert(s.subrange(k, k + text.len()) =~= head.subrange(k, k + text.len()));
                assert(occurs_at(s, text, k));
            }
            lemma_replaced_is_gone(rest, text, marker);
            lemma_absent_around_marker(head, marker, replaced(rest, text, marker), text);
        },
    }
}

/// Whether neither a value nor its debug rendering touches a marker.
pub open spec fn clear_of(value: Seq<char>, marker: Seq<char>) -> bool {
    !touches(value, marker) && !touches(unquoted(debug_rendering(value)), marker)
}

/// Whether a message holds neither a value nor, unless it is empty, its debug
/// rendering.
pub open spec fn rid_of(message: Seq<char>, value: Seq<char>) -> bool {
    let escaped = unquoted(debug_rendering(value));
    !contains(message, value) && (escaped.len() > 0 ==> !contains(message, escaped))
}

proof fn lemma_value_redacted(
    message: Seq<char>,
    value: Seq<char>,
    name: Seq<char>,
    other: Seq<char>,
)
    requires
        value.len() > 0,
        other.len() > 0,
        clear_of(value, redaction_marker(name)),
        clear_of(other, redaction_marker(name)),
    ensures
        rid_of(value_redacted(message, value, debug_rendering(value), name), value),
        rid_of(message, other) ==> rid_of(
            value_redacted(message, value, debug_rendering(value), name),
            other,
        ),
{
    reveal_strlit("[redacted:");
    let marker = redaction_marker(name);
    assert(marker.len() > 0);
    let plain = replaced(message, value, marker);
    let escaped = unquoted(debug_rendering(value));
    lemma_replaced_is_gone(message, value, marker);
    lemma_stays_absent(plain, escaped, marker, value);
    if escaped.len() > 0 {
        lemma_replaced_is_gone(plain, escaped, marker);
    }
    if rid_of(message, other) {
        lemma_stays_absent(message, value, marker, other);
        lemma_stays_absent(plain, escaped, marker, other);
        let rendering = unquoted(debug_rendering(other));
        if rendering.len() > 0 {
            lemma_stays_absent(message, value, marker, rendering);
            lemma_stays_absent(plain, escaped, marker, rendering);
        }
    }
}

proof fn lemma_all_redacted(
    message: Seq<char>,
    order: Seq<Seq<char>>,
    names: Map<Seq<char>, String>,
    i: int,
)
    requires
        0 <= i < order.len(),
        forall|k: int| 0 <= k < order.len() ==> (#[trigger] order[k]).len() > 0,
        forall|k: int, m: int|
            0 <= k < order.len() && 0 <= m < order.len() ==> clear_of(
                #[trigger] order[k],
                redaction_marker(names[#[trigger] order[m]]@),
            ),
    ensures
        rid_of(all_redacted(message, order, names), order[i]),
    decreases order.len(),
{
    let before = order.drop_last();
    let last = order.len() - 1;
    assert(order[last] == order.last());
    assert(order[i].len() > 0);
    assert(order[last].len() > 0);
    assert(clear_of(order[i], redaction_marker(names[order[last]]@)));
    assert(clear_of(order[last], redaction_marker(names[order[last]]@)));
    if i < last {
        assert forall|k: int| 0 <= k < before.len() implies (#[trigger] before[k]).len() > 0 by {
            assert(before[k] == order[k]);
        }
        assert forall|k: int, m: int|
            0 <= k < before.len() && 0 <= m < before.len() implies clear_of(
            #[trigger] before[k],
            redaction_marker(names[#[trigger] before[m]]@),
        ) by {
            assert(clear_of(order[k], redaction_marker(names[order[m]]@)));
        }
        lemma_all_redacted(message, before, names, i);
        assert(before[i] == order[i]);
    }
    lemma_value_redacted(
        all_redacted(message, before, names),
        order[last],
        names[order[last]]@,
        order[i],
    );
}

/// No secret value survives redaction, neither as it is nor in its debug
/// rendering, provided that it has at least four characters and touches none of
/// the markers. A value that a marker holds, such as `redacted`, is put back by
/// the marker.
pub proof fn no_secret_survives(
    message: Seq<char>,
    values: Seq<Seq<char>>,
    names: Map<Seq<char>, String>,
    value: Seq<char>,
)
    requires
        values.contains(value),
        value.len() >= 4,
        forall|k: int, m: int|
            0 <= k < values.len() && 0 <= m < values.len() && values[k].len() >= 4
                && values[m].len() >= 4 ==> clear_of(
                #[trigger] values[k],
                redaction_marker(names[#[trigger] values[m]]@),
            ),
    ensures
        rid_of(all_redacted(message, redaction_order(values), names), value),
{
    let order = redaction_order(values);
    redaction_goes_longest_first(values);
    assert(order.contains(value));
    let i = order.index_of(value);
    assert forall|k: int| 0 <= k < order.len() implies (#[trigger] order[k]).len() > 0 by {
        assert(order.contains(order[k]));
    }
    assert forall|k: int, m: int|
        0 <= k < order.len() && 0 <= m < order.len() implies clear_of(
        #[trigger] order[k],
        redaction_marker(names[#[trigger] order[m]]@),
    ) by {
        assert(order.contains(order[k]) && order.contains(order[m]));
        let a = values.index_of(order[k]);
        let b = values.index_of(order[m]);
        assert(values[a] == order[k] && values[b] == order[m]);
    }
    lemma_all_redacted(message, order, names, i);
}

/// Where a secret value stands in a message, a marker with its name takes its
/// place: the text in front stays, and the text behind is redacted as it would be
/// alone. So it is with a value that looks the same in its debug rendering.
pub proof fn a_secret_gives_way_to_its_marker(
    front: Seq<char>,
    value: Seq<char>,
    back: Seq<char>,
    names: Map<Seq<char>, String>,
)
    requires
        value.len() > 0,
        unquoted(debug_rendering(value)) == value,
        forall|j: int|
            0 <= j < front.len() ==> !#[trigger] occurs_at(front + value + back, value, j),
    ensures
        all_redacted(front + value + back, seq![value], names) == front + "[redacted:"@
            + names[value]@ + "]"@ + all_redacted(back, seq![value], names),
{
    let message = front + value + back;
    let n = front.len() as int;
    let marker = redaction_marker(names[value]@);
    assert(message.subrange(n, n + value.len()) =~= value);
    crate::text::replacing_goes_on_behind(message, value, marker, n);
    assert(message.take(n) =~= front);
    assert(message.skip(n + value.len()) =~= back);
    let order = seq![value];
    assert(order.drop_last() =~= Seq::empty());
    assert(order.last() == value);
    assert(all_redacted(message, order.drop_last(), names) == message);
    assert(all_redacted(back, order.drop_last(), names) == back);
    assert(all_redacted(message, order, names) =~= front + "[redacted:"@ + names[value]@ + "]"@
        + all_redacted(back, order, names));
}

/// A secret value that stands in a message only in its debug rendering gives way
/// to the marker too.
pub proof fn a_rendered_secret_gives_way_to_its_marker(
    front: Seq<char>,
    value: Seq<char>,
    back: Seq<char>,
    names: Map<Seq<char>, String>,
)
    requires
        value.len() > 0,
        unquoted(debug_rendering(value)).len() > 0,
        unquoted(debug_rendering(value)) != value,
        !contains(front + unquoted(debug_rendering(value)) + back, value),
        forall|j: int|
            0 <= j < front.len() ==> !#[trigger] occurs_at(
                front + unquoted(debug_rendering(value)) + back,
                unquoted(debug_rendering(value)),
                j,
            ),
    ensures
        all_redacted(front + unquoted(debug_rendering(value)) + back, seq![value], names) == front
            + "[redacted:"@ + names[value]@ + "]"@ + all_redacted(back, seq![value], names),
{
    let shown = unquoted(debug_rendering(value));
    let message = front + shown + back;
    let n = front.len() as int;
    let marker = redaction_marker(names[value]@);
    lemma_replaced_absent(message, value, marker);
    assert forall|j: int| !#[trigger] occurs_at(back, value, j) by {
        if occurs_at(back, value, j) {
            let k = n + shown.len() + j;
            assert(message.subrange(k, k + value.len()) =~= back.subrange(j, j + value.len()));
            assert(occurs_at(message, value, k));
        }
    }
    lemma_replaced_absent(back, value, marker);
    assert(message.subrange(n, n + shown.len()) =~= shown);
    crate::text::replacing_goes_on_behind(message, shown, marker, n);
    assert(message.take(n) =~= front);
    assert(message.skip(n + shown.len()) =~= back);
    let order = seq![value];
    assert(order.drop_last() =~= Seq::empty());
    assert(order.last() == value);
    assert(all_redacted(message, order.drop_last(), names) == message);
    assert(all_redacted(back, order.drop_last(), names) == back);
    assert(all_redacted(message, order, names) =~= front + "[redacted:"@ + names[value]@ + "]"@
        + all_redacted(back, order, names));
}

/// Values are redacted one after the other: what comes last in the order is
/// redacted in what the others have left.
pub proof fn secrets_are_redacted_in_turn(
    message: Seq<char>,
    first: Seq<Seq<char>>,
    then: Seq<Seq<char>>,
    names: Map<Seq<char>, String>,
)
    ensures
        all_redacted(message, first + then, names) == all_redacted(
            all_redacted(message, first, names),
            then,
            names,
        ),
    decreases then.len(),
{
    if then.len() > 0 {
        secrets_are_redacted_in_turn(message, first, then.drop_last(), names);
        assert((first + then).drop_last() =~= first + then.drop_last());
    } else {
        assert(first + then =~= first);
    }
}

} // verus!
