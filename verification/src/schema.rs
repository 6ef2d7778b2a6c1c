//! JSON Schema documents, bundled into one.
//!
//! A bundle holds the schemas of several types, and the definitions nested in
//! them, under one `$defs`, so that `#/$defs/<Name>` means the same in all of
//! them.

use vstd::prelude::*;
use vstd::slice::slice_subrange;

use crate::application::{
    APPLICATION_CHAT_CONTROLS_SCHEMA, MAX_APPLICATION_CHAT_CONTROLS_BYTES,
    MAX_APPLICATION_CHAT_CONTROL_REF_BYTES, MAX_APPLICATION_CHAT_ERROR_BYTES,
    MAX_APPLICATION_CHAT_SEQUENCE, MAX_APPLICATION_PROTOCOL_STRING_BYTES,
};
use crate::json::{json_content, make_value, JsonContent, JsonParts};
use crate::lists::reversed;
use crate::text::{chars_of, has_prefix, same_text, starts_with, string_of};
use crate::text_map::TextMap;

verus! {

// ---------------------------------------------------------------------
// Documents
// ---------------------------------------------------------------------

/// A JSON document as a tree.
#[derive(Debug)]
pub enum JsonNode {
    /// Null, a boolean or a number.
    Scalar(serde_json::Value),
    /// A string.
    Text(String),
    /// An array.
    List(Vec<JsonNode>),
    /// An object.
    Object(Vec<JsonEntry>),
}

/// One member of an object.
#[derive(Debug)]
pub struct JsonEntry {
    /// Key.
    pub key: String,
    /// Value.
    pub value: JsonNode,
}

/// The schema of a type.
#[derive(Debug)]
pub struct NamedSchema {
    /// Name of the type.
    pub name: String,
    /// Its schema.
    pub schema: JsonNode,
}

/// Whether a tree is this string.
pub open spec fn is_text(node: JsonNode, text: Seq<char>) -> bool {
    node is Text && node->Text_0@ == text
}

/// Whether a member refers to the root of the document that it stands in.
pub open spec fn is_root_ref(entry: JsonEntry) -> bool {
    entry.key@ == "$ref"@ && is_text(entry.value, "#"@)
}

/// Whether something in a tree refers to the root of the document.
pub open spec fn has_root_ref(node: JsonNode) -> bool
    decreases node,
{
    match node {
        JsonNode::Scalar(_) => false,
        JsonNode::Text(_) => false,
        JsonNode::List(items) => exists|i: int|
            0 <= i < items@.len() && has_root_ref(#[trigger] items@[i]),
        JsonNode::Object(entries) => exists|i: int|
            0 <= i < entries@.len() && (is_root_ref(#[trigger] entries@[i]) || has_root_ref(
                entries@[i].value,
            )),
    }
}

// ---------------------------------------------------------------------
// References to the root
// ---------------------------------------------------------------------

/// The reference to a type in a bundle.
pub open spec fn bundled_ref(name: Seq<char>) -> Seq<char> {
    "#/$defs/"@ + name
}

/// Whether a tree is another with every reference to the root turned into one
/// to a type in a bundle.
pub open spec fn is_rewritten(from: JsonNode, to: JsonNode, name: Seq<char>) -> bool
    decreases from,
{
    match (from, to) {
        (JsonNode::Scalar(a), JsonNode::Scalar(b)) => a == b,
        (JsonNode::Text(a), JsonNode::Text(b)) => a@ == b@,
        (JsonNode::List(a), JsonNode::List(b)) => {
            &&& a@.len() == b@.len()
            &&& forall|i: int|
                0 <= i < a@.len() ==> is_rewritten(#[trigger] a@[i], #[trigger] b@[i], name)
        },
        (JsonNode::Object(a), JsonNode::Object(b)) => {
            &&& a@.len() == b@.len()
            &&& forall|i: int|
                0 <= i < a@.len() ==> {
                    &&& (#[trigger] a@[i]).key@ == (#[trigger] b@[i]).key@
                    &&& if is_root_ref(a@[i]) {
                        is_text(b@[i].value, bundled_ref(name))
                    } else {
                        is_rewritten(a@[i].value, b@[i].value, name)
                    }
                }
        },
        _ => false,
    }
}

/// A tree with every reference to the root turned into one to a type in a
/// bundle. Inside a bundle the root is the bundle's, and no longer the type's.
pub fn rewrite_root_self_refs(node: JsonNode, name: &str) -> (r: JsonNode)
    ensures
        is_rewritten(node, r, name@),
    decreases node,
{
    let ghost whole = node;
    match node {
        JsonNode::Scalar(value) => JsonNode::Scalar(value),
        JsonNode::Text(text) => JsonNode::Text(text),
        JsonNode::List(items) => {
            let ghost before = items@;
            let mut rest = reversed(items);
            let mut out: Vec<JsonNode> = Vec::new();
            while rest.len() > 0
                invariant
                    node == whole,
                    whole is List,
                    whole->List_0@ == before,
                    rest@.len() + out@.len() == before.len(),
                    forall|i: int|
                        0 <= i < rest@.len() ==> rest@[i] == before[before.len() - 1 - i],
                    forall|i: int|
                        0 <= i < out@.len() ==> is_rewritten(
                            #[trigger] before[i],
                            #[trigger] out@[i],
                            name@,
                        ),
                decreases rest@.len(),
            {
                let item = rest.pop().unwrap();
                proof {
                    assert(item == whole->List_0@[out@.len() as int]);
                }
                out.push(rewrite_root_self_refs(item, name));
            }
            JsonNode::List(out)
        },
        JsonNode::Object(entries) => {
            let ghost before = entries@;
            let mut rest = reversed(entries);
            let mut out: Vec<JsonEntry> = Vec::new();
            while rest.len() > 0
                invariant
                    node == whole,
                    whole is Object,
                    whole->Object_0@ == before,
                    rest@.len() + out@.len() == before.len(),
                    forall|i: int|
                        0 <= i < rest@.len() ==> rest@[i] == before[before.len() - 1 - i],
                    forall|i: int|
                        0 <= i < out@.len() ==> {
                            &&& (#[trigger] before[i]).key@ == (#[trigger] out@[i]).key@
                            &&& if is_root_ref(before[i]) {
                                is_text(out@[i].value, bundled_ref(name@))
                            } else {
                                is_rewritten(before[i].value, out@[i].value, name@)
                            }
                        },
                decreases rest@.len(),
            {
                let entry = rest.pop().unwrap();
                proof {
                    assert(entry == whole->Object_0@[out@.len() as int]);
                }
                let to_root = same_text(entry.key.as_str(), "$ref") && match &entry.value {
                    JsonNode::Text(text) => same_text(text.as_str(), "#"),
                    _ => false,
                };
                let value = if to_root {
                    let mut reference = "#/$defs/".to_owned();
                    reference.append(name);
                    JsonNode::Text(reference)
                } else {
                    rewrite_root_self_refs(entry.value, name)
                };
                out.push(JsonEntry { key: entry.key, value });
            }
            JsonNode::Object(out)
        },
    }
}

// ---------------------------------------------------------------------
// Bundles
// ---------------------------------------------------------------------

/// Index of the first member with a key, or the number of members where there
/// is none.
pub open spec fn entry_index(entries: Seq<JsonEntry>, key: Seq<char>) -> int
    decreases entries.len(),
{
    if entries.len() == 0 || entries[0].key@ == key {
        0
    } else {
        1 + entry_index(entries.drop_first(), key)
    }
}

/// The definitions nested in a schema.
pub open spec fn nested_definitions(schema: JsonNode) -> Seq<JsonEntry> {
    match schema {
        JsonNode::Object(entries) => {
            let i = entry_index(entries@, "$defs"@);
            if i < entries@.len() && entries@[i].value is Object {
                entries@[i].value->Object_0@
            } else {
                Seq::empty()
            }
        },
        _ => Seq::empty(),
    }
}

/// Whether a member of a schema stays in the schema when it is bundled.
pub open spec fn stays(entry: JsonEntry) -> bool {
    entry.key@ != "$defs"@ && entry.key@ != "$schema"@
}

/// Whether a tree is a schema without its nested definitions and its mark as a
/// document of its own.
pub open spec fn is_bare(node: JsonNode, schema: JsonNode) -> bool {
    match schema {
        JsonNode::Object(entries) => node is Object && node->Object_0@ == entries@.filter(
            |entry: JsonEntry| stays(entry),
        ),
        _ => node == schema,
    }
}

/// Where a definition of a bundle comes from.
pub enum Origin {
    /// It is the schema with this index.
    Schema(int),
    /// It is nested in the schema with the first index, under the second.
    Nested(int, int),
}

/// Definitions with the first `k` ones nested in a schema, where their names
/// are not taken.
pub open spec fn with_nested(
    definitions: Map<Seq<char>, Origin>,
    nested: Seq<JsonEntry>,
    schema: int,
    k: int,
) -> Map<Seq<char>, Origin>
    decreases k,
{
    if k <= 0 || k > nested.len() {
        definitions
    } else {
        let before = with_nested(definitions, nested, schema, k - 1);
        let key = nested[k - 1].key@;
        if before.contains_key(key) {
            before
        } else {
            before.insert(key, Origin::Nested(schema, k - 1))
        }
    }
}

/// Where the definitions of a bundle come from. A schema goes before nested
/// definitions of its name and before earlier schemas of its name; of nested
/// definitions of one name the first stays.
pub open spec fn origins(schemas: Seq<NamedSchema>) -> Map<Seq<char>, Origin>
    decreases schemas.len(),
{
    if schemas.len() == 0 {
        Map::empty()
    } else {
        let nested = nested_definitions(schemas.last().schema);
        with_nested(
            origins(schemas.drop_last()),
            nested,
            schemas.len() - 1,
            nested.len() as int,
        ).insert(schemas.last().name@, Origin::Schema(schemas.len() - 1))
    }
}

/// Whether a tree is what its origin says.
pub open spec fn is_from(node: JsonNode, schemas: Seq<NamedSchema>, origin: Origin) -> bool {
    match origin {
        Origin::Schema(i) => 0 <= i < schemas.len() && is_bare(node, schemas[i].schema),
        Origin::Nested(i, j) => {
            &&& 0 <= i < schemas.len()
            &&& 0 <= j < nested_definitions(schemas[i].schema).len()
            &&& node == nested_definitions(schemas[i].schema)[j].value
        },
    }
}

/// Whether definitions are those of a bundle of schemas.
pub open spec fn is_bundle(
    definitions: Map<Seq<char>, JsonNode>,
    schemas: Seq<NamedSchema>,
) -> bool {
    &&& definitions.dom() == origins(schemas).dom()
    &&& forall|key: Seq<char>| #[trigger]
        definitions.contains_key(key) ==> is_from(
            definitions[key],
            schemas,
            origins(schemas)[key],
        )
}

proof fn lemma_entry_index(entries: Seq<JsonEntry>, key: Seq<char>, k: int)
    requires
        0 <= k <= entries.len(),
        forall|i: int| 0 <= i < k ==> (#[trigger] entries[i]).key@ != key,
        k == entries.len() || entries[k].key@ == key,
    ensures
        entry_index(entries, key) == k,
    decreases k,
{
    if k > 0 {
        assert(entries[0].key@ != key);
        assert forall|i: int| 0 <= i < k - 1 implies (#[trigger] entries.drop_first()[i]).key@
            != key by {
            assert(entries.drop_first()[i] == entries[i + 1]);
        }
        lemma_entry_index(entries.drop_first(), key, k - 1);
    }
}

proof fn lemma_filter_push(entries: Seq<JsonEntry>, entry: JsonEntry)
    ensures
        entries.push(entry).filter(|e: JsonEntry| stays(e)) == if stays(entry) {
            entries.filter(|e: JsonEntry| stays(e)).push(entry)
        } else {
            entries.filter(|e: JsonEntry| stays(e))
        },
{
    reveal(Seq::filter);
    assert(entries.push(entry).drop_last() =~= entries);
}

/// The definitions nested in a schema, and the schema without them.
fn split_schema(schema: JsonNode) -> (r: (Vec<JsonEntry>, JsonNode))
    ensures
        r.0@ == nested_definitions(schema),
        is_bare(r.1, schema),
{
    match schema {
        JsonNode::Object(entries) => {
            let ghost before = entries@;
            let mut rest = reversed(entries);
            let mut nested: Vec<JsonEntry> = Vec::new();
            let mut bare: Vec<JsonEntry> = Vec::new();
            let mut found = false;
            let ghost mut k: int = 0;
            let ghost mut at: int = 0;
            proof {
                reveal(Seq::filter);
                assert(before.take(0) =~= Seq::<JsonEntry>::empty());
            }
            while rest.len() > 0
                invariant
                    0 <= k <= before.len(),
                    rest@.len() + k == before.len(),
                    forall|i: int|
                        0 <= i < rest@.len() ==> rest@[i] == before[before.len() - 1 - i],
                    bare@ == before.take(k).filter(|e: JsonEntry| stays(e)),
                    !found ==> nested@.len() == 0 && forall|i: int|
                        0 <= i < k ==> (#[trigger] before[i]).key@ != "$defs"@,
                    found ==> 0 <= at < k && before[at].key@ == "$defs"@ && forall|i: int|
                        0 <= i < at ==> (#[trigger] before[i]).key@ != "$defs"@,
                    found ==> nested@ == if before[at].value is Object {
                        before[at].value->Object_0@
                    } else {
                        Seq::<JsonEntry>::empty()
                    },
                decreases rest@.len(),
            {
                let entry = rest.pop().unwrap();
                proof {
                    assert(entry == before[k]);
                    assert(before.take(k + 1) =~= before.take(k).push(entry));
                    lemma_filter_push(before.take(k), entry);
                }
                if same_text(entry.key.as_str(), "$defs") {
                    if !found {
                        found = true;
                        proof {
                            at = k;
                        }
                        if let JsonNode::Object(inner) = entry.value {
                            nested = inner;
                        }
                    }
                } else if !same_text(entry.key.as_str(), "$schema") {
                    bare.push(entry);
                }
                proof {
                    k = k + 1;
                }
            }
            proof {
                assert(before.take(k) =~= before);
                lemma_entry_index(before, "$defs"@, if found {
                    at
                } else {
                    k
                });
            }
            (nested, JsonNode::Object(bare))
        },
        other => (Vec::new(), other),
    }
}

/// The definitions of a bundle of schemas.
pub fn bundle_definitions(schemas: Vec<NamedSchema>) -> (r: TextMap<JsonNode>)
    ensures
        is_bundle(r@, schemas@),
{
    let ghost whole = schemas@;
    let mut rest = reversed(schemas);
    let mut definitions: TextMap<JsonNode> = TextMap::new();
    let ghost mut k: int = 0;
    proof {
        assert(whole.take(0) =~= Seq::<NamedSchema>::empty());
    }
    while rest.len() > 0
        invariant
            0 <= k <= whole.len(),
            rest@.len() + k == whole.len(),
            forall|i: int| 0 <= i < rest@.len() ==> rest@[i] == whole[whole.len() - 1 - i],
            definitions@.dom() == origins(whole.take(k)).dom(),
            forall|key: Seq<char>| #[trigger]
                definitions@.contains_key(key) ==> is_from(
                    definitions@[key],
                    whole,
                    origins(whole.take(k))[key],
                ),
        decreases rest@.len(),
    {
        let next = rest.pop().unwrap();
        let ghost prefix = whole.take(k + 1);
        proof {
            assert(next == whole[k]);
            assert(prefix.drop_last() =~= whole.take(k));
            assert(prefix.last() == next);
        }
        let ghost taken = origins(whole.take(k));
        let (nested, bare) = split_schema(next.schema);
        let ghost inner = nested@;
        let mut waiting = reversed(nested);
        let ghost mut j: int = 0;
        while waiting.len() > 0
            invariant
                0 <= k < whole.len(),
                0 <= j <= inner.len(),
                waiting@.len() + j == inner.len(),
                inner == nested_definitions(whole[k].schema),
                forall|i: int|
                    0 <= i < waiting@.len() ==> waiting@[i] == inner[inner.len() - 1 - i],
                definitions@.dom() == with_nested(taken, inner, k, j).dom(),
                forall|key: Seq<char>| #[trigger]
                    definitions@.contains_key(key) ==> is_from(
                        definitions@[key],
                        whole,
                        with_nested(taken, inner, k, j)[key],
                    ),
            decreases waiting@.len(),
        {
            let entry = waiting.pop().unwrap();
            proof {
                assert(entry == inner[j]);
            }
            if !definitions.contains_key(entry.key.as_str()) {
                definitions.insert(entry.key, entry.value);
            }
            proof {
                j = j + 1;
                assert(definitions@.dom() =~= with_nested(taken, inner, k, j).dom());
            }
        }
        definitions.insert(next.name, bare);
        proof {
            assert(definitions@.dom() =~= origins(prefix).dom());
            k = k + 1;
        }
    }
    proof {
        assert(whole.take(k) =~= whole);
    }
    definitions
}

/// Schemas, each with its references to its root turned into ones to its type
/// in a bundle.
pub fn rewrite_all(schemas: Vec<NamedSchema>) -> (r: Vec<NamedSchema>)
    ensures
        r@.len() == schemas@.len(),
        forall|i: int|
            0 <= i < r@.len() ==> {
                &&& (#[trigger] r@[i]).name@ == (#[trigger] schemas@[i]).name@
                &&& is_rewritten(schemas@[i].schema, r@[i].schema, schemas@[i].name@)
            },
        are_rewritten(schemas@, r@),
{
    let ghost whole = schemas@;
    let mut rest = reversed(schemas);
    let mut out: Vec<NamedSchema> = Vec::new();
    while rest.len() > 0
        invariant
            rest@.len() + out@.len() == whole.len(),
            forall|i: int| 0 <= i < rest@.len() ==> rest@[i] == whole[whole.len() - 1 - i],
            forall|i: int|
                0 <= i < out@.len() ==> {
                    &&& (#[trigger] out@[i]).name@ == (#[trigger] whole[i]).name@
                    &&& is_rewritten(whole[i].schema, out@[i].schema, whole[i].name@)
                },
        decreases rest@.len(),
    {
        let next = rest.pop().unwrap();
        proof {
            assert(next == whole[out@.len() as int]);
        }
        let schema = rewrite_root_self_refs(next.schema, next.name.as_str());
        out.push(NamedSchema { name: next.name, schema });
    }
    out
}

// ---------------------------------------------------------------------
// The document of a bundle
// ---------------------------------------------------------------------

/// What a bundle says it is written in.
pub const BUNDLE_SCHEMA: &'static str = "https://json-schema.org/draft/2020-12/schema";

/// Whether members are definitions, in ascending order of their names.
pub open spec fn are_definitions(
    entries: Seq<JsonEntry>,
    definitions: Map<Seq<char>, JsonNode>,
    names: Seq<Seq<char>>,
) -> bool {
    &&& entries.len() == names.len()
    &&& forall|i: int|
        0 <= i < entries.len() ==> (#[trigger] entries[i]).key@ == names[i] && entries[i].value
            == definitions[names[i]]
}

/// Whether a document is the bundle with this title, these definitions and
/// these limits.
pub open spec fn is_bundle_document(
    document: JsonNode,
    title: Seq<char>,
    definitions: TextMap<JsonNode>,
    limits: Option<JsonNode>,
) -> bool {
    let entries = document->Object_0@;
    let last: int = if limits is Some {
        3
    } else {
        2
    };
    &&& document is Object
    &&& entries.len() == last + 1
    &&& entries[0].key@ == "$schema"@
    &&& is_text(entries[0].value, BUNDLE_SCHEMA@)
    &&& entries[1].key@ == "title"@
    &&& is_text(entries[1].value, title)
    &&& limits is Some ==> entries[2].key@ == "x-animus-limits"@ && entries[2].value == limits->0
    &&& entries[last].key@ == "$defs"@
    &&& entries[last].value is Object
    &&& are_definitions(
        entries[last].value->Object_0@,
        definitions@,
        definitions.names(),
    )
}

fn definition_entries(definitions: TextMap<JsonNode>) -> (r: Vec<JsonEntry>)
    ensures
        are_definitions(r@, definitions@, definitions.names()),
{
    let (keys, values) = definitions.into_parts();
    let ghost names = definitions.names();
    let ghost trees = values@;
    let mut keys = reversed(keys);
    let mut values = reversed(values);
    let mut out: Vec<JsonEntry> = Vec::new();
    proof {
        assert forall|i: int| 0 <= i < keys@.len() implies (#[trigger] keys@[i])@ == names[names.len()
            - 1 - i] by {}
    }
    while keys.len() > 0 && values.len() > 0
        invariant
            keys@.len() == values@.len(),
            keys@.len() + out@.len() == names.len(),
            trees.len() == names.len(),
            forall|i: int|
                0 <= i < keys@.len() ==> (#[trigger] keys@[i])@ == names[names.len() - 1 - i],
            forall|i: int| 0 <= i < values@.len() ==> values@[i] == trees[trees.len() - 1 - i],
            forall|i: int| 0 <= i < trees.len() ==> #[trigger] trees[i] == definitions@[names[i]],
            forall|i: int|
                0 <= i < out@.len() ==> (#[trigger] out@[i]).key@ == names[i] && out@[i].value
                    == definitions@[names[i]],
        decreases keys@.len(),
    {
        let key = keys.pop().unwrap();
        let value = values.pop().unwrap();
        proof {
            assert(value == trees[out@.len() as int]);
        }
        out.push(JsonEntry { key, value });
    }
    out
}

/// The document of a bundle.
pub fn bundle_document(
    title: &str,
    definitions: TextMap<JsonNode>,
    limits: Option<JsonNode>,
) -> (r: JsonNode)
    ensures
        is_bundle_document(r, title@, definitions, limits),
{
    let mut entries: Vec<JsonEntry> = Vec::new();
    entries.push(
        JsonEntry { key: "$schema".to_owned(), value: JsonNode::Text(BUNDLE_SCHEMA.to_owned()) },
    );
    entries.push(JsonEntry { key: "title".to_owned(), value: JsonNode::Text(title.to_owned()) });
    if let Some(limits) = limits {
        entries.push(JsonEntry { key: "x-animus-limits".to_owned(), value: limits });
    }
    entries.push(
        JsonEntry {
            key: "$defs".to_owned(),
            value: JsonNode::Object(definition_entries(definitions)),
        },
    );
    JsonNode::Object(entries)
}

/// Whether a member holds this number.
pub open spec fn is_number_entry(entry: JsonEntry, key: Seq<char>, number: u64) -> bool {
    &&& entry.key@ == key
    &&& entry.value is Scalar
    &&& json_content(entry.value->Scalar_0) == JsonContent::Number(Some(number))
}

/// Whether a tree states the limits of the application protocol.
pub open spec fn states_limits(node: JsonNode) -> bool {
    let entries = node->Object_0@;
    &&& node is Object
    &&& entries.len() == 7
    &&& entries[0].key@ == "schema"@
    &&& is_text(entries[0].value, "animus.application.limits.v1"@)
    &&& entries[1].key@ == "application_chat_controls_schema"@
    &&& is_text(entries[1].value, APPLICATION_CHAT_CONTROLS_SCHEMA@)
    &&& is_number_entry(
        entries[2],
        "application_chat_controls_max_utf8_bytes"@,
        MAX_APPLICATION_CHAT_CONTROLS_BYTES as u64,
    )
    &&& is_number_entry(
        entries[3],
        "application_chat_control_ref_max_utf8_bytes"@,
        MAX_APPLICATION_CHAT_CONTROL_REF_BYTES as u64,
    )
    &&& is_number_entry(
        entries[4],
        "application_protocol_string_max_utf8_bytes"@,
        MAX_APPLICATION_PROTOCOL_STRING_BYTES as u64,
    )
    &&& is_number_entry(
        entries[5],
        "application_chat_error_max_utf8_bytes"@,
        MAX_APPLICATION_CHAT_ERROR_BYTES as u64,
    )
    &&& is_number_entry(
        entries[6],
        "application_chat_sequence_max"@,
        MAX_APPLICATION_CHAT_SEQUENCE,
    )
}

fn number_entry(key: &str, number: u64) -> (r: JsonEntry)
    ensures
        is_number_entry(r, key@, number),
{
    JsonEntry {
        key: key.to_owned(),
        value: JsonNode::Scalar(make_value(JsonParts::Number(number))),
    }
}

/// The limits of the application protocol.
pub fn application_limits() -> (r: JsonNode)
    ensures
        states_limits(r),
{
    let mut entries: Vec<JsonEntry> = Vec::new();
    entries.push(
        JsonEntry {
            key: "schema".to_owned(),
            value: JsonNode::Text("animus.application.limits.v1".to_owned()),
        },
    );
    entries.push(
        JsonEntry {
            key: "application_chat_controls_schema".to_owned(),
            value: JsonNode::Text(APPLICATION_CHAT_CONTROLS_SCHEMA.to_owned()),
        },
    );
    entries.push(
        number_entry(
            "application_chat_controls_max_utf8_bytes",
            MAX_APPLICATION_CHAT_CONTROLS_BYTES as u64,
        ),
    );
    entries.push(
        number_entry(
            "application_chat_control_ref_max_utf8_bytes",
            MAX_APPLICATION_CHAT_CONTROL_REF_BYTES as u64,
        ),
    );
    entries.push(
        number_entry(
            "application_protocol_string_max_utf8_bytes",
            MAX_APPLICATION_PROTOCOL_STRING_BYTES as u64,
        ),
    );
    entries.push(
        number_entry(
            "application_chat_error_max_utf8_bytes",
            MAX_APPLICATION_CHAT_ERROR_BYTES as u64,
        ),
    );
    entries.push(number_entry("application_chat_sequence_max", MAX_APPLICATION_CHAT_SEQUENCE));
    JsonNode::Object(entries)
}

// ---------------------------------------------------------------------
// Command line of an export
// ---------------------------------------------------------------------

/// The directory that arguments from `from` on ask for: what follows the first
/// `--out` or `-o`, or stands behind the first `--out=`, whichever comes first.
pub open spec fn out_dir_from(args: Seq<String>, from: int) -> Option<Seq<char>>
    decreases args.len() - from,
{
    if from < 0 || from >= args.len() {
        None
    } else if args[from]@ == "--out"@ || args[from]@ == "-o"@ {
        if from + 1 < args.len() {
            Some(args[from + 1]@)
        } else {
            None
        }
    } else if starts_with(args[from]@, "--out="@) {
        Some(args[from]@.skip("--out="@.len() as int))
    } else {
        out_dir_from(args, from + 1)
    }
}

/// The directory that a command line asks for. Its first word is the program.
pub fn parse_out_dir(args: &[String]) -> (r: Option<String>)
    ensures
        match r {
            Some(dir) => out_dir_from(args@, 1) == Some(dir@),
            None => out_dir_from(args@, 1) is None,
        },
{
    let mut i: usize = 1;
    while i < args.len()
        invariant
            1 <= i,
            i <= args@.len() || i == 1,
            out_dir_from(args@, 1) == out_dir_from(args@, i as int),
        decreases args@.len() - i,
    {
        if same_text(args[i].as_str(), "--out") || same_text(args[i].as_str(), "-o") {
            if i + 1 < args.len() {
                return Some(args[i + 1].clone());
            }
            return None;
        }
        let arg = chars_of(args[i].as_str());
        let prefix = chars_of("--out=");
        if has_prefix(arg.as_slice(), prefix.as_slice()) {
            let rest = slice_subrange(arg.as_slice(), prefix.len(), arg.len());
            proof {
                assert(rest@ =~= args@[i as int]@.skip("--out="@.len() as int));
            }
            return Some(string_of(rest));
        }
        i += 1;
    }
    None
}

// ---------------------------------------------------------------------
// Laws
// ---------------------------------------------------------------------

/// After rewriting nothing refers to the root of the document any more.
pub proof fn rewriting_leaves_no_root_refs(from: JsonNode, to: JsonNode, name: Seq<char>)
    requires
        is_rewritten(from, to, name),
    ensures
        !has_root_ref(to),
    decreases from,
{
    reveal_strlit("#");
    reveal_strlit("#/$defs/");
    assert(bundled_ref(name).len() >= 8);
    match (from, to) {
        (JsonNode::List(a), JsonNode::List(b)) => {
            assert forall|i: int| 0 <= i < b@.len() implies !has_root_ref(#[trigger] b@[i]) by {
                assert(is_rewritten(a@[i], b@[i], name));
                rewriting_leaves_no_root_refs(a@[i], b@[i], name);
            }
        },
        (JsonNode::Object(a), JsonNode::Object(b)) => {
            assert forall|i: int| 0 <= i < b@.len() implies !is_root_ref(#[trigger] b@[i])
                && !has_root_ref(b@[i].value) by {
                assert(a@[i].key@ == b@[i].key@);
                if !is_root_ref(a@[i]) {
                    assert(is_rewritten(a@[i].value, b@[i].value, name));
                    rewriting_leaves_no_root_refs(a@[i].value, b@[i].value, name);
                    if is_root_ref(b@[i]) {
                        assert(a@[i].value is Text);
                        assert(a@[i].value->Text_0@ == b@[i].value->Text_0@);
                    }
                } else {
                    assert(is_text(b@[i].value, bundled_ref(name)));
                    assert("#"@.len() == 1);
                    assert(!is_text(b@[i].value, "#"@));
                    assert(!has_root_ref(b@[i].value));
                }
            }
        },
        _ => {},
    }
}

/// Where nothing refers to the root, the name that such references would get
/// makes no difference.
pub proof fn rewriting_keeps_other_trees(
    from: JsonNode,
    to: JsonNode,
    name: Seq<char>,
    other: Seq<char>,
)
    requires
        is_rewritten(from, to, name),
        !has_root_ref(from),
    ensures
        is_rewritten(from, to, other),
    decreases from,
{
    match (from, to) {
        (JsonNode::List(a), JsonNode::List(b)) => {
            assert forall|i: int| 0 <= i < a@.len() implies is_rewritten(
                #[trigger] a@[i],
                #[trigger] b@[i],
                other,
            ) by {
                rewriting_keeps_other_trees(a@[i], b@[i], name, other);
            }
        },
        (JsonNode::Object(a), JsonNode::Object(b)) => {
            assert forall|i: int| 0 <= i < a@.len() implies {
                &&& (#[trigger] a@[i]).key@ == (#[trigger] b@[i]).key@
                &&& if is_root_ref(a@[i]) {
                    is_text(b@[i].value, bundled_ref(other))
                } else {
                    is_rewritten(a@[i].value, b@[i].value, other)
                }
            } by {
                assert(!is_root_ref(a@[i]) && !has_root_ref(a@[i].value));
                rewriting_keeps_other_trees(a@[i].value, b@[i].value, name, other);
            }
        },
        _ => {},
    }
}

proof fn lemma_entry_index_range(entries: Seq<JsonEntry>, key: Seq<char>)
    ensures
        0 <= entry_index(entries, key) <= entries.len(),
    decreases entries.len(),
{
    if entries.len() > 0 {
        lemma_entry_index_range(entries.drop_first(), key);
    }
}

/// Schemas in which nothing refers to a root make a bundle in which nothing
/// does.
pub proof fn bundles_gain_no_root_refs(
    definitions: Map<Seq<char>, JsonNode>,
    schemas: Seq<NamedSchema>,
    key: Seq<char>,
)
    requires
        is_bundle(definitions, schemas),
        definitions.contains_key(key),
        forall|i: int| 0 <= i < schemas.len() ==> !has_root_ref((#[trigger] schemas[i]).schema),
    ensures
        !has_root_ref(definitions[key]),
{
    let node = definitions[key];
    match origins(schemas)[key] {
        Origin::Schema(i) => {
            let schema = schemas[i].schema;
            assert(!has_root_ref(schema));
            if let JsonNode::Object(entries) = schema {
                let bare = node->Object_0@;
                assert forall|k: int| 0 <= k < bare.len() implies !is_root_ref(#[trigger] bare[k])
                    && !has_root_ref(bare[k].value) by {
                    entries@.lemma_filter_contains_rev(|entry: JsonEntry| stays(entry), bare[k]);
                    let at = choose|at: int| 0 <= at < entries@.len() && entries@[at] == bare[k];
                    assert(!is_root_ref(entries@[at]) && !has_root_ref(entries@[at].value));
                }
            }
        },
        Origin::Nested(i, j) => {
            let schema = schemas[i].schema;
            assert(!has_root_ref(schema));
            if let JsonNode::Object(entries) = schema {
                lemma_entry_index_range(entries@, "$defs"@);
                let at = entry_index(entries@, "$defs"@);
                assert(!has_root_ref(entries@[at].value));
                let inner = entries@[at].value->Object_0@;
                assert(!has_root_ref(inner[j].value));
            }
        },
    }
}

proof fn lemma_with_nested_keeps(
    definitions: Map<Seq<char>, Origin>,
    nested: Seq<JsonEntry>,
    schema: int,
    k: int,
    key: Seq<char>,
)
    requires
        definitions.contains_key(key),
    ensures
        with_nested(definitions, nested, schema, k).contains_key(key),
        with_nested(definitions, nested, schema, k)[key] == definitions[key],
    decreases k,
{
    if k > 0 && k <= nested.len() {
        lemma_with_nested_keeps(definitions, nested, schema, k - 1, key);
    }
}

/// Every type is in the bundle of its schemas, under its name.
pub proof fn every_schema_is_bundled(schemas: Seq<NamedSchema>, i: int)
    requires
        0 <= i < schemas.len(),
    ensures
        origins(schemas).contains_key(schemas[i].name@),
        origins(schemas)[schemas[i].name@] is Schema,
        i <= origins(schemas)[schemas[i].name@]->Schema_0 < schemas.len(),
    decreases schemas.len(),
{
    let last = schemas.len() - 1;
    if i < last && schemas[i].name@ != schemas.last().name@ {
        let nested = nested_definitions(schemas.last().schema);
        every_schema_is_bundled(schemas.drop_last(), i);
        lemma_with_nested_keeps(
            origins(schemas.drop_last()),
            nested,
            last,
            nested.len() as int,
            schemas[i].name@,
        );
    }
}

/// Of types with different names each is in the bundle as it is.
pub proof fn distinct_schemas_are_bundled_unchanged(schemas: Seq<NamedSchema>, i: int)
    requires
        0 <= i < schemas.len(),
        forall|j: int|
            0 <= j < schemas.len() && j != i ==> (#[trigger] schemas[j]).name@ != schemas[i].name@,
    ensures
        origins(schemas).contains_key(schemas[i].name@),
        origins(schemas)[schemas[i].name@] == Origin::Schema(i),
    decreases schemas.len(),
{
    let last = schemas.len() - 1;
    if i < last {
        let nested = nested_definitions(schemas.last().schema);
        assert(schemas[last].name@ != schemas[i].name@);
        assert forall|j: int| 0 <= j < last && j != i implies (#[trigger] schemas.drop_last()[j]).name@
            != schemas.drop_last()[i].name@ by {
            assert(schemas.drop_last()[j] == schemas[j]);
        }
        distinct_schemas_are_bundled_unchanged(schemas.drop_last(), i);
        lemma_with_nested_keeps(
            origins(schemas.drop_last()),
            nested,
            last,
            nested.len() as int,
            schemas[i].name@,
        );
    }
}

proof fn lemma_with_nested_covers(
    definitions: Map<Seq<char>, Origin>,
    nested: Seq<JsonEntry>,
    schema: int,
    k: int,
    j: int,
)
    requires
        0 <= j < k <= nested.len(),
    ensures
        with_nested(definitions, nested, schema, k).contains_key(nested[j].key@),
    decreases k,
{
    if j < k - 1 {
        lemma_with_nested_covers(definitions, nested, schema, k - 1, j);
    }
}

/// Every definition nested in a schema has its name in the bundle.
pub proof fn every_nested_name_is_bundled(schemas: Seq<NamedSchema>, i: int, j: int)
    requires
        0 <= i < schemas.len(),
        0 <= j < nested_definitions(schemas[i].schema).len(),
    ensures
        origins(schemas).contains_key(nested_definitions(schemas[i].schema)[j].key@),
    decreases schemas.len(),
{
    let last = schemas.len() - 1;
    let nested = nested_definitions(schemas.last().schema);
    let before = origins(schemas.drop_last());
    if i < last {
        every_nested_name_is_bundled(schemas.drop_last(), i, j);
        lemma_with_nested_keeps(
            before,
            nested,
            last,
            nested.len() as int,
            nested_definitions(schemas[i].schema)[j].key@,
        );
    } else {
        lemma_with_nested_covers(before, nested, last, nested.len() as int, j);
    }
}

/// Rewriting changes a reference to the root into one to the named definition, and
/// nothing else: members, items and scalars are those of the tree, in order.
pub proof fn rewriting_names_the_definition(
    from: JsonNode,
    to: JsonNode,
    name: Seq<char>,
    i: int,
)
    requires
        is_rewritten(from, to, name),
    ensures
        from matches JsonNode::Scalar(a) ==> to == JsonNode::Scalar(a),
        from matches JsonNode::Text(a) ==> (to matches JsonNode::Text(b) && b@ == a@),
        from matches JsonNode::List(a) ==> (to matches JsonNode::List(b) && b@.len() == a@.len() && (
        0 <= i < a@.len() ==> is_rewritten(a@[i], b@[i], name))),
        from matches JsonNode::Object(a) ==> (to matches JsonNode::Object(b) && b@.len() == a@.len()
            && (0 <= i < a@.len() ==> b@[i].key@ == a@[i].key@) && (0 <= i < a@.len() && a@[i].key@
            == "$ref"@ && (a@[i].value matches JsonNode::Text(t) && t@ == "#"@) ==> (
        b@[i].value matches JsonNode::Text(t) && t@ == "#/$defs/"@ + name)) && (0 <= i < a@.len()
            && !(a@[i].key@ == "$ref"@ && (a@[i].value matches JsonNode::Text(t) && t@ == "#"@))
            ==> is_rewritten(a@[i].value, b@[i].value, name))),
{
    match (from, to) {
        (JsonNode::List(a), JsonNode::List(b)) => {
            if 0 <= i < a@.len() {
                assert(is_rewritten(a@[i], b@[i], name));
            }
        },
        (JsonNode::Object(a), JsonNode::Object(b)) => {
            if 0 <= i < a@.len() {
                assert(a@[i].key@ == b@[i].key@);
            }
        },
        _ => {},
    }
}

/// A type's definition in a bundle has the members of its schema, but for nested
/// definitions and the mark of a document; and no others.
pub proof fn bundled_types_keep_their_members(
    definitions: Map<Seq<char>, JsonNode>,
    schemas: Seq<NamedSchema>,
    i: int,
    k: int,
    n: int,
)
    requires
        is_bundle(definitions, schemas),
        0 <= i < schemas.len(),
        forall|j: int|
            0 <= j < schemas.len() && j != i ==> (#[trigger] schemas[j]).name@ != schemas[i].name@,
    ensures
        definitions.contains_key(schemas[i].name@),
        !(schemas[i].schema is Object) ==> definitions[schemas[i].name@] == schemas[i].schema,
        schemas[i].schema matches JsonNode::Object(entries) ==> (
        definitions[schemas[i].name@] matches JsonNode::Object(kept) && (0 <= k < entries@.len()
            && entries@[k].key@ != "$defs"@ && entries@[k].key@ != "$schema"@ ==> kept@.contains(
            entries@[k],
        )) && (0 <= n < kept@.len() ==> entries@.contains(kept@[n]) && kept@[n].key@ != "$defs"@
            && kept@[n].key@ != "$schema"@)),
{
    distinct_schemas_are_bundled_unchanged(schemas, i);
    let name = schemas[i].name@;
    assert(origins(schemas).dom().contains(name));
    assert(definitions.dom().contains(name));
    assert(is_from(definitions[name], schemas, Origin::Schema(i)));
    if let JsonNode::Object(entries) = schemas[i].schema {
        let pred = |entry: JsonEntry| stays(entry);
        let kept = definitions[name]->Object_0@;
        assert(kept == entries@.filter(pred));
        if 0 <= k < entries@.len() && entries@[k].key@ != "$defs"@ && entries@[k].key@
            != "$schema"@ {
            entries@.lemma_filter_contains(pred, k);
        }
        if 0 <= n < kept.len() {
            entries@.lemma_filter_pred(pred, n);
            lemma_filtered_from(entries@, pred, n);
        }
    }
}

proof fn lemma_filtered_from(s: Seq<JsonEntry>, pred: spec_fn(JsonEntry) -> bool, n: int)
    requires
        0 <= n < s.filter(pred).len(),
    ensures
        s.contains(s.filter(pred)[n]),
    decreases s.len(),
{
    reveal(Seq::filter);
    if s.len() > 0 {
        let front = s.drop_last();
        if n < front.filter(pred).len() {
            lemma_filtered_from(front, pred, n);
            let j = front.index_of(front.filter(pred)[n]);
            assert(s[j] == front[j]);
            assert(s.filter(pred)[n] == front.filter(pred)[n]);
        } else {
            assert(s.filter(pred)[n] == s.last());
            assert(s[s.len() - 1] == s.last());
        }
    }
}

/// Whether no type has a name, and no definition nested before the given one has
/// it.
pub open spec fn is_first_nested(schemas: Seq<NamedSchema>, i: int, j: int, name: Seq<char>) -> bool {
    &&& forall|m: int| 0 <= m < schemas.len() ==> (#[trigger] schemas[m]).name@ != name
    &&& forall|m: int, n: int|
        #![trigger nested_definitions(schemas[m].schema)[n]]
        0 <= m < schemas.len() && 0 <= n < nested_definitions(schemas[m].schema).len() && (m < i || (
        m == i && n < j)) ==> nested_definitions(schemas[m].schema)[n].key@ != name
}

/// A nested definition is in the bundle as it is, under its name, where no type has
/// that name and no definition was nested under it before.
pub proof fn nested_definitions_are_bundled_unchanged(
    definitions: Map<Seq<char>, JsonNode>,
    schemas: Seq<NamedSchema>,
    i: int,
    j: int,
)
    requires
        is_bundle(definitions, schemas),
        0 <= i < schemas.len(),
        0 <= j < nested_definitions(schemas[i].schema).len(),
        is_first_nested(schemas, i, j, nested_definitions(schemas[i].schema)[j].key@),
    ensures
        definitions.contains_key(nested_definitions(schemas[i].schema)[j].key@),
        definitions[nested_definitions(schemas[i].schema)[j].key@] == nested_definitions(
            schemas[i].schema,
        )[j].value,
{
    let name = nested_definitions(schemas[i].schema)[j].key@;
    lemma_nested_origin(schemas, i, j, name);
    assert(origins(schemas).dom().contains(name));
    assert(definitions.dom().contains(name));
    assert(is_from(definitions[name], schemas, origins(schemas)[name]));
}

proof fn lemma_nested_origin(schemas: Seq<NamedSchema>, i: int, j: int, name: Seq<char>)
    requires
        0 <= i < schemas.len(),
        0 <= j < nested_definitions(schemas[i].schema).len(),
        nested_definitions(schemas[i].schema)[j].key@ == name,
        is_first_nested(schemas, i, j, name),
    ensures
        origins(schemas).contains_key(name),
        origins(schemas)[name] == Origin::Nested(i, j),
    decreases schemas.len(),
{
    let front = schemas.drop_last();
    let last = schemas.len() - 1;
    let nested = nested_definitions(schemas.last().schema);
    assert(schemas.last() == schemas[last]);
    assert(schemas[last].name@ != name);
    if i < last {
        assert(is_first_nested(front, i, j, name)) by {
            assert forall|m: int| 0 <= m < front.len() implies (#[trigger] front[m]).name@ != name by {
                assert(front[m] == schemas[m]);
            }
            assert forall|m: int, n: int|
                #![trigger nested_definitions(front[m].schema)[n]]
                0 <= m < front.len() && 0 <= n < nested_definitions(front[m].schema).len() && (m < i
                    || (m == i && n < j)) implies nested_definitions(front[m].schema)[n].key@
                != name by {
                assert(front[m] == schemas[m]);
                assert(nested_definitions(schemas[m].schema)[n].key@ != name);
            }
        }
        lemma_nested_origin(front, i, j, name);
        lemma_with_nested_keeps(origins(front), nested, last, nested.len() as int, name);
    } else {
        lemma_absent_before(schemas, front, name, i, j);
        lemma_nested_added(origins(front), nested, last, nested.len() as int, j, name);
    }
}

proof fn lemma_absent_before(
    schemas: Seq<NamedSchema>,
    front: Seq<NamedSchema>,
    name: Seq<char>,
    i: int,
    j: int,
)
    requires
        0 <= i < schemas.len(),
        front.len() <= i,
        front == schemas.take(front.len() as int),
        is_first_nested(schemas, i, j, name),
    ensures
        !origins(front).contains_key(name),
    decreases front.len(),
{
    if front.len() > 0 {
        let last = front.len() - 1;
        let shorter = front.drop_last();
        assert(shorter =~= schemas.take(shorter.len() as int));
        lemma_absent_before(schemas, shorter, name, i, j);
        assert(front.last() == schemas[last]);
        assert(schemas[last].name@ != name);
        let nested = nested_definitions(front.last().schema);
        assert forall|n: int| 0 <= n < nested.len() implies (#[trigger] nested[n]).key@ != name by {
            assert(nested_definitions(schemas[last].schema)[n].key@ != name);
        }
        lemma_not_nested(origins(shorter), nested, last, nested.len() as int, name);
    }
}

proof fn lemma_not_nested(
    definitions: Map<Seq<char>, Origin>,
    nested: Seq<JsonEntry>,
    schema: int,
    k: int,
    name: Seq<char>,
)
    requires
        !definitions.contains_key(name),
        0 <= k <= nested.len(),
        forall|n: int| 0 <= n < k ==> (#[trigger] nested[n]).key@ != name,
    ensures
        !with_nested(definitions, nested, schema, k).contains_key(name),
    decreases k,
{
    if k > 0 {
        lemma_not_nested(definitions, nested, schema, k - 1, name);
        assert(nested[k - 1].key@ != name);
    }
}

proof fn lemma_nested_added(
    definitions: Map<Seq<char>, Origin>,
    nested: Seq<JsonEntry>,
    schema: int,
    k: int,
    j: int,
    name: Seq<char>,
)
    requires
        !definitions.contains_key(name),
        0 <= j < k <= nested.len(),
        nested[j].key@ == name,
        forall|n: int| 0 <= n < j ==> (#[trigger] nested[n]).key@ != name,
    ensures
        with_nested(definitions, nested, schema, k).contains_key(name),
        with_nested(definitions, nested, schema, k)[name] == Origin::Nested(schema, j),
    decreases k,
{
    if j < k - 1 {
        lemma_nested_added(definitions, nested, schema, k - 1, j, name);
    } else {
        lemma_not_nested(definitions, nested, schema, j, name);
    }
}

/// The document of a bundle names its dialect and its title, states the limits it
/// is given, and holds each definition under its name, in ascending order.
pub proof fn bundle_documents_hold_the_definitions(
    document: JsonNode,
    title: Seq<char>,
    definitions: TextMap<JsonNode>,
    limits: Option<JsonNode>,
    i: int,
)
    requires
        is_bundle_document(document, title, definitions, limits),
        0 <= i < definitions.names().len(),
    ensures
        document matches JsonNode::Object(entries) && entries@.len() >= 3 && entries@[0].key@
            == "$schema"@ && is_text(
            entries@[0].value,
            "https://json-schema.org/draft/2020-12/schema"@,
        ) && entries@[1].key@ == "title"@ && is_text(entries@[1].value, title) && entries@.last().key@
            == "$defs"@ && (entries@.last().value matches JsonNode::Object(inner) && inner@.len()
            == definitions.names().len() && inner@[i].key@ == definitions.names()[i]
            && inner@[i].value == definitions@[definitions.names()[i]]) && (limits matches Some(l)
            ==> entries@.len() == 4 && entries@[2].key@ == "x-animus-limits"@ && entries@[2].value
            == l) && (limits is None ==> entries@.len() == 3),
{
    let entries = document->Object_0@;
    let last: int = if limits is Some {
        3
    } else {
        2
    };
    assert(entries.last() == entries[last]);
    let inner = entries[last].value->Object_0@;
    assert(inner[i].key@ == definitions.names()[i]);
}

/// The limits that are stated are those that are kept.
pub proof fn stated_limits_are_kept(node: JsonNode)
    requires
        states_limits(node),
    ensures
        node matches JsonNode::Object(entries) && entries@.len() == 7 && json_content(
            entries@[2].value->Scalar_0,
        ) == JsonContent::Number(Some(2048)) && json_content(entries@[3].value->Scalar_0)
            == JsonContent::Number(Some(64)) && json_content(entries@[4].value->Scalar_0)
            == JsonContent::Number(Some(512)) && json_content(entries@[5].value->Scalar_0)
            == JsonContent::Number(Some(1024)) && json_content(entries@[6].value->Scalar_0)
            == JsonContent::Number(Some(0x1F_FFFF_FFFF_FFFF)) && entries@[2].key@
            == "application_chat_controls_max_utf8_bytes"@ && entries@[3].key@
            == "application_chat_control_ref_max_utf8_bytes"@ && entries@[4].key@
            == "application_protocol_string_max_utf8_bytes"@ && entries@[5].key@
            == "application_chat_error_max_utf8_bytes"@ && entries@[6].key@
            == "application_chat_sequence_max"@,
{
}

/// Whether an argument asks for a directory.
pub open spec fn is_out_flag(arg: Seq<char>) -> bool {
    arg == "--out"@ || arg == "-o"@ || starts_with(arg, "--out="@)
}

/// The directory asked for is the one behind the first argument that asks for one:
/// the next argument, or what stands behind the `=`. Without such an argument there
/// is none.
pub proof fn the_first_out_flag_counts(args: Seq<String>, k: int)
    requires
        1 <= k <= args.len(),
        forall|j: int| 1 <= j < k ==> !is_out_flag((#[trigger] args[j])@),
    ensures
        k == args.len() ==> out_dir_from(args, 1) is None,
        k < args.len() && (args[k]@ == "--out"@ || args[k]@ == "-o"@) ==> out_dir_from(args, 1)
            == if k + 1 < args.len() {
            Some(args[k + 1]@)
        } else {
            None
        },
        forall|dir: Seq<char>|
            k < args.len() && #[trigger] args[k]@ == "--out="@ + dir ==> out_dir_from(args, 1)
                == Some(dir),
{
    lemma_out_dir_skips(args, 1, k);
    reveal_strlit("--out=");
    reveal_strlit("--out");
    reveal_strlit("-o");
    if k < args.len() {
        assert forall|dir: Seq<char>| #[trigger] args[k]@ == "--out="@ + dir implies out_dir_from(
            args,
            1,
        ) == Some(dir) by {
            let arg = args[k]@;
            assert(arg.len() >= 6);
            assert(arg[5] == '=');
            assert(arg.take(6) =~= "--out="@);
            assert(arg.skip(6) =~= dir);
            assert(arg != "--out"@ && arg != "-o"@) by {
                assert("--out"@.len() == 5 && "-o"@.len() == 2);
            }
        }
    }
}

proof fn lemma_out_dir_skips(args: Seq<String>, from: int, k: int)
    requires
        1 <= from <= k <= args.len(),
        forall|j: int| from <= j < k ==> !is_out_flag((#[trigger] args[j])@),
    ensures
        out_dir_from(args, from) == out_dir_from(args, k),
    decreases k - from,
{
    if from < k {
        assert(!is_out_flag(args[from]@));
        lemma_out_dir_skips(args, from + 1, k);
    }
}

/// Whether schemas are others, each rewritten for its own name.
pub open spec fn are_rewritten(from: Seq<NamedSchema>, to: Seq<NamedSchema>) -> bool {
    &&& to.len() == from.len()
    &&& forall|i: int|
        0 <= i < to.len() ==> {
            &&& (#[trigger] to[i]).name@ == (#[trigger] from[i]).name@
            &&& is_rewritten(from[i].schema, to[i].schema, from[i].name@)
        }
}

/// Every schema keeps its name and its place, and refers to itself by that name
/// where it referred to its root; none refers to a root any more.
pub proof fn schemas_refer_to_themselves_by_name(
    from: Seq<NamedSchema>,
    to: Seq<NamedSchema>,
    i: int,
    k: int,
)
    requires
        are_rewritten(from, to),
        0 <= i < from.len(),
    ensures
        to.len() == from.len(),
        to[i].name@ == from[i].name@,
        !has_root_ref(to[i].schema),
        from[i].schema matches JsonNode::Object(a) ==> (to[i].schema matches JsonNode::Object(b)
            && b@.len() == a@.len() && (0 <= k < a@.len() && a@[k].key@ == "$ref"@ && (
        a@[k].value matches JsonNode::Text(t) && t@ == "#"@) ==> (
        b@[k].value matches JsonNode::Text(t) && t@ == "#/$defs/"@ + from[i].name@))),
{
    assert(to[i].name@ == from[i].name@);
    rewriting_leaves_no_root_refs(from[i].schema, to[i].schema, from[i].name@);
    rewriting_names_the_definition(from[i].schema, to[i].schema, from[i].name@, k);
}

} // verus!
