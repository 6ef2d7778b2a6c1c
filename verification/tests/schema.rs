use animus_protocol::schema::{
    application_limits, bundle_definitions, bundle_document, parse_out_dir, rewrite_all,
    rewrite_root_self_refs, JsonEntry, JsonNode, NamedSchema,
};

fn text(s: &str) -> JsonNode {
    JsonNode::Text(s.to_string())
}

fn object(entries: Vec<(&str, JsonNode)>) -> JsonNode {
    JsonNode::Object(
        entries
            .into_iter()
            .map(|(key, value)| JsonEntry { key: key.to_string(), value })
            .collect(),
    )
}

fn value_of(node: &JsonNode) -> serde_json::Value {
    match node {
        JsonNode::Scalar(value) => value.clone(),
        JsonNode::Text(text) => serde_json::Value::String(text.clone()),
        JsonNode::List(items) => serde_json::Value::Array(items.iter().map(value_of).collect()),
        JsonNode::Object(entries) => serde_json::Value::Object(
            entries.iter().map(|e| (e.key.clone(), value_of(&e.value))).collect(),
        ),
    }
}

fn json(text: &str) -> serde_json::Value {
    serde_json::from_str(text).unwrap()
}

fn schemas() -> Vec<NamedSchema> {
    vec![
        NamedSchema {
            name: "Block".to_string(),
            schema: object(vec![
                ("$schema", text("s")),
                ("items", JsonNode::List(vec![object(vec![("$ref", text("#"))])])),
                (
                    "$defs",
                    object(vec![
                        ("Inner", object(vec![("$ref", text("#"))])),
                        ("Message", text("nested")),
                    ]),
                ),
            ]),
        },
        NamedSchema {
            name: "Message".to_string(),
            schema: object(vec![
                ("title", text("#")),
                ("$defs", object(vec![("Inner", text("second"))])),
            ]),
        },
    ]
}

#[test]
fn root_references_are_renamed() {
    let node = object(vec![
        ("$ref", text("#")),
        ("other", text("#")),
        ("deep", JsonNode::List(vec![object(vec![("$ref", text("#"))]), text("#")])),
        ("kept", object(vec![("$ref", text("#/$defs/Other"))])),
        ("flag", JsonNode::Scalar(serde_json::Value::Bool(true))),
    ]);
    assert_eq!(
        value_of(&rewrite_root_self_refs(node, "T")),
        json(
            r##"{"$ref": "#/$defs/T", "other": "#", "deep": [{"$ref": "#/$defs/T"}, "#"],
                "kept": {"$ref": "#/$defs/Other"}, "flag": true}"##
        )
    );
}

#[test]
fn bundles_hold_types_and_nested_definitions() {
    let definitions = bundle_definitions(schemas());
    assert_eq!(definitions.len(), 3);
    assert_eq!(
        value_of(definitions.get("Block").unwrap()),
        json(r##"{"items": [{"$ref": "#"}]}"##)
    );
    assert_eq!(value_of(definitions.get("Message").unwrap()), json(r##"{"title": "#"}"##));
    assert_eq!(value_of(definitions.get("Inner").unwrap()), json(r##"{"$ref": "#"}"##));
}

#[test]
fn rewritten_bundles_have_no_root_references() {
    let definitions = bundle_definitions(rewrite_all(schemas()));
    let document = value_of(&bundle_document("t", definitions, None));
    assert_eq!(
        document,
        json(
            r##"{"$schema": "https://json-schema.org/draft/2020-12/schema", "title": "t",
                "$defs": {"Block": {"items": [{"$ref": "#/$defs/Block"}]},
                          "Inner": {"$ref": "#/$defs/Block"},
                          "Message": {"title": "#"}}}"##
        )
    );
}

#[test]
fn bundles_carry_limits() {
    let limits = value_of(&application_limits());
    assert_eq!(limits["application_protocol_string_max_utf8_bytes"], 512);
    assert_eq!(limits["application_chat_sequence_max"], 9_007_199_254_740_991_u64);
    assert_eq!(limits["application_chat_controls_max_utf8_bytes"], 2048);
    assert_eq!(limits["application_chat_control_ref_max_utf8_bytes"], 64);
    assert_eq!(limits["application_chat_error_max_utf8_bytes"], 1024);
    assert_eq!(limits["schema"], "animus.application.limits.v1");
    let document = bundle_document("t", bundle_definitions(vec![]), Some(application_limits()));
    assert_eq!(value_of(&document)["x-animus-limits"], limits);
    assert_eq!(value_of(&document)["$defs"], json("{}"));
}

fn out_dir(args: &[&str]) -> Option<String> {
    let args: Vec<String> = args.iter().map(|s| s.to_string()).collect();
    parse_out_dir(&args)
}

#[test]
fn the_first_directory_asked_for_counts() {
    assert_eq!(out_dir(&[]), None);
    assert_eq!(out_dir(&["--out"]), None);
    assert_eq!(out_dir(&["p", "--out", "d"]), Some("d".to_string()));
    assert_eq!(out_dir(&["p", "x", "-o", "d", "--out=e"]), Some("d".to_string()));
    assert_eq!(out_dir(&["p", "--out=", "-o", "d"]), Some(String::new()));
    assert_eq!(out_dir(&["p", "--out=a=b"]), Some("a=b".to_string()));
    assert_eq!(out_dir(&["p", "--out"]), None);
    assert_eq!(out_dir(&["p", "--out", "--out=e"]), Some("--out=e".to_string()));
}
