use animus_protocol::config::env_interp::interpolate_env_with;
use animus_protocol::config::env_lint::lint_sensitive_interpolations;

/// An environment that holds these variables alone.
fn env_map(pairs: &[(&str, &str)]) -> impl Fn(&str) -> Option<String> {
    let map: std::collections::BTreeMap<String, String> =
        pairs.iter().map(|(k, v)| ((*k).to_string(), (*v).to_string())).collect();
    move |key: &str| map.get(key).cloned()
}

#[test]
fn expands_required_var() {
    let out =
        interpolate_env_with("api_token: ${KEY}\n", "test.yaml", env_map(&[("KEY", "secret-token")])).unwrap();
    assert_eq!(out, "api_token: secret-token\n");
}

#[test]
fn errors_clearly_when_required_var_unset() {
    let src = "a: 1\nb: 2\napi_token: ${KEY}\n";
    let err = interpolate_env_with(src, ".animus/workflows/agents.yaml", env_map(&[])).unwrap_err();
    let msg = err.message();
    assert!(msg.contains("line 3"), "missing line number: {msg}");
    assert!(msg.contains("KEY"), "missing var name: {msg}");
    assert!(msg.contains(".animus/workflows/agents.yaml"), "missing source label: {msg}");
}

#[test]
fn uses_default_when_var_unset_with_default_syntax() {
    let out =
        interpolate_env_with("api_url: ${KEY:-https://api.example.com}\n", "test.yaml", env_map(&[])).unwrap();
    assert_eq!(out, "api_url: https://api.example.com\n");
}

#[test]
fn prefers_set_var_over_default() {
    let out = interpolate_env_with(
        "api_url: ${KEY:-https://fallback.example.com}\n",
        "test.yaml",
        env_map(&[("KEY", "https://real.example.com")]),
    )
    .unwrap();
    assert_eq!(out, "api_url: https://real.example.com\n");
}

#[test]
fn handles_multiple_vars_in_one_line() {
    let out = interpolate_env_with(
        "combo: \"${KEY}-${OTHER}\"\n",
        "test.yaml",
        env_map(&[("KEY", "alpha"), ("OTHER", "beta")]),
    )
    .unwrap();
    assert_eq!(out, "combo: \"alpha-beta\"\n");
}

#[test]
fn escapes_literal_dollar_with_double_dollar() {
    let out = interpolate_env_with("price: $$5.00 raw\n", "test.yaml", env_map(&[])).unwrap();
    assert_eq!(out, "price: $5.00 raw\n");
}

#[test]
fn required_with_custom_message() {
    let src = "a: ${KEY:?set this in your shell}\n";
    let err = interpolate_env_with(src, "test.yaml", env_map(&[])).unwrap_err();
    let msg = err.message();
    assert!(msg.contains("set this in your shell"), "missing custom message: {msg}");
    assert!(msg.contains("KEY"));
}

#[test]
fn required_message_containing_default_token_parses_as_required() {
    let src = "a: ${KEY:?missing key :-(}\n";
    let out = interpolate_env_with(src, "test.yaml", env_map(&[("KEY", "present")])).unwrap();
    assert_eq!(out, "a: present\n");

    let err = interpolate_env_with(src, "test.yaml", env_map(&[])).unwrap_err();
    let msg = err.message();
    assert!(msg.contains("missing key :-("), "missing custom message: {msg}");
    assert!(msg.contains("KEY"), "missing var name: {msg}");
}

#[test]
fn default_containing_required_token_parses_as_default() {
    let out = interpolate_env_with("a: ${KEY:-fallback :? ok}\n", "test.yaml", env_map(&[])).unwrap();
    assert_eq!(out, "a: fallback :? ok\n");
}

#[test]
fn lone_dollar_passes_through() {
    let out = interpolate_env_with("note: this costs $5 in total\n", "test.yaml", env_map(&[])).unwrap();
    assert_eq!(out, "note: this costs $5 in total\n");
}

#[test]
fn unterminated_reference_errors_with_line() {
    let src = "ok: yes\nbroken: ${MISSING_BRACE\n";
    let err = interpolate_env_with(src, "test.yaml", env_map(&[])).unwrap_err();
    let msg = err.message();
    assert!(msg.contains("line 2"), "missing line: {msg}");
    assert!(msg.contains("unterminated"));
}

#[test]
fn rejects_empty_name() {
    let err = interpolate_env_with("a: ${}\n", "test.yaml", env_map(&[])).unwrap_err();
    let msg = err.message();
    assert!(msg.contains("empty"));
}

#[test]
fn preserves_multibyte_utf8_around_substitution() {
    let src = "note: a — b — ${KEY}\nemoji: 🚀 — done\n";
    let out = interpolate_env_with(src, "test.yaml", env_map(&[("KEY", "expanded")])).unwrap();
    assert_eq!(out, "note: a — b — expanded\nemoji: 🚀 — done\n");
}

#[test]
fn rejects_invalid_name() {
    let err = interpolate_env_with("a: ${1BAD}\n", "test.yaml", env_map(&[])).unwrap_err();
    let msg = err.message();
    assert!(msg.contains("must start with"));
}

#[test]
fn leaves_secret_references_untouched() {
    let out = interpolate_env_with("token: ${secret.api}\n", "test.yaml", env_map(&[])).unwrap();
    assert_eq!(out, "token: ${secret.api}\n");
}

#[test]
fn preserves_escaped_literal_secret_reference() {
    let out = interpolate_env_with("prompt: $${secret.api}\n", "test.yaml", env_map(&[])).unwrap();
    assert_eq!(out, "prompt: $${secret.api}\n");
}

#[test]
fn comment_only_line_with_unset_var_is_left_untouched() {
    let src = "# export ${KEY}\nkey: value\n";
    let out = interpolate_env_with(src, "test.yaml", env_map(&[])).unwrap();
    assert_eq!(out, src);
}

#[test]
fn comment_with_invalid_var_name_is_left_untouched() {
    let src = "# see ${docs-url}\nkey: value\n";
    let out = interpolate_env_with(src, "test.yaml", env_map(&[])).unwrap();
    assert_eq!(out, src);
}

#[test]
fn trailing_comment_after_value_is_left_untouched() {
    let src = "key: ${KEY} # docs: ${UNSET_IN_COMMENT}\n";
    let out = interpolate_env_with(src, "test.yaml", env_map(&[("KEY", "expanded")])).unwrap();
    assert_eq!(out, "key: expanded # docs: ${UNSET_IN_COMMENT}\n");
}

#[test]
fn hash_inside_quoted_scalar_still_interpolates() {
    let out =
        interpolate_env_with("key: \"#not-a-comment ${KEY}\"\n", "test.yaml", env_map(&[("KEY", "expanded")]))
            .unwrap();
    assert_eq!(out, "key: \"#not-a-comment expanded\"\n");
}

#[test]
fn hash_heading_inside_block_scalar_still_interpolates() {
    let src = "prompt: |\n  # Heading ${KEY}\n  body\nkey: value\n";
    let out = interpolate_env_with(src, "test.yaml", env_map(&[("KEY", "expanded")])).unwrap();
    assert_eq!(out, "prompt: |\n  # Heading expanded\n  body\nkey: value\n");
}

#[test]
fn comment_after_block_scalar_content_is_left_untouched() {
    let src = "prompt: |\n  body text\n# note ${KEY}\nkey: value\n";
    let out = interpolate_env_with(src, "test.yaml", env_map(&[])).unwrap();
    assert_eq!(out, src);
}

#[test]
fn unpaired_quote_in_plain_scalar_does_not_suppress_trailing_comment() {
    let src = "directive: Build \"docs # see ${KEY}\n";
    let out = interpolate_env_with(src, "test.yaml", env_map(&[])).unwrap();
    assert_eq!(out, src);
}

#[test]
fn quote_after_indicator_still_opens_quoted_scalar() {
    let src = "items: [a, \"#tag ${KEY}\"]\n";
    let out = interpolate_env_with(src, "test.yaml", env_map(&[("KEY", "expanded")])).unwrap();
    assert_eq!(out, "items: [a, \"#tag expanded\"]\n");
}

#[test]
fn quote_after_anchor_still_opens_quoted_scalar() {
    let src = "directive: &d \"build # ${KEY}\"\n";
    let out = interpolate_env_with(src, "test.yaml", env_map(&[("KEY", "expanded")])).unwrap();
    assert_eq!(out, "directive: &d \"build # expanded\"\n");
}

#[test]
fn quote_after_tag_still_opens_quoted_scalar() {
    let src = "directive: !!str \"build # ${KEY}\"\n";
    let out = interpolate_env_with(src, "test.yaml", env_map(&[("KEY", "expanded")])).unwrap();
    assert_eq!(out, "directive: !!str \"build # expanded\"\n");
}

#[test]
fn apostrophe_in_plain_scalar_does_not_suppress_later_comment() {
    let src = "note: it's fine\n# export ${KEY}\n";
    let out = interpolate_env_with(src, "test.yaml", env_map(&[])).unwrap();
    assert_eq!(out, src);
}

#[test]
fn lint_skips_sensitive_looking_references_in_comments() {
    let src = "# export ${LINEAR_TOKEN}\nurl: ${TEAM_URL:-https://example.com}\n";
    let warnings = lint_sensitive_interpolations(src, "test.yaml");
    assert!(warnings.is_empty(), "comment-only reference should not warn: {warnings:?}");
}

#[test]
fn lint_flags_sensitive_looking_interpolations() {
    let src = "token: ${LINEAR_TOKEN}\n";
    let warnings = lint_sensitive_interpolations(src, "test.yaml");
    assert_eq!(warnings.len(), 1, "expected one sensitive-interpolation warning: {warnings:?}");
    assert!(warnings[0].contains("LINEAR_TOKEN"));
}
