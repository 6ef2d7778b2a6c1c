//! More specific diagnostics for errors of the YAML parser: a code, the accepted
//! shapes, a suggestion, and the line of the field at fault.

use vstd::prelude::*;
use vstd::slice::slice_subrange;

use crate::config::yaml_diagnostic::{
    closest, closest_match, excerpt_of, is_error_text, parse_failure, parse_failure_diagnostic,
    succ, succ_of, wrap_serde_yaml_error, yaml_error_location, YamlDiagnostic, YamlDiagnosticView,
};
use crate::text::{
    chars_of, contains, find, find_text, has_prefix, has_text, line_views, lines, lines_of,
    opt_str, same_text, starts_with, string_of, texts, trim_start, trimmed_start,
};

verus! {

// ---------------------------------------------------------------------
// Reading messages
// ---------------------------------------------------------------------

/// The text between the first `marker` of a message and the next backquote.
pub open spec fn quoted_after(msg: Seq<char>, marker: Seq<char>) -> Option<Seq<char>> {
    match find(msg, marker) {
        None => None,
        Some(i) => {
            let rest = msg.skip(i + marker.len());
            match find(rest, seq!['`']) {
                None => None,
                Some(end) => Some(rest.take(end)),
            }
        },
    }
}

fn text_quoted_after(msg: &str, marker: &str) -> (r: Option<String>)
    ensures
        crate::text::opt_text(r) == quoted_after(msg@, marker@),
{
    let chars = chars_of(msg);
    let needle = chars_of(marker);
    match find_text(chars.as_slice(), needle.as_slice()) {
        None => None,
        Some(i) => {
            let rest = slice_subrange(chars.as_slice(), i + needle.len(), chars.len());
            let quote: Vec<char> = vec!['`'];
            proof {
                assert(quote@ =~= seq!['`']);
                assert(rest@ =~= msg@.skip(i + marker@.len()));
            }
            match find_text(rest, quote.as_slice()) {
                None => None,
                Some(end) => {
                    proof {
                        assert(rest@.subrange(0, end as int) =~= rest@.take(end as int));
                    }
                    Some(string_of(slice_subrange(rest, 0, end)))
                },
            }
        },
    }
}

/// The field that an "unknown field" message names.
fn parse_unknown_field_name(msg: &str) -> (r: Option<String>)
    ensures
        crate::text::opt_text(r) == quoted_after(msg@, "unknown field `"@),
{
    text_quoted_after(msg, "unknown field `")
}

/// The suggestion that a message makes.
fn parse_did_you_mean_from_message(msg: &str) -> (r: Option<String>)
    ensures
        crate::text::opt_text(r) == quoted_after(msg@, "did you mean `"@),
{
    text_quoted_after(msg, "did you mean `")
}

fn says(msg: &str, part: &str) -> (r: bool)
    ensures
        r == contains(msg@, part@),
{
    has_text(chars_of(msg).as_slice(), chars_of(part).as_slice())
}

// ---------------------------------------------------------------------
// Finding fields
// ---------------------------------------------------------------------

/// Where `key` stands as the first key of a line, or of a sequence entry on it:
/// the number of characters in front of it.
pub open spec fn key_column(line: Seq<char>, key: Seq<char>) -> Option<int> {
    let text = trim_start(line);
    let leading = line.len() - text.len();
    if starts_with(text, key) {
        Some(leading)
    } else if starts_with(text, "- "@) {
        let rest = text.skip("- "@.len() as int);
        if starts_with(trim_start(rest), key) {
            Some(line.len() - trim_start(rest).len())
        } else {
            None
        }
    } else {
        None
    }
}

fn find_key_column(line: &[char], key: &[char]) -> (r: Option<usize>)
    requires
        key@.len() > 0,
    ensures
        match r {
            Some(col) => key_column(line@, key@) == Some(col as int) && col < line@.len(),
            None => key_column(line@, key@) is None,
        },
{
    let text = trimmed_start(line);
    proof {
        crate::text::lemma_trim_len(line@);
    }
    if has_prefix(text, key) {
        return Some(line.len() - text.len());
    }
    let bullet = chars_of("- ");
    if has_prefix(text, bullet.as_slice()) {
        let rest = slice_subrange(text, bullet.len(), text.len());
        proof {
            assert(rest@ =~= text@.skip("- "@.len() as int));
            crate::text::lemma_trim_len(rest@);
        }
        let body = trimmed_start(rest);
        if has_prefix(body, key) {
            return Some(line.len() - body.len());
        }
    }
    None
}

/// The first line at or after index `i` on which a key stands.
pub open spec fn key_line_from(all: Seq<Seq<char>>, key: Seq<char>, i: int) -> Option<int>
    decreases all.len() - i,
{
    if i < 0 || i >= all.len() {
        None
    } else if key_column(all[i], key) is Some {
        Some(i)
    } else {
        key_line_from(all, key, i + 1)
    }
}

/// The last line before index `i` on which a key stands.
pub open spec fn key_line_before(all: Seq<Seq<char>>, key: Seq<char>, i: int) -> Option<int>
    decreases i,
{
    if i <= 0 || i > all.len() {
        None
    } else if key_column(all[i - 1], key) is Some {
        Some(i - 1)
    } else {
        key_line_before(all, key, i - 1)
    }
}

/// A field's place: its 1-based line, its 1-based column and the column just past
/// the line's end.
pub struct FieldPlace {
    pub line: int,
    pub col_start: int,
    pub col_end: int,
}

/// Where a field stands: on the first line from the 1-based `start_line` on that
/// has its key, else on the closest one before.
pub open spec fn field_place(
    source: Seq<char>,
    field: Seq<char>,
    start_line: int,
) -> Option<FieldPlace> {
    let all = lines(source);
    let key = field + ":"@;
    let start = crate::config::yaml_diagnostic::least(
        crate::config::yaml_diagnostic::most(start_line - 1, 0),
        all.len() as int,
    );
    let at = if key_line_from(all, key, start) is Some {
        key_line_from(all, key, start)
    } else {
        key_line_before(all, key, start)
    };
    match at {
        Some(i) => Some(
            FieldPlace {
                line: i + 1,
                col_start: key_column(all[i], key)->0 + 1,
                col_end: succ(all[i].len() as int),
            },
        ),
        None => None,
    }
}

/// Where a field stands: 1-based line, 1-based column, and the column just past
/// the line's end.
fn locate_field_line(yaml_str: &str, field: &str, start_line: usize) -> (r: Option<
    (usize, usize, usize),
>)
    ensures
        match r {
            Some((line, col_start, col_end)) => field_place(yaml_str@, field@, start_line as int)
                == Some(
                FieldPlace {
                    line: line as int,
                    col_start: col_start as int,
                    col_end: col_end as int,
                },
            ),
            None => field_place(yaml_str@, field@, start_line as int) is None,
        },
{
    let mut key_text = field.to_owned();
    key_text.append(":");
    let key = chars_of(key_text.as_str());
    proof {
        reveal_strlit(":");
        assert(key@ == field@ + ":"@);
    }
    let all = lines_of(chars_of(yaml_str).as_slice());
    let ghost views = lines(yaml_str@);
    let start: usize = if start_line == 0 {
        0
    } else if start_line - 1 < all.len() {
        start_line - 1
    } else {
        all.len()
    };
    let mut i: usize = start;
    while i < all.len()
        invariant
            start <= i <= all@.len(),
            line_views(all@) == views,
            views == lines(yaml_str@),
            key@ == field@ + ":"@,
            key@.len() > 0,
            start == crate::config::yaml_diagnostic::least(
                crate::config::yaml_diagnostic::most(start_line - 1, 0),
                views.len() as int,
            ),
            key_line_from(views, key@, start as int) == key_line_from(views, key@, i as int),
        decreases all@.len() - i,
    {
        proof {
            assert(views[i as int] == all@[i as int]@);
        }
        if let Some(col) = find_key_column(all[i].as_slice(), key.as_slice()) {
            let len = all[i].len();
            return Some((i + 1, col + 1, succ_of(len)));
        }
        i += 1;
    }
    let mut j: usize = start;
    while j > 0
        invariant
            j <= start <= all@.len(),
            line_views(all@) == views,
            views == lines(yaml_str@),
            key@ == field@ + ":"@,
            key@.len() > 0,
            start == crate::config::yaml_diagnostic::least(
                crate::config::yaml_diagnostic::most(start_line - 1, 0),
                views.len() as int,
            ),
            key_line_from(views, key@, start as int) is None,
            key_line_before(views, key@, start as int) == key_line_before(views, key@, j as int),
        decreases j,
    {
        proof {
            assert(views[j - 1] == all@[j - 1]@);
        }
        if let Some(col) = find_key_column(all[j - 1].as_slice(), key.as_slice()) {
            let len = all[j - 1].len();
            return Some((j, col + 1, succ_of(len)));
        }
        j -= 1;
    }
    None
}

// ---------------------------------------------------------------------
// Enriching
// ---------------------------------------------------------------------

/// The diagnostic with an excerpt of the source, where there is one to take.
pub open spec fn excerpted(
    d: YamlDiagnosticView,
    source: Seq<char>,
    line: int,
    col_start: int,
    col_end: int,
) -> YamlDiagnosticView {
    YamlDiagnosticView {
        excerpt: if line > 0 && lines(source).len() > 0 {
            Some(excerpt_of(source, line, col_start, col_end))
        } else {
            None
        },
        ..d
    }
}

/// The diagnostic moved to the line of a field, where it has a line and the field
/// is found.
pub open spec fn anchored(d: YamlDiagnosticView, source: Seq<char>, field: Seq<char>) -> YamlDiagnosticView {
    match d.line {
        None => d,
        Some(start) => match field_place(source, field, start as int) {
            None => d,
            Some(p) => excerpted(
                YamlDiagnosticView {
                    line: Some(p.line as usize),
                    col: Some(p.col_start as usize),
                    ..d
                },
                source,
                p.line,
                p.col_start,
                p.col_end,
            ),
        },
    }
}

fn anchor(diag: YamlDiagnostic, yaml_str: &str, field: &str) -> (r: YamlDiagnostic)
    ensures
        r@ == anchored(diag@, yaml_str@, field@),
{
    let mut d = diag;
    if let Some(start) = d.line {
        if let Some((line, col_start, col_end)) = locate_field_line(yaml_str, field, start) {
            d.line = Some(line);
            d.col = Some(col_start);
            d.excerpt = None;
            return d.with_excerpt_from(yaml_str, line, col_start, col_end);
        }
    }
    d
}

/// The diagnostic with the underline widened to the end of its line, where the
/// line exists and reaches past the column.
pub open spec fn widened(
    d: YamlDiagnosticView,
    source: Seq<char>,
    line: int,
    col: int,
) -> YamlDiagnosticView {
    let all = lines(source);
    let at = crate::config::yaml_diagnostic::most(line - 1, 0);
    if at < all.len() && col < all[at].len() {
        excerpted(d, source, line, col, succ(all[at].len() as int))
    } else {
        d
    }
}

fn widen_excerpt_to_value(diag: YamlDiagnostic, yaml_str: &str, line: usize, col: usize) -> (r:
    YamlDiagnostic)
    ensures
        r@ == widened(diag@, yaml_str@, line as int, col as int),
{
    let all = lines_of(chars_of(yaml_str).as_slice());
    let at: usize = if line == 0 {
        0
    } else {
        line - 1
    };
    if at >= all.len() {
        return diag;
    }
    proof {
        assert(line_views(all@)[at as int] == all@[at as int]@);
    }
    let len = all[at].len();
    if col >= len {
        return diag;
    }
    let mut d = diag;
    d.excerpt = None;
    d.with_excerpt_from(yaml_str, line, col, succ_of(len))
}

/// The keys that a misspelt field may have been meant as.
pub open spec fn known_field_keys() -> Seq<Seq<char>> {
    seq![
        "default_workflow_ref"@,
        "phase_catalog"@,
        "workflows"@,
        "phases"@,
        "agents"@,
        "agent_channels"@,
        "models"@,
        "tools_allowlist"@,
        "mcp_servers"@,
        "phase_mcp_bindings"@,
        "tools"@,
        "integrations"@,
        "schedules"@,
        "triggers"@,
        "daemon"@,
        "secrets"@,
        "workspaces"@,
        "environment_routing"@,
        "environment"@,
        "workspace"@,
        "workflow_ref"@,
        "mode"@,
        "agent"@,
        "command"@,
        "manual"@,
        "directive"@,
        "system_prompt"@,
        "skills"@,
        "runtime"@,
        "capabilities"@,
        "output_contract"@,
        "output_json_schema"@,
        "decision_contract"@,
        "retry"@,
        "default_tool"@,
        "idempotency"@,
        "worktree"@,
        "evals"@,
    ]
}

fn closest_known_key(field: &str) -> (r: Option<&'static str>)
    ensures
        opt_str(r) == closest(field@, known_field_keys(), 2),
{
    let keys: [&'static str; 38] = [
        "default_workflow_ref",
        "phase_catalog",
        "workflows",
        "phases",
        "agents",
        "agent_channels",
        "models",
        "tools_allowlist",
        "mcp_servers",
        "phase_mcp_bindings",
        "tools",
        "integrations",
        "schedules",
        "triggers",
        "daemon",
        "secrets",
        "workspaces",
        "environment_routing",
        "environment",
        "workspace",
        "workflow_ref",
        "mode",
        "agent",
        "command",
        "manual",
        "directive",
        "system_prompt",
        "skills",
        "runtime",
        "capabilities",
        "output_contract",
        "output_json_schema",
        "decision_contract",
        "retry",
        "default_tool",
        "idempotency",
        "worktree",
        "evals",
    ];
    proof {
        assert(crate::text::slices(keys@) =~= known_field_keys());
    }
    closest_match(field, &keys, 2)
}

/// What a worktree block may be.
pub open spec fn worktree_shapes() -> Seq<Seq<char>> {
    seq![
        "string: \"auto\" | \"required\" | \"skip\""@,
        "boolean: true (= auto) | false (= skip)"@,
        "map: { mode: <string>, cleanup: <bool>, base_ref: <string> }"@,
    ]
}

/// What a phase entry may be.
pub open spec fn phase_entry_shapes() -> Seq<Seq<char>> {
    seq![
        "string phase id (e.g. `- impl`)"@,
        "sub-workflow ref: { workflow_ref: <name> }"@,
        "rich config: { <phase_id>: { max_rework_attempts: N, ... } }"@,
    ]
}

/// The diagnostic with the code, shapes and suggestion that its message calls
/// for.
pub open spec fn classified(d: YamlDiagnosticView, source: Seq<char>) -> YamlDiagnosticView {
    let msg = d.message;
    match quoted_after(msg, "unknown field `"@) {
        Some(field) => {
            let coded = YamlDiagnosticView { code: "yaml.unknown_field"@, ..d };
            let suggested = match closest(field, known_field_keys(), 2) {
                Some(s) => YamlDiagnosticView {
                    suggestion: Some(s),
                    message: "unknown field `"@ + field + "`"@,
                    ..coded
                },
                None => coded,
            };
            anchored(suggested, source, field)
        },
        None => if contains(msg, "invalid `worktree:`"@) {
            let coded = YamlDiagnosticView {
                code: "yaml.invalid_worktree"@,
                expected: worktree_shapes(),
                ..d
            };
            let suggested = match quoted_after(msg, "did you mean `"@) {
                Some(s) => YamlDiagnosticView { suggestion: Some(s), ..coded },
                None => coded,
            };
            anchored(suggested, source, "worktree"@)
        } else if contains(msg, "invalid phase entry"@) || contains(msg, "rich phase entry"@) {
            YamlDiagnosticView {
                code: "yaml.invalid_phase_entry"@,
                expected: phase_entry_shapes(),
                ..d
            }
        } else if contains(msg, "missing field"@) {
            YamlDiagnosticView { code: "yaml.missing_field"@, ..d }
        } else {
            d
        },
    }
}

/// The diagnostic classified by its message, its underline widened to the end of
/// the line.
pub open spec fn enriched(d: YamlDiagnosticView, source: Seq<char>) -> YamlDiagnosticView {
    let c = classified(d, source);
    match (c.line, c.col) {
        (Some(line), Some(col)) => widened(c, source, line as int, col as int),
        _ => c,
    }
}

fn shapes3(a: &str, b: &str, c: &str) -> (r: Vec<String>)
    ensures
        texts(r@) == seq![a@, b@, c@],
{
    let mut v: Vec<String> = Vec::new();
    v.push(a.to_owned());
    v.push(b.to_owned());
    v.push(c.to_owned());
    proof {
        assert(texts(v@) =~= seq![a@, b@, c@]);
    }
    v
}

fn classify(diag: YamlDiagnostic, yaml_str: &str) -> (r: YamlDiagnostic)
    ensures
        r@ == classified(diag@, yaml_str@),
{
    let mut d = diag;
    let msg = d.message.clone();
    if let Some(field) = parse_unknown_field_name(msg.as_str()) {
        d.code = "yaml.unknown_field".to_owned();
        if let Some(suggestion) = closest_known_key(field.as_str()) {
            d.suggestion = Some(suggestion.to_owned());
            let mut text = String::new();
            text.append("unknown field `");
            text.append(field.as_str());
            text.append("`");
            proof {
                assert(text@ =~= "unknown field `"@ + field@ + "`"@);
            }
            d.message = text;
        }
        return anchor(d, yaml_str, field.as_str());
    }
    if says(msg.as_str(), "invalid `worktree:`") {
        d.code = "yaml.invalid_worktree".to_owned();
        d.expected =
        shapes3(
            "string: \"auto\" | \"required\" | \"skip\"",
            "boolean: true (= auto) | false (= skip)",
            "map: { mode: <string>, cleanup: <bool>, base_ref: <string> }",
        );
        if let Some(s) = parse_did_you_mean_from_message(msg.as_str()) {
            d.suggestion = Some(s);
        }
        return anchor(d, yaml_str, "worktree");
    }
    if says(msg.as_str(), "invalid phase entry") || says(msg.as_str(), "rich phase entry") {
        d.code = "yaml.invalid_phase_entry".to_owned();
        d.expected =
        shapes3(
            "string phase id (e.g. `- impl`)",
            "sub-workflow ref: { workflow_ref: <name> }",
            "rich config: { <phase_id>: { max_rework_attempts: N, ... } }",
        );
    } else if says(msg.as_str(), "missing field") {
        d.code = "yaml.missing_field".to_owned();
    }
    d
}

/// Gives a diagnostic the code, the accepted shapes and the suggestion that its
/// message calls for, moves it to the field at fault, and widens the underline to
/// the end of the line.
pub fn enrich_diagnostic(diag: YamlDiagnostic, yaml_str: &str) -> (r: YamlDiagnostic)
    ensures
        r@ == enriched(diag@, yaml_str@),
{
    let d = classify(diag, yaml_str);
    match (d.line, d.col) {
        (Some(line), Some(col)) => widen_excerpt_to_value(d, yaml_str, line, col),
        _ => d,
    }
}

/// The diagnostic with its excerpt taken from another text.
pub open spec fn re_excerpted(d: YamlDiagnosticView, original: Seq<char>) -> YamlDiagnosticView {
    match d.line {
        None => YamlDiagnosticView { excerpt: None, ..d },
        Some(line) => excerpted(
            d,
            original,
            line as int,
            match d.col {
                Some(col) => col as int,
                None => 1,
            },
            0,
        ),
    }
}

/// Replaces the excerpt by one of the text as it was before interpolation, so
/// that it shows references instead of their values.
pub fn rebuild_excerpt_from_original(diag: YamlDiagnostic, original: &str) -> (r: YamlDiagnostic)
    ensures
        r@ == re_excerpted(diag@, original@),
{
    let mut d = diag;
    d.excerpt = None;
    match d.line {
        None => d,
        Some(line) => {
            let col: usize = match d.col {
                Some(col) => col,
                None => 1,
            };
            d.with_excerpt_from(original, line, col, 0)
        },
    }
}

/// The diagnostic for a text that the parser refused with the given message and
/// place. Where the text was interpolated, the excerpt shows the original.
pub open spec fn refusal(
    message: Seq<char>,
    location: Option<(usize, usize)>,
    source: Seq<char>,
    file: Option<Seq<char>>,
    original: Option<Seq<char>>,
) -> YamlDiagnosticView {
    let d = enriched(parse_failure(message, location, source, file), source);
    match original {
        Some(text) => if text == source {
            d
        } else {
            re_excerpted(d, text)
        },
        None => d,
    }
}

/// The diagnostic for a text that the parser refused with the given message and
/// place.
pub fn refusal_diagnostic(
    message: &str,
    location: Option<(usize, usize)>,
    yaml_str: &str,
    source_path: Option<&str>,
    original: Option<&str>,
) -> (r: YamlDiagnostic)
    ensures
        r@ == refusal(message@, location, yaml_str@, opt_str(source_path), opt_str(original)),
{
    let d = enrich_diagnostic(
        parse_failure_diagnostic(message, location, yaml_str, source_path),
        yaml_str,
    );
    match original {
        Some(text) => if same_text(text, yaml_str) {
            d
        } else {
            rebuild_excerpt_from_original(d, text)
        },
        None => d,
    }
}

/// The diagnostic for a text that the parser refused.
pub fn refused_yaml(
    err: &serde_yaml::Error,
    yaml_str: &str,
    source_path: Option<&str>,
    original: Option<&str>,
) -> (r: YamlDiagnostic)
    ensures
        exists|message: Seq<char>| #[trigger]
            refusal(
                message,
                yaml_error_location(*err),
                yaml_str@,
                opt_str(source_path),
                opt_str(original),
            ) == r@ && is_error_text(message, *err),
{
    let wrapped = wrap_serde_yaml_error(err, yaml_str, source_path);
    let ghost message = choose|message: Seq<char>| #[trigger]
        parse_failure(message, yaml_error_location(*err), yaml_str@, opt_str(source_path))
            == wrapped@ && is_error_text(message, *err);
    let d = enrich_diagnostic(wrapped, yaml_str);
    let r = match original {
        Some(text) => if same_text(text, yaml_str) {
            d
        } else {
            rebuild_excerpt_from_original(d, text)
        },
        None => d,
    };
    proof {
        assert(refusal(
            message,
            yaml_error_location(*err),
            yaml_str@,
            opt_str(source_path),
            opt_str(original),
        ) == r@);
    }
    r
}

/// An excerpt of the original text, never of the interpolated one: where the two
/// differ, no line of the interpolated text is shown.
pub proof fn refusal_shows_the_original(
    message: Seq<char>,
    location: Option<(usize, usize)>,
    source: Seq<char>,
    file: Option<Seq<char>>,
    original: Seq<char>,
)
    requires
        original != source,
    ensures
        refusal(message, location, source, file, Some(original)).excerpt matches Some(e)
            ==> exists|line: int, col: int| #[trigger] excerpt_of(original, line, col, 0) == e,
{
}

// ---------------------------------------------------------------------
// Laws
// ---------------------------------------------------------------------

proof fn lemma_first_char(s: Seq<char>, c: char, at: int)
    requires
        0 <= at < s.len(),
        s[at] == c,
        forall|i: int| 0 <= i < at ==> #[trigger] s[i] != c,
    ensures
        find(s, seq![c]) == Some(at),
{
    let one = seq![c];
    crate::text::lemma_find_from(s, one, 0);
    assert(s.subrange(at, at + 1) =~= one);
    assert(crate::text::occurs_at(s, one, at));
    let found = find(s, one)->0;
    if found < at {
        assert(s.subrange(found, found + 1)[0] == one[0]);
    }
}

/// What stands between a marker and the next backquote is read out of a message.
pub proof fn quoted_names_are_read(
    front: Seq<char>,
    marker: Seq<char>,
    name: Seq<char>,
    back: Seq<char>,
)
    requires
        marker.len() > 0,
        forall|i: int| 0 <= i < name.len() ==> #[trigger] name[i] != '`',
        forall|j: int|
            0 <= j < front.len() ==> !#[trigger] crate::text::occurs_at(
                front + marker + name + seq!['`'] + back,
                marker,
                j,
            ),
    ensures
        quoted_after(front + marker + name + seq!['`'] + back, marker) == Some(name),
{
    let msg = front + marker + name + seq!['`'] + back;
    let n = front.len() as int;
    crate::text::lemma_find_from(msg, marker, 0);
    assert(msg.subrange(n, n + marker.len()) =~= marker);
    assert(crate::text::occurs_at(msg, marker, n));
    let rest = msg.skip(n + marker.len());
    let tail = name + seq!['`'] + back;
    assert(rest =~= tail);
    let m = name.len() as int;
    assert(tail[m] == '`');
    assert forall|i: int| 0 <= i < m implies #[trigger] tail[i] != '`' by {
        assert(tail[i] == name[i]);
    }
    lemma_first_char(tail, '`', m);
    assert(rest.take(m) =~= name);
}

proof fn lemma_key_line_from(all: Seq<Seq<char>>, key: Seq<char>, i: int)
    requires
        0 <= i,
    ensures
        key_line_from(all, key, i) matches Some(k) ==> i <= k < all.len() && key_column(
            all[k],
            key,
        ) is Some && forall|j: int| i <= j < k ==> key_column(#[trigger] all[j], key) is None,
        key_line_from(all, key, i) is None ==> forall|j: int|
            i <= j < all.len() ==> key_column(#[trigger] all[j], key) is None,
    decreases all.len() - i,
{
    if i < all.len() && key_column(all[i], key) is None {
        lemma_key_line_from(all, key, i + 1);
    }
}

proof fn lemma_key_line_before(all: Seq<Seq<char>>, key: Seq<char>, i: int)
    requires
        0 <= i <= all.len(),
    ensures
        key_line_before(all, key, i) matches Some(k) ==> 0 <= k < i && key_column(all[k], key) is Some
            && forall|j: int| k < j < i ==> key_column(#[trigger] all[j], key) is None,
        key_line_before(all, key, i) is None ==> forall|j: int|
            0 <= j < i ==> key_column(#[trigger] all[j], key) is None,
    decreases i,
{
    if i > 0 && key_column(all[i - 1], key) is None {
        lemma_key_line_before(all, key, i - 1);
    }
}

proof fn lemma_trim_start_is_suffix(s: Seq<char>)
    ensures
        trim_start(s).len() <= s.len(),
        s.skip(s.len() - trim_start(s).len()) == trim_start(s),
    decreases s.len(),
{
    crate::text::lemma_trim_len(s);
    if s.len() > 0 && crate::text::is_white_space(s[0]) {
        lemma_trim_start_is_suffix(s.drop_first());
        let t = trim_start(s);
        assert(s.drop_first().skip(s.len() - 1 - t.len()) =~= s.skip(s.len() - t.len()));
    } else {
        assert(s.skip(0) =~= s);
    }
}

/// A key stands where its column says: the line goes on with it from there.
pub proof fn keys_stand_at_their_column(line: Seq<char>, key: Seq<char>)
    ensures
        key_column(line, key) matches Some(col) ==> 0 <= col && col + key.len() <= line.len()
            && line.subrange(col, col + key.len()) == key,
        starts_with(trim_start(line), key) ==> key_column(line, key) == Some(
            line.len() - trim_start(line).len(),
        ),
{
    let text = trim_start(line);
    lemma_trim_start_is_suffix(line);
    if starts_with(text, key) {
        let col = line.len() - text.len();
        assert(line.subrange(col, col + key.len()) =~= text.take(key.len() as int));
    } else if starts_with(text, "- "@) {
        reveal_strlit("- ");
        let rest = text.skip("- "@.len() as int);
        lemma_trim_start_is_suffix(rest);
        let body = trim_start(rest);
        if starts_with(body, key) {
            let col = line.len() - body.len();
            assert(line.subrange(col, col + key.len()) =~= body.take(key.len() as int));
        }
    }
}

/// A field's place is one where its key stands: the first line from the given one
/// on that has it, or the last one before where none has. It is found if any line
/// has it.
pub proof fn fields_are_placed_at_their_key(
    source: Seq<char>,
    field: Seq<char>,
    start_line: int,
    j: int,
)
    requires
        1 <= start_line <= lines(source).len(),
        0 <= j < lines(source).len(),
    ensures
        field_place(source, field, start_line) matches Some(p) ==> 1 <= p.line
            <= lines(source).len() && key_column(lines(source)[p.line - 1], field + ":"@) == Some(
            p.col_start - 1,
        ) && lines(source)[p.line - 1].subrange(
            p.col_start - 1,
            p.col_start - 1 + field.len() + ":"@.len(),
        ) == field + ":"@ && (j >= start_line - 1 && key_column(
            lines(source)[j],
            field + ":"@,
        ) is Some ==> start_line <= p.line <= j + 1) && (p.line < start_line && j < start_line - 1
            && key_column(lines(source)[j], field + ":"@) is Some ==> j + 1 <= p.line),
        field_place(source, field, start_line) is None ==> key_column(
            lines(source)[j],
            field + ":"@,
        ) is None,
{
    let all = lines(source);
    let key = field + ":"@;
    let start = start_line - 1;
    lemma_key_line_from(all, key, start);
    lemma_key_line_before(all, key, start);
    if let Some(p) = field_place(source, field, start_line) {
        keys_stand_at_their_column(all[p.line - 1], key);
    }
}

/// An unknown field is told by its own code; where a known key is close, that key
/// is suggested. A message that names a misspelt worktree block, a bad entry or a
/// missing field has the code for it, and any other keeps the diagnostic's code.
pub proof fn diagnostics_are_classified(d: YamlDiagnosticView, source: Seq<char>)
    ensures
        quoted_after(d.message, "unknown field `"@) matches Some(field) ==> enriched(
            d,
            source,
        ).code == "yaml.unknown_field"@ && (closest(field, known_field_keys(), 2) matches Some(key)
            ==> enriched(d, source).suggestion == Some(key) && enriched(d, source).message
            == "unknown field `"@ + field + "`"@) && (closest(field, known_field_keys(), 2) is None
            ==> enriched(d, source).suggestion == d.suggestion && enriched(d, source).message
            == d.message),
        quoted_after(d.message, "unknown field `"@) is None && contains(
            d.message,
            "invalid `worktree:`"@,
        ) ==> enriched(d, source).code == "yaml.invalid_worktree"@ && (quoted_after(
            d.message,
            "did you mean `"@,
        ) matches Some(s) ==> enriched(d, source).suggestion == Some(s)),
        quoted_after(d.message, "unknown field `"@) is None && !contains(
            d.message,
            "invalid `worktree:`"@,
        ) && (contains(d.message, "invalid phase entry"@) || contains(
            d.message,
            "rich phase entry"@,
        )) ==> enriched(d, source).code == "yaml.invalid_phase_entry"@,
        quoted_after(d.message, "unknown field `"@) is None && !contains(
            d.message,
            "invalid `worktree:`"@,
        ) && !contains(d.message, "invalid phase entry"@) && !contains(
            d.message,
            "rich phase entry"@,
        ) ==> enriched(d, source).code == if contains(d.message, "missing field"@) {
            "yaml.missing_field"@
        } else {
            d.code
        },
        enriched(d, source).file == d.file,
        enriched(d, source).note == d.note,
        d.line is None ==> enriched(d, source).line is None,
{
}

/// A diagnostic about a field points to the field: its line and column are where
/// the field's key stands, and the excerpt shows that line.
pub proof fn field_diagnostics_point_to_the_field(
    d: YamlDiagnosticView,
    source: Seq<char>,
    field: Seq<char>,
    line: usize,
)
    requires
        d.line == Some(line),
        quoted_after(d.message, "unknown field `"@) == Some(field),
        lines(source).len() < usize::MAX,
    ensures
        field_place(source, field, line as int) matches Some(p) ==> (p.line < usize::MAX
            && p.col_start < usize::MAX && 1 <= p.line <= lines(source).len() && p.col_start >= 1
            ==> enriched(d, source).line == Some(p.line as usize) && enriched(d, source).col
            == Some(p.col_start as usize) && (enriched(d, source).excerpt matches Some(e)
            && e.lines[e.focal as int] == lines(source)[p.line - 1])),
        field_place(source, field, line as int) is None ==> enriched(d, source).line == d.line
            && enriched(d, source).col == d.col,
{
}

/// What is shown of a refused text is its own line, or, where it was interpolated,
/// the line with that number in the text as it was written.
pub proof fn refusals_show_their_line(
    message: Seq<char>,
    location: Option<(usize, usize)>,
    source: Seq<char>,
    file: Option<Seq<char>>,
    original: Seq<char>,
)
    requires
        original != source,
    ensures
        ({
            let plain = refusal(message, location, source, file, None);
            let shown = refusal(message, location, source, file, Some(original));
            &&& shown.line == plain.line
            &&& shown.col == plain.col
            &&& shown.code == plain.code
            &&& shown.message == plain.message
            &&& shown.suggestion == plain.suggestion
            &&& refusal(message, location, source, file, Some(source)) == plain
            &&& shown.line matches Some(line) ==> (0 < line <= lines(original).len() ==> (
            shown.excerpt matches Some(e) && e.lines[e.focal as int] == lines(original)[line - 1]
                && e.start_line + e.focal == line))
            &&& shown.line is None ==> shown.excerpt is None
        }),
{
}

} // verus!
