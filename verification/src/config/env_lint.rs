//! Warnings about `${VAR}` references whose name looks like a credential.

use vstd::prelude::*;
use vstd::slice::slice_subrange;

use crate::config::env_interp::{
    close_from, find_matching_close, is_secret_reference, lemma_close_from, secret_reference,
};
use crate::config::yaml_comments::{in_comment, CommentSpans};
use crate::text::{
    before, byte_count, byte_len, chars_of, contains, decimal, end_of_line, ends_with, has_prefix,
    has_suffix, has_text, line_end, push_chars, push_decimal, starts_with, text_before, texts, trim,
    trim_start, trimmed, trimmed_start, upper, upper_chars,
};

verus! {

/// Whether a reference names a variable that looks like a credential.
pub open spec fn sensitive(body: Seq<char>) -> bool {
    let name = upper(trim(before(trim(body), ':')));
    ||| contains(name, "TOKEN"@)
    ||| contains(name, "KEY"@)
    ||| contains(name, "SECRET"@)
    ||| contains(name, "PASSWORD"@)
}

fn looks_like_sensitive_var(body: &[char]) -> (r: bool)
    ensures
        r == sensitive(body@),
{
    let name = upper_chars(trimmed(text_before(trimmed(body), ':')));
    let name = name.as_slice();
    has_text(name, chars_of("TOKEN").as_slice()) || has_text(name, chars_of("KEY").as_slice())
        || has_text(name, chars_of("SECRET").as_slice()) || has_text(
        name,
        chars_of("PASSWORD").as_slice(),
    )
}

/// `s` without trailing newlines and carriage returns.
pub open spec fn trim_eol(s: Seq<char>) -> Seq<char>
    decreases s.len(),
{
    if s.len() > 0 && (s.last() == '\n' || s.last() == '\r') {
        trim_eol(s.drop_last())
    } else {
        s
    }
}

/// Bytes of white space in front of a line's text.
pub open spec fn lint_indent(line: Seq<char>) -> nat {
    byte_len(line.take(line.len() - trim_start(line).len()))
}

/// The blocks a line stands in, by the indentation of the line that opened them:
/// a top-level `secrets:` block, and the block under a key that ends in `_env`.
pub struct LintScope {
    pub secrets: Option<nat>,
    pub env: Option<nat>,
}

/// The blocks after a line has been read. Blank lines and comment lines change
/// nothing; a block ends with the first line indented no deeper than its opener.
pub open spec fn lint_scope(line: Seq<char>, scope: LintScope) -> LintScope {
    let body = trim_start(line);
    let indent = lint_indent(line);
    if body.len() == 0 || body[0] == '#' {
        scope
    } else {
        let opens_secrets = starts_with(body, "secrets:"@);
        let secrets = if scope.secrets is Some && indent <= scope.secrets->0 && !opens_secrets {
            None
        } else {
            scope.secrets
        };
        let env = if scope.env is Some && indent <= scope.env->0 {
            None
        } else {
            scope.env
        };
        LintScope {
            secrets: if opens_secrets && indent == 0 {
                Some(indent)
            } else {
                secrets
            },
            env: if env is None && ends_with(trim(before(body, ':')), "_env"@) {
                Some(indent)
            } else {
                env
            },
        }
    }
}

/// The warning for one reference.
pub open spec fn lint_warning(source_label: Seq<char>, line: nat, body: Seq<char>) -> Seq<char> {
    "workflow YAML at "@ + source_label + " line "@ + decimal(line) + " interpolates env var `"@
        + trim(body)
        + "` which looks like a credential; consider declaring it under `secrets:` and using `${secret.<name>}` instead"@
}

/// The warnings for the references of one line from index `i` on. The line
/// starts at index `start` of the text `s`.
pub open spec fn line_warnings(
    s: Seq<char>,
    line: Seq<char>,
    start: int,
    i: int,
    source_label: Seq<char>,
    number: nat,
) -> Seq<Seq<char>>
    decreases line.len() - i,
    via line_warnings_decreases
{
    if i < 0 || i + 1 >= line.len() {
        Seq::empty()
    } else if line[i] == '$' && line[i + 1] == '{' && !in_comment(s, start + i) {
        match close_from(line, i + 2, 0) {
            None => Seq::empty(),
            Some(c) => {
                let body = line.subrange(i + 2, c);
                let rest = line_warnings(s, line, start, c + 1, source_label, number);
                if !secret_reference(body) && sensitive(body) {
                    seq![lint_warning(source_label, number, body)] + rest
                } else {
                    rest
                }
            },
        }
    } else {
        line_warnings(s, line, start, i + 1, source_label, number)
    }
}

#[via_fn]
proof fn line_warnings_decreases(
    s: Seq<char>,
    line: Seq<char>,
    start: int,
    i: int,
    source_label: Seq<char>,
    number: nat,
) {
    if 0 <= i && i + 1 < line.len() {
        lemma_close_from(line, i + 2, 0);
    }
}

/// The warnings for the lines from index `from` on, the first of which has the
/// given 1-based number.
pub open spec fn warnings_from(
    s: Seq<char>,
    from: int,
    number: nat,
    scope: LintScope,
    source_label: Seq<char>,
) -> Seq<Seq<char>>
    decreases s.len() - from,
    via warnings_from_decreases
{
    if from < 0 || from >= s.len() {
        Seq::empty()
    } else {
        let end = line_end(s, from);
        let line = trim_eol(s.subrange(from, end));
        let next = lint_scope(line, scope);
        let rest = warnings_from(s, end, number + 1, next, source_label);
        if next.secrets is Some || next.env is Some {
            rest
        } else {
            line_warnings(s, line, from, 0, source_label, number) + rest
        }
    }
}

#[via_fn]
proof fn warnings_from_decreases(
    s: Seq<char>,
    from: int,
    number: nat,
    scope: LintScope,
    source_label: Seq<char>,
) {
    if 0 <= from < s.len() {
        crate::text::lemma_line_end(s, from);
    }
}

/// The warnings for a whole text.
pub open spec fn warnings(s: Seq<char>, source_label: Seq<char>) -> Seq<Seq<char>> {
    warnings_from(s, 0, 1, LintScope { secrets: None, env: None }, source_label)
}

proof fn lemma_trim_eol(s: Seq<char>, k: int)
    requires
        0 <= k <= s.len(),
        forall|i: int| k <= i < s.len() ==> s[i] == '\n' || s[i] == '\r',
        k == 0 || (s[k - 1] != '\n' && s[k - 1] != '\r'),
    ensures
        trim_eol(s) == s.take(k),
    decreases s.len() - k,
{
    if k < s.len() {
        lemma_trim_eol(s.drop_last(), k);
        assert(s.drop_last().take(k) =~= s.take(k));
    } else {
        assert(s.take(k) =~= s);
    }
}

/// A line without its trailing newlines and carriage returns.
fn without_eol(line: &[char]) -> (r: &[char])
    ensures
        r@ == trim_eol(line@),
        r.len() <= line.len(),
        forall|k: int| 0 <= k < r.len() ==> r@[k] == line@[k],
{
    let mut k: usize = line.len();
    while k > 0 && (line[k - 1] == '\n' || line[k - 1] == '\r')
        invariant
            k <= line.len(),
            forall|i: int| k <= i < line.len() ==> line@[i] == '\n' || line@[i] == '\r',
        decreases k,
    {
        k -= 1;
    }
    proof {
        lemma_trim_eol(line@, k as int);
        assert(line@.take(k as int) =~= line@.subrange(0, k as int));
    }
    slice_subrange(line, 0, k)
}

/// Bytes of white space in front of the text of a line.
pub(crate) fn indent_bytes(line: &[char]) -> (r: u128)
    ensures
        r == lint_indent(line@),
{
    proof {
        crate::text::lemma_trim_len(line@);
    }
    let body = trimmed_start(line);
    let n: usize = line.len() - body.len();
    proof {
        assert(line@.subrange(0, n as int) =~= line@.take(n as int));
    }
    byte_count(slice_subrange(line, 0, n))
}

/// The warning for one reference.
fn warning_text(source_label: &str, number: usize, body: &[char]) -> (r: String)
    ensures
        r@ == lint_warning(source_label@, number as nat, body@),
{
    let mut out = String::new();
    out.append("workflow YAML at ");
    out.append(source_label);
    out.append(" line ");
    push_decimal(&mut out, number as u128);
    out.append(" interpolates env var `");
    push_chars(&mut out, trimmed(body));
    out.append(
        "` which looks like a credential; consider declaring it under `secrets:` and using `${secret.<name>}` instead",
    );
    proof {
        assert(out@ =~= lint_warning(source_label@, number as nat, body@));
    }
    out
}

/// Scans raw YAML for `${VAR}` references whose name looks like a credential
/// (it holds TOKEN, KEY, SECRET or PASSWORD) and that stand neither in a comment,
/// nor under the `secrets:` block, nor under a key that ends in `_env`. One
/// warning per reference, in their order.
pub fn lint_sensitive_interpolations(content: &str, source_label: &str) -> (r: Vec<String>)
    ensures
        texts(r@) == warnings(content@, source_label@),
{
    let chars = chars_of(content);
    let s = chars.as_slice();
    let mut found: Vec<String> = Vec::new();
    let mut comments = CommentSpans::new(s);
    let mut secrets: Option<u128> = None;
    let mut env: Option<u128> = None;
    let mut from: usize = 0;
    let mut index: usize = 0;
    let ghost mut scope = LintScope { secrets: None, env: None };
    while from < s.len()
        invariant
            from <= s.len(),
            s@ == content@,
            index <= from,
            comments.wf(s@, from as int),
            scope == scope_of(secrets, env),
            warnings(s@, source_label@) =~= texts(found@) + warnings_from(
                s@,
                from as int,
                index as nat + 1,
                scope,
                source_label@,
            ),
        decreases s.len() - from,
    {
        let end = end_of_line(s, from);
        let line = without_eol(slice_subrange(s, from, end));
        let body = trimmed_start(line);
        let indent = indent_bytes(line);
        let ghost old_scope = scope;
        let ghost before_line = texts(found@);
        if body.len() > 0 && body[0] != '#' {
            let opens_secrets = has_prefix(body, chars_of("secrets:").as_slice());
            if let Some(top) = secrets {
                if indent <= top && !opens_secrets {
                    secrets = None;
                }
            }
            if opens_secrets && indent == 0 {
                secrets = Some(indent);
            }
            if let Some(top) = env {
                if indent <= top {
                    env = None;
                }
            }
            if env.is_none() && has_suffix(
                trimmed(text_before(body, ':')),
                chars_of("_env").as_slice(),
            ) {
                env = Some(indent);
            }
        }
        proof {
            scope = scope_of(secrets, env);
            assert(scope == lint_scope(line@, old_scope));
        }
        if secrets.is_none() && env.is_none() {
            scan_line_references(s, line, from, source_label, index + 1, &mut comments, &mut found);
            proof {
                comments.lemma_wf_later(s@, from + line.len(), end as int);
            }
        } else {
            proof {
                comments.lemma_wf_later(s@, from as int, end as int);
            }
        }
        from = end;
        index = index + 1;
    }
    proof {
        assert(texts(found@) + Seq::<Seq<char>>::empty() =~= texts(found@));
    }
    found
}

spec fn scope_of(secrets: Option<u128>, env: Option<u128>) -> LintScope {
    LintScope {
        secrets: match secrets {
            Some(n) => Some(n as nat),
            None => None,
        },
        env: match env {
            Some(n) => Some(n as nat),
            None => None,
        },
    }
}

/// Appends the warnings for the references of one line.
fn scan_line_references(
    s: &[char],
    line: &[char],
    start: usize,
    source_label: &str,
    number: usize,
    comments: &mut CommentSpans,
    found: &mut Vec<String>,
)
    requires
        old(comments).wf(s@, start as int),
        start + line.len() <= s.len(),
    ensures
        final(comments).wf(s@, start + line.len()),
        texts(final(found)@) == texts(old(found)@) + line_warnings(
            s@,
            line@,
            start as int,
            0,
            source_label@,
            number as nat,
        ),
{
    let ghost all = line_warnings(s@, line@, start as int, 0, source_label@, number as nat);
    let mut i: usize = 0;
    while i < line.len() && i + 1 < line.len()
        invariant
            i <= line.len(),
            start + line.len() <= s.len(),
            comments.wf(s@, start + i),
            all == line_warnings(s@, line@, start as int, 0, source_label@, number as nat),
            texts(old(found)@) + all =~= texts(found@) + line_warnings(
                s@,
                line@,
                start as int,
                i as int,
                source_label@,
                number as nat,
            ),
        decreases line.len() - i,
    {
        if line[i] == '$' && line[i + 1] == '{' && !comments.contains(
            start + i,
            Ghost(s@),
            Ghost(start + i),
        ) {
            match find_matching_close(line, i + 2) {
                None => {
                    proof {
                        comments.lemma_wf_later(s@, start + i, start + line.len());
                        assert(texts(found@) + Seq::<Seq<char>>::empty() =~= texts(found@));
                    }
                    return;
                },
                Some(close) => {
                    let body = slice_subrange(line, i + 2, close);
                    let ghost before = found@;
                    if !is_secret_reference(body) && looks_like_sensitive_var(body) {
                        found.push(warning_text(source_label, number, body));
                        proof {
                            assert(texts(found@) =~= texts(before).push(
                                lint_warning(source_label@, number as nat, body@),
                            ));
                        }
                    }
                    proof {
                        comments.lemma_wf_later(s@, start + i, start + close + 1);
                    }
                    i = close + 1;
                },
            }
        } else {
            proof {
                comments.lemma_wf_later(s@, start + i, start + i + 1);
            }
            i += 1;
        }
    }
    proof {
        comments.lemma_wf_later(s@, start + i, start + line.len());
        assert(texts(found@) + Seq::<Seq<char>>::empty() =~= texts(found@));
    }
}

// ---------------------------------------------------------------------
// Laws
// ---------------------------------------------------------------------

/// Whether a word stands in a name, in whatever ASCII case.
pub open spec fn holds_word(name: Seq<char>, word: Seq<char>) -> bool {
    exists|i: int|
        0 <= i && i + word.len() <= name.len() && crate::text::same_ignoring_case(
            #[trigger] name.subrange(i, i + word.len()),
            word,
        )
}

proof fn lemma_holds_word(name: Seq<char>, word: Seq<char>)
    requires
        forall|k: int| 0 <= k < word.len() ==> 'A' <= #[trigger] word[k] <= 'Z',
    ensures
        holds_word(name, word) <==> contains(upper(name), word),
{
    assert forall|i: int| 0 <= i && i + word.len() <= name.len() implies (
    crate::text::same_ignoring_case(#[trigger] name.subrange(i, i + word.len()), word)
        <==> crate::text::occurs_at(upper(name), word, i)) by {
        let part = name.subrange(i, i + word.len());
        let shown = upper(name).subrange(i, i + word.len());
        crate::text::case_does_not_count(part, word);
        assert forall|k: int| 0 <= k < word.len() implies (shown[k] == word[k] <==> part[k] == word[k]
            || ('A' <= word[k] <= 'Z' && part[k] as u32 == word[k] as u32 + 32)) by {
            assert(shown[k] == crate::text::upper_char(part[k]));
            crate::text::case_is_folded_letter_by_letter(part[k]);
        }
        if shown == word {
            assert forall|k: int| 0 <= k < part.len() implies #[trigger] part[k]
                == #[trigger] word[k] || ('A' <= part[k] <= 'Z' && word[k] as u32 == part[k] as u32
                + 32) || ('A' <= word[k] <= 'Z' && part[k] as u32 == word[k] as u32 + 32) by {
                assert(shown[k] == word[k]);
            }
        }
        if crate::text::same_ignoring_case(part, word) {
            assert forall|k: int| 0 <= k < word.len() implies shown[k] == word[k] by {
                assert('A' <= word[k] <= 'Z');
                assert(part[k] == word[k] || ('A' <= part[k] <= 'Z' && word[k] as u32
                    == part[k] as u32 + 32) || ('A' <= word[k] <= 'Z' && part[k] as u32
                    == word[k] as u32 + 32));
            }
            assert(shown =~= word);
        }
    }
    if holds_word(name, word) {
        let i = choose|i: int|
            0 <= i && i + word.len() <= name.len() && crate::text::same_ignoring_case(
                #[trigger] name.subrange(i, i + word.len()),
                word,
            );
        assert(crate::text::occurs_at(upper(name), word, i));
    }
    if contains(upper(name), word) {
        let i = choose|i: int| crate::text::occurs_at(upper(name), word, i);
        assert(crate::text::same_ignoring_case(name.subrange(i, i + word.len()), word));
    }
}

/// A variable looks like a credential exactly if its name holds `TOKEN`, `KEY`,
/// `SECRET` or `PASSWORD`, in whatever case. What its reference says behind a `:`
/// does not count.
pub proof fn credentials_go_by_their_names(name: Seq<char>, tail: Seq<char>)
    requires
        name.len() > 0,
        forall|k: int|
            0 <= k < name.len() ==> #[trigger] name[k] != ':' && !crate::text::is_white_space(
                name[k],
            ),
        tail.len() == 0 || (tail[0] == ':' && !crate::text::is_white_space(tail.last())),
    ensures
        sensitive(name + tail) <==> holds_word(name, "TOKEN"@) || holds_word(name, "KEY"@)
            || holds_word(name, "SECRET"@) || holds_word(name, "PASSWORD"@),
{
    reveal_strlit("TOKEN");
    reveal_strlit("KEY");
    reveal_strlit("SECRET");
    reveal_strlit("PASSWORD");
    let body = name + tail;
    let none = Seq::<char>::empty();
    assert(none + body + none =~= body);
    assert(body[0] == name[0]);
    if tail.len() > 0 {
        assert(body.last() == tail.last());
    } else {
        assert(body.last() == name[name.len() - 1]);
    }
    crate::text::trimming_leaves_the_core(none, body, none);
    assert forall|i: int| 0 <= i < name.len() implies body[i] != ':' by {
        assert(body[i] == name[i]);
    }
    crate::text::lemma_text_before(body, ':', name.len() as int);
    assert(body.take(name.len() as int) =~= name);
    assert(none + name + none =~= name);
    assert(name.last() == name[name.len() - 1]);
    crate::text::trimming_leaves_the_core(none, name, none);
    lemma_holds_word(name, "TOKEN"@);
    lemma_holds_word(name, "KEY"@);
    lemma_holds_word(name, "SECRET"@);
    lemma_holds_word(name, "PASSWORD"@);
}

/// A reference outside comments is warned about exactly if it looks like a
/// credential and is no secret reference; the text behind it is scanned on. Any
/// other character is passed over, and a reference without its end ends the scan.
pub proof fn references_are_warned_about_one_by_one(
    s: Seq<char>,
    line: Seq<char>,
    start: int,
    i: int,
    c: int,
    source_label: Seq<char>,
    number: nat,
)
    requires
        0 <= i,
        i + 1 < line.len(),
    ensures
        line[i] == '$' && line[i + 1] == '{' && !in_comment(s, start + i)
            && crate::config::env_interp::closes_at(line, i + 2, c) ==> line_warnings(
            s,
            line,
            start,
            i,
            source_label,
            number,
        ) == (if sensitive(line.subrange(i + 2, c)) && !secret_reference(
            line.subrange(i + 2, c),
        ) {
            seq![
                "workflow YAML at "@ + source_label + " line "@ + decimal(number)
                    + " interpolates env var `"@ + trim(line.subrange(i + 2, c))
                    + "` which looks like a credential; consider declaring it under `secrets:` and using `${secret.<name>}` instead"@,
            ]
        } else {
            Seq::empty()
        }) + line_warnings(s, line, start, c + 1, source_label, number),
        line[i] != '$' || line[i + 1] != '{' || in_comment(s, start + i) ==> line_warnings(
            s,
            line,
            start,
            i,
            source_label,
            number,
        ) == line_warnings(s, line, start, i + 1, source_label, number),
{
    if line[i] == '$' && line[i + 1] == '{' && !in_comment(s, start + i)
        && crate::config::env_interp::closes_at(line, i + 2, c) {
        crate::config::env_interp::references_end_at_their_brace(line, i + 2, c);
        let rest = line_warnings(s, line, start, c + 1, source_label, number);
        assert(Seq::<Seq<char>>::empty() + rest =~= rest);
    }
}

/// Lines are scanned one after the other, each under its number: outside a block
/// of secrets and a block of variable names, a line's warnings stand in front of
/// those of the lines behind it; inside, it has none.
pub proof fn lines_are_linted_one_by_one(
    s: Seq<char>,
    from: int,
    end: int,
    number: nat,
    scope: LintScope,
    source_label: Seq<char>,
)
    requires
        0 <= from < end <= s.len(),
        forall|k: int| from <= k < end - 1 ==> #[trigger] s[k] != '\n',
        s[end - 1] == '\n' || end == s.len(),
    ensures
        ({
            let line = trim_eol(s.subrange(from, end));
            let next = lint_scope(line, scope);
            warnings_from(s, from, number, scope, source_label) == (if next.secrets is None
                && next.env is None {
                line_warnings(s, line, from, 0, source_label, number)
            } else {
                Seq::empty()
            }) + warnings_from(s, end, number + 1, next, source_label)
        }),
{
    crate::text::lemma_line_end_is(s, from, end);
    let line = trim_eol(s.subrange(from, end));
    let next = lint_scope(line, scope);
    let rest = warnings_from(s, end, number + 1, next, source_label);
    assert(Seq::<Seq<char>>::empty() + rest =~= rest);
}

/// A top-level `secrets:` opens the block of secrets; the block goes on over
/// blank lines, comments and indented lines, and ends with any other line. Outside
/// it, only such a line opens it.
pub proof fn the_secrets_block_goes_by_indentation(line: Seq<char>, scope: LintScope)
    requires
        scope.secrets is None || scope.secrets == Some(0nat),
        line.len() > 0,
    ensures
        line[0] == '#' ==> lint_scope(line, scope) == scope,
        starts_with(line, "secrets:"@) ==> lint_scope(line, scope).secrets == Some(0nat),
        !crate::text::is_white_space(line[0]) && line[0] != '#' && !starts_with(line, "secrets:"@)
            ==> lint_scope(line, scope).secrets is None,
        crate::text::is_white_space(line[0]) ==> lint_scope(line, scope).secrets == scope.secrets,
{
    reveal_strlit("secrets:");
    let body = trim_start(line);
    crate::text::lemma_trim_len(line);
    if !crate::text::is_white_space(line[0]) {
        assert(body == line);
        assert(line.take(0) =~= Seq::<char>::empty());
        assert(lint_indent(line) == 0);
    } else {
        crate::text::lemma_trim_len(line.drop_first());
        let k = line.len() - body.len();
        assert(k > 0);
        crate::text::lemma_byte_len_positive(line.take(k));
        assert(lint_indent(line) > 0);
    }
    if starts_with(line, "secrets:"@) {
        assert(line.take(8)[0] == line[0]);
        assert(line[0] == 's');
    }
}

/// A key that ends in `_env` opens a block of variable names; the block goes on
/// over deeper lines, blank lines and comments, and ends with the first line that is
/// indented no deeper than its key.
pub proof fn blocks_of_names_go_by_indentation(line: Seq<char>, scope: LintScope, indent: nat)
    requires
        trim_start(line).len() > 0,
        trim_start(line)[0] != '#',
    ensures
        scope.env is None && ends_with(trim(before(trim_start(line), ':')), "_env"@) ==> lint_scope(
            line,
            scope,
        ).env == Some(lint_indent(line)),
        scope.env is None && !ends_with(trim(before(trim_start(line), ':')), "_env"@)
            ==> lint_scope(line, scope).env is None,
        scope.env == Some(indent) && lint_indent(line) > indent ==> lint_scope(line, scope).env
            == Some(indent),
        scope.env == Some(indent) && lint_indent(line) <= indent && !ends_with(
            trim(before(trim_start(line), ':')),
            "_env"@,
        ) ==> lint_scope(line, scope).env is None,
{
}

} // verus!
