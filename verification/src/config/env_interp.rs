//! Shell-style environment variable interpolation for workflow YAML.
//!
//! Substitution happens against the raw file contents before YAML parsing so every
//! string field accepts the same syntax uniformly.
//!
//! | Form              | Meaning                                        |
//! | ----------------- | ---------------------------------------------- |
//! | `${VAR}`          | Required. Errors if `VAR` is unset.            |
//! | `${VAR:-default}` | Optional. Falls back to `default` if unset.    |
//! | `${VAR:?message}` | Required with a custom error message.          |
//! | `$$`              | Literal `$`.                                   |
//!
//! References inside YAML comments are left untouched, and so is every
//! `${secret.<name>}` reference: those are resolved when they are consumed.

use vstd::prelude::*;
use vstd::slice::slice_subrange;

use crate::config::yaml_comments::{in_comment, CommentSpans};
use crate::text::{
    chars_of, decimal, find, find_text, has_prefix, is_ascii_letter, is_digit, line_number,
    line_number_at, opt_text, push_chars, push_decimal, starts_with, string_of, trim, trim_start, trimmed,
    trimmed_start,
};

verus! {

// ---------------------------------------------------------------------
// References
// ---------------------------------------------------------------------

/// Index of the first unmatched `}` at or after `i`, where `depth` braces are
/// open already.
pub open spec fn close_from(s: Seq<char>, i: int, depth: nat) -> Option<int>
    decreases s.len() - i,
{
    if i < 0 || i >= s.len() {
        None
    } else if s[i] == '{' {
        close_from(s, i + 1, depth + 1)
    } else if s[i] == '}' {
        if depth == 0 {
            Some(i)
        } else {
            close_from(s, i + 1, (depth - 1) as nat)
        }
    } else {
        close_from(s, i + 1, depth)
    }
}

pub(crate) proof fn lemma_close_from(s: Seq<char>, i: int, depth: nat)
    requires
        0 <= i,
    ensures
        close_from(s, i, depth) matches Some(c) ==> i <= c < s.len() && s[c] == '}',
    decreases s.len() - i,
{
    if i < s.len() {
        if s[i] == '{' {
            lemma_close_from(s, i + 1, depth + 1);
        } else if s[i] == '}' {
            if depth > 0 {
                lemma_close_from(s, i + 1, (depth - 1) as nat);
            }
        } else {
            lemma_close_from(s, i + 1, depth);
        }
    }
}

/// Index of the first unmatched `}` at or after `from`.
pub(crate) fn find_matching_close(s: &[char], from: usize) -> (r: Option<usize>)
    requires
        from <= s.len(),
    ensures
        match r {
            Some(c) => close_from(s@, from as int, 0) == Some(c as int) && from <= c < s.len(),
            None => close_from(s@, from as int, 0) is None,
        },
{
    let mut depth: usize = 0;
    let mut i: usize = from;
    while i < s.len()
        invariant
            from <= i <= s.len(),
            depth <= i,
            close_from(s@, from as int, 0) == close_from(s@, i as int, depth as nat),
        decreases s.len() - i,
    {
        if s[i] == '{' {
            depth += 1;
        } else if s[i] == '}' {
            if depth == 0 {
                return Some(i);
            }
            depth -= 1;
        }
        i += 1;
    }
    None
}

/// Whether the body of a reference names a secret, which the consumer resolves.
pub open spec fn secret_reference(body: Seq<char>) -> bool {
    starts_with(trim_start(body), "secret."@)
}

pub(crate) fn is_secret_reference(body: &[char]) -> (r: bool)
    ensures
        r == secret_reference(body@),
{
    has_prefix(trimmed_start(body), chars_of("secret.").as_slice())
}

/// Whether a well-formed `{secret.<name>}` stands at index `at`.
pub open spec fn secret_at(s: Seq<char>, at: int) -> bool {
    &&& 0 <= at
    &&& at + 1 < s.len()
    &&& s[at] == '{'
    &&& close_from(s, at + 1, 0) matches Some(c) && secret_reference(s.subrange(at + 1, c))
}

fn looks_like_secret_ref_after(s: &[char], at: usize) -> (r: bool)
    requires
        at <= s.len(),
    ensures
        r == secret_at(s@, at as int),
{
    if at >= s.len() || at + 1 >= s.len() || s[at] != '{' {
        return false;
    }
    match find_matching_close(s, at + 1) {
        Some(c) => is_secret_reference(slice_subrange(s, at + 1, c)),
        None => false,
    }
}

/// What a reference says for an unset variable.
pub enum Fallback {
    /// `${NAME}`.
    Required,
    /// `${NAME:-text}`.
    Default(Seq<char>),
    /// `${NAME:?text}`, the text trimmed.
    Message(Seq<char>),
}

/// Name and fallback of a reference: split at whichever of `:-` and `:?` comes
/// first.
pub open spec fn reference_parts(body: Seq<char>) -> (Seq<char>, Fallback) {
    let default_at = find(body, seq![':', '-']);
    let required_at = find(body, seq![':', '?']);
    if default_at is Some && (required_at is None || default_at->0 < required_at->0) {
        (trim(body.take(default_at->0)), Fallback::Default(body.skip(default_at->0 + 2)))
    } else if required_at is Some {
        (trim(body.take(required_at->0)), Fallback::Message(trim(body.skip(required_at->0 + 2))))
    } else {
        (trim(body), Fallback::Required)
    }
}

// ---------------------------------------------------------------------
// Errors
// ---------------------------------------------------------------------

/// What is wrong with a reference.
#[derive(Clone, Debug, PartialEq, Eq)]
pub enum Problem {
    /// `${` without its `}`.
    Unterminated,
    /// No name between the braces.
    EmptyName,
    /// The name starts with neither a letter nor an underscore.
    NameStart(String),
    /// The name holds a character that is no letter, digit or underscore.
    NameCharacter(String),
    /// The variable is unset and `${NAME:?message}` asks for it.
    MissingRequired(String, String),
    /// The variable is unset.
    Unset(String),
}

/// View of [`Problem`].
pub enum ProblemView {
    Unterminated,
    EmptyName,
    NameStart(Seq<char>),
    NameCharacter(Seq<char>),
    MissingRequired(Seq<char>, Seq<char>),
    Unset(Seq<char>),
}

impl View for Problem {
    type V = ProblemView;

    open spec fn view(&self) -> ProblemView {
        match self {
            Problem::Unterminated => ProblemView::Unterminated,
            Problem::EmptyName => ProblemView::EmptyName,
            Problem::NameStart(n) => ProblemView::NameStart(n@),
            Problem::NameCharacter(n) => ProblemView::NameCharacter(n@),
            Problem::MissingRequired(n, m) => ProblemView::MissingRequired(n@, m@),
            Problem::Unset(n) => ProblemView::Unset(n@),
        }
    }
}

/// A reference that could not be interpolated: the source it stands in, its
/// 1-based line and what is wrong with it.
#[derive(Clone, Debug, PartialEq, Eq)]
pub struct InterpolationError {
    pub source_label: String,
    pub line: usize,
    pub problem: Problem,
}

/// View of [`InterpolationError`].
pub struct InterpolationErrorView {
    pub source_label: Seq<char>,
    pub line: nat,
    pub problem: ProblemView,
}

impl View for InterpolationError {
    type V = InterpolationErrorView;

    open spec fn view(&self) -> InterpolationErrorView {
        InterpolationErrorView {
            source_label: self.source_label@,
            line: self.line as nat,
            problem: self.problem@,
        }
    }
}

/// The message of an error.
pub open spec fn error_message(e: InterpolationErrorView) -> Seq<char> {
    let head = "workflow YAML at "@ + e.source_label + " line "@ + decimal(e.line);
    head + match e.problem {
        ProblemView::Unterminated => " contains an unterminated `${` env-var reference"@,
        ProblemView::EmptyName => " has an empty `${}` env-var reference"@,
        ProblemView::NameStart(n) => " env var name `"@ + n
            + "` must start with a letter or underscore"@,
        ProblemView::NameCharacter(n) => " env var name `"@ + n
            + "` may only contain letters, digits, and underscores"@,
        ProblemView::MissingRequired(n, m) => " requires env var "@ + n + ": "@ + m,
        ProblemView::Unset(n) => " references unset env var "@ + n + "."@,
    }
}

impl InterpolationError {
    /// The error as one line of text.
    pub fn message(&self) -> (r: String)
        ensures
            r@ == error_message(self@),
    {
        let mut out = String::new();
        out.append("workflow YAML at ");
        out.append(self.source_label.as_str());
        out.append(" line ");
        push_decimal(&mut out, self.line as u128);
        proof {
            assert(out@ =~= "workflow YAML at "@ + self.source_label@ + " line "@ + decimal(
                self.line as nat,
            ));
        }
        let ghost head = out@;
        match &self.problem {
            Problem::Unterminated => {
                out.append(" contains an unterminated `${` env-var reference");
            },
            Problem::EmptyName => {
                out.append(" has an empty `${}` env-var reference");
            },
            Problem::NameStart(n) => {
                out.append(" env var name `");
                out.append(n.as_str());
                out.append("` must start with a letter or underscore");
            },
            Problem::NameCharacter(n) => {
                out.append(" env var name `");
                out.append(n.as_str());
                out.append("` may only contain letters, digits, and underscores");
            },
            Problem::MissingRequired(n, m) => {
                out.append(" requires env var ");
                out.append(n.as_str());
                out.append(": ");
                out.append(m.as_str());
            },
            Problem::Unset(n) => {
                out.append(" references unset env var ");
                out.append(n.as_str());
                out.append(".");
            },
        }
        proof {
            assert(out@ =~= error_message(self@));
        }
        out
    }
}

/// What is wrong with a variable name, if anything.
pub open spec fn name_problem(name: Seq<char>) -> Option<ProblemView> {
    if name.len() == 0 {
        Some(ProblemView::EmptyName)
    } else if !(name[0] == '_' || is_ascii_letter(name[0])) {
        Some(ProblemView::NameStart(name))
    } else if exists|i: int|
        0 <= i < name.len() && !(name[i] == '_' || is_ascii_letter(name[i]) || is_digit(
            #[trigger] name[i],
        )) {
        Some(ProblemView::NameCharacter(name))
    } else {
        None
    }
}

fn letter(c: char) -> (r: bool)
    ensures
        r == is_ascii_letter(c),
{
    ('a' <= c && c <= 'z') || ('A' <= c && c <= 'Z')
}

/// Checks that a name can name an environment variable.
fn validate_name(name: &[char]) -> (r: Result<(), Problem>)
    ensures
        match r {
            Ok(_) => name_problem(name@) is None,
            Err(p) => name_problem(name@) == Some(p@),
        },
{
    if name.len() == 0 {
        return Err(Problem::EmptyName);
    }
    if !(name[0] == '_' || letter(name[0])) {
        return Err(Problem::NameStart(string_of(name)));
    }
    let mut i: usize = 0;
    while i < name.len()
        invariant
            i <= name.len(),
            name.len() > 0,
            name@[0] == '_' || is_ascii_letter(name@[0]),
            forall|k: int|
                0 <= k < i ==> name@[k] == '_' || is_ascii_letter(name@[k]) || is_digit(
                    #[trigger] name@[k],
                ),
        decreases name.len() - i,
    {
        let c = name[i];
        if !(c == '_' || letter(c) || ('0' <= c && c <= '9')) {
            return Err(Problem::NameCharacter(string_of(name)));
        }
        i += 1;
    }
    Ok(())
}

// ---------------------------------------------------------------------
// Interpolation
// ---------------------------------------------------------------------

/// One piece of a text that is being interpolated.
pub enum Segment {
    /// Text that goes out as it is.
    Text(Seq<char>),
    /// A variable to be looked up, and what happens if it is unset.
    Lookup(Seq<char>, Fallback, nat),
    /// A malformed reference on the given line.
    Malformed(ProblemView, nat),
}

/// The segment that a reference with the given body makes.
pub open spec fn reference_segment(body: Seq<char>, line: nat) -> Segment {
    let (name, fallback) = reference_parts(body);
    match name_problem(name) {
        Some(p) => Segment::Malformed(p, line),
        None => Segment::Lookup(name, fallback, line),
    }
}

/// The segments of `s` from index `i` on.
///
/// - outside `$`, and inside comments, every character stands for itself;
/// - `$$` stands for `$`, and for itself in front of a secret reference;
/// - `${secret.<name>}` stands for itself, any other `${...}` is a reference;
/// - a lone `$` stands for itself.
pub open spec fn segments(s: Seq<char>, i: int) -> Seq<Segment>
    decreases s.len() - i,
    via segments_decreases
{
    if i < 0 || i >= s.len() {
        Seq::empty()
    } else if s[i] != '$' || in_comment(s, i) {
        seq![Segment::Text(seq![s[i]])] + segments(s, i + 1)
    } else if i + 1 < s.len() && s[i + 1] == '$' {
        let kept = if secret_at(s, i + 2) {
            seq!['$', '$']
        } else {
            seq!['$']
        };
        seq![Segment::Text(kept)] + segments(s, i + 2)
    } else if i + 1 < s.len() && s[i + 1] == '{' {
        match close_from(s, i + 2, 0) {
            None => seq![Segment::Malformed(ProblemView::Unterminated, line_number(s, i))],
            Some(c) => {
                let body = s.subrange(i + 2, c);
                let head = if secret_reference(body) {
                    Segment::Text(s.subrange(i, c + 1))
                } else {
                    reference_segment(body, line_number(s, i))
                };
                seq![head] + segments(s, c + 1)
            },
        }
    } else {
        seq![Segment::Text(seq!['$'])] + segments(s, i + 1)
    }
}

#[via_fn]
proof fn segments_decreases(s: Seq<char>, i: int) {
    if 0 <= i < s.len() {
        lemma_close_from(s, i + 2, 0);
    }
}

/// A result with text put in front of a success.
pub open spec fn prepend(
    t: Seq<char>,
    r: Result<Seq<char>, (ProblemView, nat)>,
) -> Result<Seq<char>, (ProblemView, nat)> {
    match r {
        Ok(rest) => Ok(t + rest),
        Err(e) => Err(e),
    }
}

/// What a lookup gives when the variable has the given value, if any.
pub open spec fn lookup_outcome(
    name: Seq<char>,
    fallback: Fallback,
    value: Option<Seq<char>>,
) -> Result<Seq<char>, ProblemView> {
    match (value, fallback) {
        (Some(v), _) => Ok(v),
        (None, Fallback::Default(d)) => Ok(d),
        (None, Fallback::Message(m)) => Err(
            ProblemView::MissingRequired(
                name,
                if m.len() == 0 {
                    "value is unset"@
                } else {
                    m
                },
            ),
        ),
        (None, Fallback::Required) => Err(ProblemView::Unset(name)),
    }
}

/// What the segments give when the variables looked up are answered, in order,
/// by `answers`: the first malformed reference or unmet requirement is the
/// error, otherwise the pieces are joined.
pub open spec fn render(
    segs: Seq<Segment>,
    answers: Seq<Option<Seq<char>>>,
) -> Result<Seq<char>, (ProblemView, nat)>
    decreases segs.len(),
{
    if segs.len() == 0 {
        Ok(Seq::empty())
    } else {
        let rest = segs.drop_first();
        match segs[0] {
            Segment::Text(t) => prepend(t, render(rest, answers)),
            Segment::Malformed(p, line) => Err((p, line)),
            Segment::Lookup(name, fallback, line) => match lookup_outcome(
                name,
                fallback,
                answers[0],
            ) {
                Ok(value) => prepend(value, render(rest, answers.drop_first())),
                Err(p) => Err((p, line)),
            },
        }
    }
}

/// The names looked up, in order.
pub open spec fn lookups(segs: Seq<Segment>) -> Seq<Seq<char>>
    decreases segs.len(),
{
    if segs.len() == 0 {
        Seq::empty()
    } else {
        let rest = lookups(segs.drop_first());
        match segs[0] {
            Segment::Lookup(name, _, _) => seq![name] + rest,
            _ => rest,
        }
    }
}

/// Whether the resolver may answer `answer` for `name`.
pub open spec fn may_answer<F: Fn(&str) -> Option<String>>(
    resolver: F,
    name: Seq<char>,
    answer: Option<Seq<char>>,
) -> bool {
    exists|key: &str, value: Option<String>|
        key@ == name && #[trigger] resolver.ensures((key,), value) && opt_text(value) == answer
}

/// Whether the resolver may answer the first of `names` by `answers`, in order.
pub open spec fn may_answer_all<F: Fn(&str) -> Option<String>>(
    resolver: F,
    names: Seq<Seq<char>>,
    answers: Seq<Option<Seq<char>>>,
) -> bool {
    &&& answers.len() <= names.len()
    &&& forall|k: int|
        0 <= k < answers.len() ==> may_answer(resolver, names[k], #[trigger] answers[k])
}

/// Whether there is an answer for every lookup that rendering reaches.
pub open spec fn answered(segs: Seq<Segment>, answers: Seq<Option<Seq<char>>>) -> bool
    decreases segs.len(),
{
    if segs.len() == 0 {
        true
    } else {
        let rest = segs.drop_first();
        match segs[0] {
            Segment::Text(_) => answered(rest, answers),
            Segment::Malformed(_, _) => true,
            Segment::Lookup(name, fallback, _) => answers.len() > 0 && (lookup_outcome(
                name,
                fallback,
                answers[0],
            ) is Ok ==> answered(rest, answers.drop_first())),
        }
    }
}

/// Whether `r` is what interpolating `content` gives when the resolver answers
/// the lookups by `answers`.
pub open spec fn interpolates<F: Fn(&str) -> Option<String>>(
    resolver: F,
    content: Seq<char>,
    source_label: Seq<char>,
    r: Result<String, InterpolationError>,
    answers: Seq<Option<Seq<char>>>,
) -> bool {
    let segs = segments(content, 0);
    &&& may_answer_all(resolver, lookups(segs), answers)
    &&& answered(segs, answers)
    &&& match r {
        Ok(text) => render(segs, answers) == Ok::<Seq<char>, (ProblemView, nat)>(text@),
        Err(e) => e.source_label@ == source_label && render(segs, answers) == Err::<
            Seq<char>,
            (ProblemView, nat),
        >((e.problem@, e.line as nat)),
    }
}

/// Name and fallback of a reference whose name is well formed are looked up;
/// what comes out goes by the resolver's answer.
fn resolve_reference<F: Fn(&str) -> Option<String>>(body: &[char], resolver: &F) -> (r: Result<
    String,
    Problem,
>)
    requires
        forall|key: &str| #[trigger] resolver.requires((key,)),
    ensures
        match name_problem(reference_parts(body@).0) {
            Some(p) => r matches Err(e) && e@ == p,
            None => exists|a: Option<Seq<char>>|
                #[trigger] may_answer(*resolver, reference_parts(body@).0, a) && match r {
                    Ok(v) => lookup_outcome(
                        reference_parts(body@).0,
                        reference_parts(body@).1,
                        a,
                    ) == Ok::<Seq<char>, ProblemView>(v@),
                    Err(e) => lookup_outcome(
                        reference_parts(body@).0,
                        reference_parts(body@).1,
                        a,
                    ) == Err::<Seq<char>, ProblemView>(e@),
                },
        },
{
    let default_mark: Vec<char> = vec![':', '-'];
    let required_mark: Vec<char> = vec![':', '?'];
    let default_at = find_text(body, default_mark.as_slice());
    let required_at = find_text(body, required_mark.as_slice());
    proof {
        assert(default_mark@ =~= seq![':', '-']);
        assert(required_mark@ =~= seq![':', '?']);
    }
    let has_default = match (default_at, required_at) {
        (Some(d), Some(q)) => d < q,
        (Some(_), None) => true,
        _ => false,
    };
    let split: Option<usize> = if has_default {
        default_at
    } else {
        required_at
    };
    let name = match split {
        Some(at) => trimmed(slice_subrange(body, 0, at)),
        None => trimmed(body),
    };
    proof {
        if split is Some {
            let at = split->0 as int;
            assert(body@.take(at) =~= body@.subrange(0, at));
            assert(body@.skip(at + 2) =~= body@.subrange(at + 2, body@.len() as int));
        }
        assert(name@ == reference_parts(body@).0);
    }
    match validate_name(name) {
        Err(problem) => {
            return Err(problem);
        },
        Ok(_) => {},
    }
    let key = string_of(name);
    let answer = resolver(key.as_str());
    let ghost a = opt_text(answer);
    proof {
        assert(may_answer(*resolver, name@, a));
    }
    match answer {
        Some(value) => Ok(value),
        None => match split {
            Some(at) => {
                let rest = slice_subrange(body, at + 2, body.len());
                if has_default {
                    Ok(string_of(rest))
                } else {
                    let message = trimmed(rest);
                    if message.len() == 0 {
                        Err(Problem::MissingRequired(key, "value is unset".to_owned()))
                    } else {
                        Err(Problem::MissingRequired(key, string_of(message)))
                    }
                }
            },
            None => Err(Problem::Unset(key)),
        },
    }
}

/// Interpolates shell-style `${VAR}` references in `content`.
///
/// `source_label` goes into errors, so that the offending file can be found.
/// The resolver is asked for each variable in the order of its references.
pub fn interpolate_env_with<F>(content: &str, source_label: &str, resolver: F) -> (r: Result<
    String,
    InterpolationError,
>) where F: Fn(&str) -> Option<String>
    requires
        forall|key: &str| #[trigger] resolver.requires((key,)),
    ensures
        exists|answers: Seq<Option<Seq<char>>>| #[trigger]
            interpolates(resolver, content@, source_label@, r, answers),
{
    let chars = chars_of(content);
    let s = chars.as_slice();
    let mut comments = CommentSpans::new(s);
    let mut out = String::new();
    let mut i: usize = 0;
    let ghost segs = segments(s@, 0);
    let ghost mut answers: Seq<Option<Seq<char>>> = Seq::empty();
    let ghost mut names: Seq<Seq<char>> = Seq::empty();
    proof {
        assert(lookups(segs) =~= names + lookups(segments(s@, 0)));
        assert forall|rest: Seq<Option<Seq<char>>>|
            #![trigger answers + rest]
            answered(segs, answers + rest) == answered(segs, rest) && render(segs, answers + rest)
                == prepend(out@, render(segs, rest)) by {
            assert(answers + rest =~= rest);
            if render(segs, rest) is Ok {
                assert(out@ + render(segs, rest)->Ok_0 =~= render(segs, rest)->Ok_0);
            }
        }
    }
    while i < s.len()
        invariant
            i <= s.len(),
            s@ == content@,
            segs == segments(s@, 0),
            comments.wf(s@, i as int),
            forall|key: &str| #[trigger] resolver.requires((key,)),
            lookups(segs) == names + lookups(segments(s@, i as int)),
            names.len() == answers.len(),
            may_answer_all(resolver, names, answers),
            rendered_up_to(segs, segments(s@, i as int), answers, out@),
        decreases s.len() - i,
    {
        let ghost here = segments(s@, i as int);
        let ghost before = out@;
        let hidden = comments.contains(i, Ghost(s@), Ghost(i as int));
        let mut next: usize = i + 1;
        if s[i] != '$' || hidden {
            out.push(s[i]);
            proof {
                lemma_text_step(segs, here, answers, before, seq![s@[i as int]]);
                assert(out@ =~= before + seq![s@[i as int]]);
            }
        } else if i + 1 < s.len() && s[i + 1] == '$' {
            let escaped = looks_like_secret_ref_after(s, i + 2);
            out.push('$');
            if escaped {
                out.push('$');
            }
            next = i + 2;
            proof {
                let kept = if escaped {
                    seq!['$', '$']
                } else {
                    seq!['$']
                };
                lemma_text_step(segs, here, answers, before, kept);
                assert(out@ =~= before + kept);
            }
        } else if i + 1 < s.len() && s[i + 1] == '{' {
            match find_matching_close(s, i + 2) {
                None => {
                    let line = line_number_at(s, i);
                    proof {
                        lemma_failed_step(segs, here, answers, before);
                        lemma_names_kept(resolver, names, lookups(here), answers);
                    }
                    let r = Err(
                        InterpolationError {
                            source_label: source_label.to_owned(),
                            line,
                            problem: Problem::Unterminated,
                        },
                    );
                    assert(interpolates(resolver, content@, source_label@, r, answers));
                    return r;
                },
                Some(close) => {
                    let body = slice_subrange(s, i + 2, close);
                    next = close + 1;
                    if is_secret_reference(body) {
                        push_chars(&mut out, slice_subrange(s, i, close + 1));
                        proof {
                            lemma_text_step(
                                segs,
                                here,
                                answers,
                                before,
                                s@.subrange(i as int, close + 1),
                            );
                        }
                    } else {
                        match resolve_reference(body, &resolver) {
                            Ok(value) => {
                                out.append(value.as_str());
                                proof {
                                    let (name, fallback) = reference_parts(body@);
                                    let a = choose|a: Option<Seq<char>>| #[trigger]
                                        may_answer(resolver, name, a) && lookup_outcome(
                                            name,
                                            fallback,
                                            a,
                                        ) == Ok::<Seq<char>, ProblemView>(value@);
                                    lemma_lookup_step(segs, here, answers, before, a, value@);
                                    names = names.push(name);
                                    answers = answers.push(a);
                                    assert(lookups(here) =~= seq![name] + lookups(
                                        segments(s@, next as int),
                                    )) by {
                                        assert(here.drop_first() =~= segments(s@, next as int));
                                    }
                                    assert(lookups(segs) =~= names + lookups(
                                        segments(s@, next as int),
                                    ));
                                }
                            },
                            Err(problem) => {
                                let line = line_number_at(s, i);
                                let ghost seen = problem@;
                                let r = Err(
                                    InterpolationError {
                                        source_label: source_label.to_owned(),
                                        line,
                                        problem,
                                    },
                                );
                                proof {
                                    let (name, fallback) = reference_parts(body@);
                                    if name_problem(name) is Some {
                                        lemma_failed_step(segs, here, answers, before);
                                        lemma_names_kept(resolver, names, lookups(here), answers);
                                        assert(interpolates(
                                            resolver,
                                            content@,
                                            source_label@,
                                            r,
                                            answers,
                                        ));
                                    } else {
                                        let a = choose|a: Option<Seq<char>>| #[trigger]
                                            may_answer(resolver, name, a) && lookup_outcome(
                                                name,
                                                fallback,
                                                a,
                                            ) == Err::<Seq<char>, ProblemView>(seen);
                                        lemma_refused_step(segs, here, answers, before, a, seen);
                                        assert(lookups(here) =~= seq![name] + lookups(
                                            here.drop_first(),
                                        ));
                                        assert(lookups(segs) =~= names.push(name) + lookups(
                                            here.drop_first(),
                                        ));
                                        lemma_names_kept(
                                            resolver,
                                            names.push(name),
                                            lookups(here.drop_first()),
                                            answers.push(a),
                                        );
                                        assert(interpolates(
                                            resolver,
                                            content@,
                                            source_label@,
                                            r,
                                            answers.push(a),
                                        ));
                                    }
                                }
                                return r;
                            },
                        }
                    }
                },
            }
        } else {
            out.push('$');
            proof {
                lemma_text_step(segs, here, answers, before, seq!['$']);
                assert(out@ =~= before + seq!['$']);
            }
        }
        proof {
            assert(here.drop_first() =~= segments(s@, next as int));
            comments.lemma_wf_later(s@, i as int, next as int);
        }
        i = next;
    }
    let r = Ok(out);
    proof {
        assert(answers + Seq::<Option<Seq<char>>>::empty() =~= answers);
        assert(render(segs, answers + Seq::<Option<Seq<char>>>::empty()) == Ok::<
            Seq<char>,
            (ProblemView, nat),
        >(out@ + Seq::<char>::empty()));
        assert(out@ + Seq::<char>::empty() =~= out@);
        lemma_names_kept(resolver, names, lookups(segments(s@, i as int)), answers);
        assert(interpolates(resolver, content@, source_label@, r, answers));
    }
    r
}

/// Rendering so far: `out` has been written and `here` is left.
spec fn rendered_up_to(
    segs: Seq<Segment>,
    here: Seq<Segment>,
    answers: Seq<Option<Seq<char>>>,
    out: Seq<char>,
) -> bool {
    forall|rest: Seq<Option<Seq<char>>>|
        #![trigger answers + rest]
        answered(segs, answers + rest) == answered(here, rest) && render(segs, answers + rest)
            == prepend(out, render(here, rest))
}

proof fn lemma_text_step(
    segs: Seq<Segment>,
    here: Seq<Segment>,
    answers: Seq<Option<Seq<char>>>,
    out: Seq<char>,
    t: Seq<char>,
)
    requires
        rendered_up_to(segs, here, answers, out),
        here.len() > 0,
        here[0] == Segment::Text(t),
    ensures
        rendered_up_to(segs, here.drop_first(), answers, out + t),
        lookups(here) == lookups(here.drop_first()),
{
    assert forall|rest: Seq<Option<Seq<char>>>|
        #![trigger answers + rest]
        answered(segs, answers + rest) == answered(here.drop_first(), rest) && render(
            segs,
            answers + rest,
        ) == prepend(out + t, render(here.drop_first(), rest)) by {
        if let Ok(tail) = render(here.drop_first(), rest) {
            assert(out + (t + tail) =~= (out + t) + tail);
        }
    }
}

proof fn lemma_lookup_step(
    segs: Seq<Segment>,
    here: Seq<Segment>,
    answers: Seq<Option<Seq<char>>>,
    out: Seq<char>,
    a: Option<Seq<char>>,
    value: Seq<char>,
)
    requires
        rendered_up_to(segs, here, answers, out),
        here.len() > 0,
        here[0] matches Segment::Lookup(name, fallback, _) && lookup_outcome(name, fallback, a)
            == Ok::<Seq<char>, ProblemView>(value),
    ensures
        rendered_up_to(segs, here.drop_first(), answers.push(a), out + value),
{
    assert forall|rest: Seq<Option<Seq<char>>>|
        #![trigger answers.push(a) + rest]
        answered(segs, answers.push(a) + rest) == answered(here.drop_first(), rest) && render(
            segs,
            answers.push(a) + rest,
        ) == prepend(out + value, render(here.drop_first(), rest)) by {
        let longer = seq![a] + rest;
        assert(answers.push(a) + rest =~= answers + longer);
        assert(longer.drop_first() =~= rest);
        assert(render(segs, answers + longer) == prepend(out, render(here, longer)));
        if let Ok(tail) = render(here.drop_first(), rest) {
            assert(out + (value + tail) =~= (out + value) + tail);
        }
    }
}

proof fn lemma_failed_step(
    segs: Seq<Segment>,
    here: Seq<Segment>,
    answers: Seq<Option<Seq<char>>>,
    out: Seq<char>,
)
    requires
        rendered_up_to(segs, here, answers, out),
        here.len() > 0,
        here[0] is Malformed,
    ensures
        answered(segs, answers),
        render(segs, answers) == Err::<Seq<char>, (ProblemView, nat)>(
            (here[0]->Malformed_0, here[0]->Malformed_1),
        ),
{
    let none = Seq::<Option<Seq<char>>>::empty();
    assert(answers + none =~= answers);
    assert(render(segs, answers + none) == prepend(out, render(here, none)));
}

proof fn lemma_refused_step(
    segs: Seq<Segment>,
    here: Seq<Segment>,
    answers: Seq<Option<Seq<char>>>,
    out: Seq<char>,
    a: Option<Seq<char>>,
    problem: ProblemView,
)
    requires
        rendered_up_to(segs, here, answers, out),
        here.len() > 0,
        here[0] matches Segment::Lookup(name, fallback, _) && lookup_outcome(name, fallback, a)
            == Err::<Seq<char>, ProblemView>(problem),
    ensures
        answered(segs, answers.push(a)),
        render(segs, answers.push(a)) == Err::<Seq<char>, (ProblemView, nat)>(
            (problem, here[0]->Lookup_2),
        ),
{
    let one = seq![a];
    assert(answers + one =~= answers.push(a));
    assert(render(segs, answers + one) == prepend(out, render(here, one)));
}

proof fn lemma_names_kept<F: Fn(&str) -> Option<String>>(
    resolver: F,
    names: Seq<Seq<char>>,
    more: Seq<Seq<char>>,
    answers: Seq<Option<Seq<char>>>,
)
    requires
        may_answer_all(resolver, names, answers),
    ensures
        may_answer_all(resolver, names + more, answers),
{
    assert forall|k: int| 0 <= k < answers.len() implies may_answer(
        resolver,
        (names + more)[k],
        #[trigger] answers[k],
    ) by {
        assert((names + more)[k] == names[k]);
    }
}

// ---------------------------------------------------------------------
// Laws of interpolation
// ---------------------------------------------------------------------

/// The answers that a fixed environment gives to a list of names.
pub open spec fn answers_in(
    env: spec_fn(Seq<char>) -> Option<Seq<char>>,
    names: Seq<Seq<char>>,
) -> Seq<Option<Seq<char>>> {
    names.map_values(|n: Seq<char>| env(n))
}

/// What interpolating `content` gives in a fixed environment.
pub open spec fn interpolated(
    content: Seq<char>,
    env: spec_fn(Seq<char>) -> Option<Seq<char>>,
) -> Result<Seq<char>, (ProblemView, nat)> {
    let segs = segments(content, 0);
    render(segs, answers_in(env, lookups(segs)))
}

/// A resolver that always answers out of one environment.
pub open spec fn answers_out_of<F: Fn(&str) -> Option<String>>(
    resolver: F,
    env: spec_fn(Seq<char>) -> Option<Seq<char>>,
) -> bool {
    forall|key: &str, value: Option<String>| #[trigger]
        resolver.ensures((key,), value) ==> opt_text(value) == env(key@)
}

/// Rendering reads only as many answers as it needs: any two lists that agree
/// where both are defined give the same, as long as the shorter one sufficed.
proof fn lemma_render_agrees(
    segs: Seq<Segment>,
    short: Seq<Option<Seq<char>>>,
    long: Seq<Option<Seq<char>>>,
)
    requires
        answered(segs, short),
        short.len() <= long.len(),
        forall|k: int| 0 <= k < short.len() ==> short[k] == long[k],
    ensures
        render(segs, short) == render(segs, long),
    decreases segs.len(),
{
    if segs.len() > 0 {
        let rest = segs.drop_first();
        match segs[0] {
            Segment::Text(t) => lemma_render_agrees(rest, short, long),
            Segment::Malformed(_, _) => {},
            Segment::Lookup(name, fallback, _) => {
                if lookup_outcome(name, fallback, short[0]) is Ok {
                    lemma_render_agrees(rest, short.drop_first(), long.drop_first());
                }
            },
        }
    }
}

/// A resolver that answers out of one environment gives exactly what that
/// environment gives.
pub proof fn interpolation_follows_environment<F: Fn(&str) -> Option<String>>(
    resolver: F,
    env: spec_fn(Seq<char>) -> Option<Seq<char>>,
    content: Seq<char>,
    source_label: Seq<char>,
    r: Result<String, InterpolationError>,
    answers: Seq<Option<Seq<char>>>,
)
    requires
        answers_out_of(resolver, env),
        interpolates(resolver, content, source_label, r, answers),
    ensures
        match r {
            Ok(text) => interpolated(content, env) == Ok::<Seq<char>, (ProblemView, nat)>(text@),
            Err(e) => e.source_label@ == source_label && interpolated(content, env) == Err::<
                Seq<char>,
                (ProblemView, nat),
            >((e.problem@, e.line as nat)),
        },
{
    let segs = segments(content, 0);
    let long = answers_in(env, lookups(segs));
    assert forall|k: int| 0 <= k < answers.len() implies answers[k] == long[k] by {
        assert(may_answer(resolver, lookups(segs)[k], answers[k]));
    }
    lemma_render_agrees(segs, answers, long);
}

proof fn lemma_plain_segments(s: Seq<char>, i: int, answers: Seq<Option<Seq<char>>>)
    requires
        0 <= i <= s.len(),
        forall|k: int| i <= k < s.len() ==> s[k] != '$' || in_comment(s, k),
    ensures
        render(segments(s, i), answers) == Ok::<Seq<char>, (ProblemView, nat)>(s.skip(i)),
        lookups(segments(s, i)).len() == 0,
    decreases s.len() - i,
{
    if i < s.len() {
        lemma_plain_segments(s, i + 1, answers);
        assert(segments(s, i).drop_first() =~= segments(s, i + 1));
        assert(seq![s[i]] + s.skip(i + 1) =~= s.skip(i));
    } else {
        assert(s.skip(i) =~= Seq::<char>::empty());
    }
}

/// Text in which every `$` stands in a comment is left untouched, and no
/// variable is looked up for it.
pub proof fn interpolation_keeps_plain_text(
    content: Seq<char>,
    env: spec_fn(Seq<char>) -> Option<Seq<char>>,
)
    requires
        forall|k: int| 0 <= k < content.len() ==> content[k] != '$' || in_comment(content, k),
    ensures
        interpolated(content, env) == Ok::<Seq<char>, (ProblemView, nat)>(content),
        lookups(segments(content, 0)).len() == 0,
{
    lemma_plain_segments(content, 0, answers_in(env, lookups(segments(content, 0))));
    assert(content.skip(0) =~= content);
}

/// What stands at index `i` is kept when it is a secret reference, escaped or
/// not: it goes out as it is and nothing is looked up for it.
pub proof fn interpolation_keeps_secret_references(s: Seq<char>, i: int)
    requires
        0 <= i,
        i + 1 < s.len(),
        s[i] == '$',
        !in_comment(s, i),
        secret_at(s, i + 1) || (s[i + 1] == '$' && secret_at(s, i + 2)),
    ensures
        s[i + 1] == '{' ==> segments(s, i) == seq![
            Segment::Text(s.subrange(i, close_from(s, i + 2, 0)->0 + 1)),
        ] + segments(s, close_from(s, i + 2, 0)->0 + 1),
        s[i + 1] == '$' ==> segments(s, i) == seq![Segment::Text(s.subrange(i, i + 2))] + segments(
            s,
            i + 2,
        ),
{
    if s[i + 1] == '$' {
        assert(s.subrange(i, i + 2) =~= seq!['$', '$']);
    }
}

// ---------------------------------------------------------------------
// Laws of references
// ---------------------------------------------------------------------

/// What interpolating the part of `s` from index `i` on gives in a fixed
/// environment; from index 0 on, that is the whole text.
pub open spec fn interpolated_from(
    s: Seq<char>,
    i: int,
    env: spec_fn(Seq<char>) -> Option<Seq<char>>,
) -> Result<Seq<char>, (ProblemView, nat)> {
    render(segments(s, i), answers_in(env, lookups(segments(s, i))))
}

/// Opening braces less closing ones from one index up to another.
pub open spec fn nesting(s: Seq<char>, from: int, to: int) -> int
    decreases to - from,
{
    if to <= from {
        0
    } else {
        nesting(s, from, to - 1) + if s[to - 1] == '{' {
            1int
        } else if s[to - 1] == '}' {
            -1
        } else {
            0
        }
    }
}

/// Whether the `}` at index `c` closes what was opened just before `from`: the
/// braces between them match.
pub open spec fn closes_at(s: Seq<char>, from: int, c: int) -> bool {
    &&& from <= c < s.len()
    &&& s[c] == '}'
    &&& nesting(s, from, c) == 0
    &&& forall|k: int| from <= k <= c ==> #[trigger] nesting(s, from, k) >= 0
}

/// Whether a text names a variable: it starts with an ASCII letter or an
/// underscore and holds only ASCII letters, digits and underscores.
pub open spec fn is_variable_name(name: Seq<char>) -> bool {
    &&& name.len() > 0
    &&& name[0] == '_' || 'a' <= name[0] <= 'z' || 'A' <= name[0] <= 'Z'
    &&& forall|k: int|
        0 <= k < name.len() ==> #[trigger] name[k] == '_' || 'a' <= name[k] <= 'z' || 'A' <= name[k]
            <= 'Z' || '0' <= name[k] <= '9'
}

/// Whether a text is spaces and tabs.
pub open spec fn all_blank(s: Seq<char>) -> bool {
    forall|k: int| 0 <= k < s.len() ==> #[trigger] s[k] == ' ' || s[k] == '\t'
}

/// Whether a text is nothing, a default or a demand: `:-...` or `:?...`.
pub open spec fn is_fallback_text(tail: Seq<char>) -> bool {
    tail.len() == 0 || (tail.len() >= 2 && tail[0] == ':' && (tail[1] == '-' || tail[1] == '?'))
}

proof fn lemma_close_inside(s: Seq<char>, from: int, i: int, c: int)
    requires
        0 <= from <= i <= c,
        closes_at(s, from, c),
    ensures
        close_from(s, i, nesting(s, from, i) as nat) == Some(c),
    decreases c - i,
{
    assert(nesting(s, from, i) >= 0);
    if i < c {
        assert(nesting(s, from, i + 1) >= 0);
        lemma_close_inside(s, from, i + 1, c);
    }
}

/// A reference ends at the `}` that matches its `${`.
pub proof fn references_end_at_their_brace(s: Seq<char>, from: int, c: int)
    requires
        0 <= from,
        closes_at(s, from, c),
    ensures
        close_from(s, from, 0) == Some(c),
{
    lemma_close_inside(s, from, from, c);
}

proof fn lemma_never_closed(s: Seq<char>, from: int, i: int)
    requires
        0 <= from <= i <= s.len(),
        forall|k: int| from <= k <= s.len() ==> #[trigger] nesting(s, from, k) >= 0,
    ensures
        close_from(s, i, nesting(s, from, i) as nat) is None,
    decreases s.len() - i,
{
    assert(nesting(s, from, i) >= 0);
    if i < s.len() {
        assert(nesting(s, from, i + 1) >= 0);
        lemma_never_closed(s, from, i + 1);
    }
}

/// What the segments give in an environment, by their first.
proof fn lemma_render_first(
    head: Segment,
    rest: Seq<Segment>,
    env: spec_fn(Seq<char>) -> Option<Seq<char>>,
)
    ensures
        render(seq![head] + rest, answers_in(env, lookups(seq![head] + rest))) == match head {
            Segment::Text(t) => prepend(t, render(rest, answers_in(env, lookups(rest)))),
            Segment::Malformed(p, line) => Err((p, line)),
            Segment::Lookup(name, fallback, line) => match lookup_outcome(
                name,
                fallback,
                env(name),
            ) {
                Ok(value) => prepend(value, render(rest, answers_in(env, lookups(rest)))),
                Err(p) => Err((p, line)),
            },
        },
{
    let all = seq![head] + rest;
    assert(all.drop_first() =~= rest);
    if let Segment::Lookup(name, _, _) = head {
        assert(lookups(all) =~= seq![name] + lookups(rest));
        assert(answers_in(env, lookups(all)).drop_first() =~= answers_in(env, lookups(rest)));
        assert(answers_in(env, lookups(all))[0] == env(name));
    } else {
        assert(lookups(all) == lookups(rest));
    }
}

proof fn lemma_mark_is_first(head: Seq<char>, tail: Seq<char>, mark: char)
    requires
        forall|k: int| 0 <= k < head.len() ==> #[trigger] head[k] != ':',
        is_fallback_text(tail),
    ensures
        find(head + tail, seq![':', mark]) matches Some(at) ==> at >= head.len(),
        tail.len() > 0 && tail[1] == mark ==> find(head + tail, seq![':', mark]) == Some(
            head.len() as int,
        ),
        tail.len() > 0 && tail[1] != mark ==> (find(head + tail, seq![':', mark]) matches Some(at)
            ==> at > head.len()),
        tail.len() == 0 ==> find(head + tail, seq![':', mark]) is None,
{
    let whole = head + tail;
    let p = seq![':', mark];
    crate::text::lemma_find_from(whole, p, 0);
    if let Some(at) = find(whole, p) {
        assert(whole.subrange(at, at + 2)[0] == p[0]);
        assert(whole.subrange(at, at + 2)[1] == p[1]);
        assert(whole[at] == ':' && whole[at + 1] == mark);
        if at < head.len() {
            assert(whole[at] == head[at]);
        }
    }
    if tail.len() > 0 && tail[1] == mark {
        let n = head.len() as int;
        assert(whole[n] == tail[0] && whole[n + 1] == tail[1]);
        assert(whole.subrange(n, n + 2) =~= p);
        assert(crate::text::occurs_at(whole, p, n));
    }
}

/// A body that starts with a variable's name is no secret reference.
proof fn lemma_no_secret(pre: Seq<char>, name: Seq<char>, rest: Seq<char>)
    requires
        all_blank(pre),
        is_variable_name(name),
        rest.len() == 0 || rest[0] == ' ' || rest[0] == '\t' || rest[0] == ':',
    ensures
        !secret_reference(pre + name + rest),
{
    let body = pre + name + rest;
    lemma_skip_blanks(pre, name + rest);
    assert(pre + (name + rest) =~= body);
    let start = name + rest;
    reveal_strlit("secret.");
    let word = "secret."@;
    if starts_with(start, word) {
        assert(start.take(7) == word);
        let n = name.len() as int;
        if n < 7 {
            assert(start.take(7)[n] == rest[0]);
        } else {
            assert(start.take(7)[6] == name[6]);
        }
    }
}

proof fn lemma_skip_blanks(pre: Seq<char>, rest: Seq<char>)
    requires
        all_blank(pre),
        rest.len() > 0,
        !crate::text::is_white_space(rest[0]),
    ensures
        trim_start(pre + rest) == rest,
    decreases pre.len(),
{
    if pre.len() > 0 {
        assert(pre[0] == ' ' || pre[0] == '\t');
        assert((pre + rest)[0] == pre[0]);
        assert((pre + rest).drop_first() =~= pre.drop_first() + rest);
        assert forall|k: int| 0 <= k < pre.drop_first().len() implies #[trigger] pre.drop_first()[k]
            == ' ' || pre.drop_first()[k] == '\t' by {
            assert(pre[k + 1] == ' ' || pre[k + 1] == '\t');
        }
        lemma_skip_blanks(pre.drop_first(), rest);
    } else {
        assert(pre + rest =~= rest);
    }
}

/// Name and fallback of a body with blanks around its name.
proof fn lemma_parts(pre: Seq<char>, name: Seq<char>, post: Seq<char>, tail: Seq<char>)
    requires
        all_blank(pre),
        all_blank(post),
        is_variable_name(name),
        is_fallback_text(tail),
    ensures
        !secret_reference(pre + name + post + tail),
        name_problem(name) is None,
        reference_parts(pre + name + post + tail) == (
            name,
            if tail.len() == 0 {
                Fallback::Required
            } else if tail[1] == '-' {
                Fallback::Default(tail.skip(2))
            } else {
                Fallback::Message(trim(tail.skip(2)))
            },
        ),
{
    let head = pre + name + post;
    let body = head + tail;
    assert(body =~= pre + name + (post + tail));
    if (post + tail).len() > 0 {
        if post.len() > 0 {
            assert((post + tail)[0] == post[0]);
        } else {
            assert((post + tail)[0] == tail[0]);
        }
    }
    lemma_no_secret(pre, name, post + tail);
    assert forall|k: int| 0 <= k < head.len() implies #[trigger] head[k] != ':' by {
        if k < pre.len() {
            assert(head[k] == pre[k]);
        } else if k < pre.len() + name.len() {
            assert(head[k] == name[k - pre.len()]);
        } else {
            assert(head[k] == post[k - pre.len() - name.len()]);
        }
    }
    lemma_mark_is_first(head, tail, '-');
    lemma_mark_is_first(head, tail, '?');
    assert(body.take(head.len() as int) =~= head);
    if tail.len() == 0 {
        assert(body =~= head);
    } else {
        assert(body.skip(head.len() as int + 2) =~= tail.skip(2));
    }
    assert(name[0] == name[0] && name.last() == name[name.len() - 1]);
    crate::text::printable_ascii_is_no_white_space(name[0]);
    crate::text::printable_ascii_is_no_white_space(name[name.len() - 1]);
    crate::text::trimming_leaves_the_core(pre, name, post);
}

proof fn lemma_reference(
    s: Seq<char>,
    i: int,
    c: int,
    pre: Seq<char>,
    name: Seq<char>,
    post: Seq<char>,
    tail: Seq<char>,
    env: spec_fn(Seq<char>) -> Option<Seq<char>>,
)
    requires
        0 <= i,
        i + 1 < s.len(),
        s[i] == '$',
        s[i + 1] == '{',
        !in_comment(s, i),
        closes_at(s, i + 2, c),
        s.subrange(i + 2, c) == pre + name + post + tail,
        all_blank(pre),
        all_blank(post),
        is_variable_name(name),
        is_fallback_text(tail),
    ensures
        interpolated_from(s, i, env) == match lookup_outcome(
            name,
            reference_parts(pre + name + post + tail).1,
            env(name),
        ) {
            Ok(v) => prepend(v, interpolated_from(s, c + 1, env)),
            Err(p) => Err((p, line_number(s, i))),
        },
{
    references_end_at_their_brace(s, i + 2, c);
    lemma_parts(pre, name, post, tail);
    let body = pre + name + post + tail;
    let head = reference_segment(body, line_number(s, i));
    assert(segments(s, i) == seq![head] + segments(s, c + 1));
    lemma_render_first(head, segments(s, c + 1), env);
}

/// A set variable is replaced by its value. Wherever `${name}`, `${name:-...}` or
/// `${name:?...}` stands outside a comment, with blanks around the name or not,
/// and the environment sets the name, the value takes its place and the text
/// behind it is interpolated as before.
pub proof fn set_variables_are_replaced(
    s: Seq<char>,
    i: int,
    c: int,
    pre: Seq<char>,
    name: Seq<char>,
    post: Seq<char>,
    tail: Seq<char>,
    env: spec_fn(Seq<char>) -> Option<Seq<char>>,
    value: Seq<char>,
)
    requires
        0 <= i,
        i + 1 < s.len(),
        s[i] == '$',
        s[i + 1] == '{',
        !in_comment(s, i),
        closes_at(s, i + 2, c),
        s.subrange(i + 2, c) == pre + name + post + tail,
        all_blank(pre),
        all_blank(post),
        is_variable_name(name),
        is_fallback_text(tail),
        env(name) == Some(value),
    ensures
        interpolated_from(s, i, env) == match interpolated_from(s, c + 1, env) {
            Ok(rest) => Ok(value + rest),
            Err(e) => Err(e),
        },
{
    lemma_reference(s, i, c, pre, name, post, tail, env);
}

/// An unset variable takes its default, word for word; without a default it is
/// an error that names it, or that carries the given message, on the reference's
/// line.
pub proof fn unset_variables_fall_back(
    s: Seq<char>,
    i: int,
    c: int,
    pre: Seq<char>,
    name: Seq<char>,
    post: Seq<char>,
    tail: Seq<char>,
    env: spec_fn(Seq<char>) -> Option<Seq<char>>,
)
    requires
        0 <= i,
        i + 1 < s.len(),
        s[i] == '$',
        s[i + 1] == '{',
        !in_comment(s, i),
        closes_at(s, i + 2, c),
        s.subrange(i + 2, c) == pre + name + post + tail,
        all_blank(pre),
        all_blank(post),
        is_variable_name(name),
        is_fallback_text(tail),
        env(name) is None,
    ensures
        tail.len() == 0 ==> interpolated_from(s, i, env) == Err::<Seq<char>, (ProblemView, nat)>(
            (ProblemView::Unset(name), line_number(s, i)),
        ),
        tail.len() > 0 && tail[1] == '-' ==> interpolated_from(s, i, env) == match interpolated_from(
            s,
            c + 1,
            env,
        ) {
            Ok(rest) => Ok(tail.skip(2) + rest),
            Err(e) => Err(e),
        },
        tail.len() > 0 && tail[1] == '?' ==> interpolated_from(s, i, env) == Err::<
            Seq<char>,
            (ProblemView, nat),
        >(
            (
                ProblemView::MissingRequired(
                    name,
                    if trim(tail.skip(2)).len() == 0 {
                        "value is unset"@
                    } else {
                        trim(tail.skip(2))
                    },
                ),
                line_number(s, i),
            ),
        ),
{
    lemma_reference(s, i, c, pre, name, post, tail, env);
    lemma_parts(pre, name, post, tail);
}

/// A reference that names no variable is refused on its line, and so is one that
/// is never closed.
pub proof fn malformed_references_are_refused(
    s: Seq<char>,
    i: int,
    env: spec_fn(Seq<char>) -> Option<Seq<char>>,
)
    requires
        0 <= i,
        i + 1 < s.len(),
        s[i] == '$',
        s[i + 1] == '{',
        !in_comment(s, i),
    ensures
        (forall|k: int| i + 2 <= k <= s.len() ==> #[trigger] nesting(s, i + 2, k) >= 0)
            ==> interpolated_from(s, i, env) == Err::<Seq<char>, (ProblemView, nat)>(
            (ProblemView::Unterminated, line_number(s, i)),
        ),
        forall|c: int| #[trigger]
            closes_at(s, i + 2, c) && !secret_reference(s.subrange(i + 2, c)) && (forall|k: int|
                i + 2 <= k < c ==> #[trigger] s[k] != ':' && !crate::text::is_white_space(s[k]))
                && !is_variable_name(s.subrange(i + 2, c)) ==> interpolated_from(s, i, env)
                == Err::<Seq<char>, (ProblemView, nat)>(
                (
                    if c == i + 2 {
                        ProblemView::EmptyName
                    } else if !(s[i + 2] == '_' || 'a' <= s[i + 2] <= 'z' || 'A' <= s[i + 2]
                        <= 'Z') {
                        ProblemView::NameStart(s.subrange(i + 2, c))
                    } else {
                        ProblemView::NameCharacter(s.subrange(i + 2, c))
                    },
                    line_number(s, i),
                ),
            ),
{
    if forall|k: int| i + 2 <= k <= s.len() ==> #[trigger] nesting(s, i + 2, k) >= 0 {
        lemma_never_closed(s, i + 2, i + 2);
        let seg = Segment::Malformed(ProblemView::Unterminated, line_number(s, i));
        assert(segments(s, i) =~= seq![seg] + Seq::<Segment>::empty());
        lemma_render_first(seg, Seq::empty(), env);
    }
    assert forall|c: int| #[trigger]
        closes_at(s, i + 2, c) && !secret_reference(s.subrange(i + 2, c)) && (forall|k: int|
            i + 2 <= k < c ==> #[trigger] s[k] != ':' && !crate::text::is_white_space(s[k]))
            && !is_variable_name(s.subrange(i + 2, c)) implies interpolated_from(s, i, env)
        == Err::<Seq<char>, (ProblemView, nat)>(
        (
            if c == i + 2 {
                ProblemView::EmptyName
            } else if !(s[i + 2] == '_' || 'a' <= s[i + 2] <= 'z' || 'A' <= s[i + 2] <= 'Z') {
                ProblemView::NameStart(s.subrange(i + 2, c))
            } else {
                ProblemView::NameCharacter(s.subrange(i + 2, c))
            },
            line_number(s, i),
        ),
    ) by {
        references_end_at_their_brace(s, i + 2, c);
        let body = s.subrange(i + 2, c);
        assert forall|k: int| 0 <= k < body.len() implies #[trigger] body[k] != ':' by {
            assert(body[k] == s[i + 2 + k]);
        }
        let none = Seq::<char>::empty();
        lemma_mark_is_first(body, none, '-');
        lemma_mark_is_first(body, none, '?');
        assert(body + none =~= body);
        assert(none + body + none =~= body);
        if body.len() > 0 {
            assert(body[0] == s[i + 2] && body.last() == s[c - 1]);
        }
        crate::text::trimming_leaves_the_core(none, body, none);
        assert(reference_parts(body) == (body, Fallback::Required));
        if body.len() > 0 && (body[0] == '_' || 'a' <= body[0] <= 'z' || 'A' <= body[0] <= 'Z') {
            let k = choose|k: int|
                0 <= k < body.len() && !(#[trigger] body[k] == '_' || 'a' <= body[k] <= 'z' || 'A'
                    <= body[k] <= 'Z' || '0' <= body[k] <= '9');
            assert(!(body[k] == '_' || is_ascii_letter(body[k]) || is_digit(body[k])));
        }
        let head = reference_segment(body, line_number(s, i));
        assert(segments(s, i) == seq![head] + segments(s, c + 1));
        lemma_render_first(head, segments(s, c + 1), env);
    }
}

/// Everything else stands for itself: text without `$`, text in comments, and a
/// `$` that neither `$` nor `{` follows. `$$` stands for one `$`, unless it
/// protects a secret reference; a secret reference stands for itself.
pub proof fn other_text_stands_for_itself(
    s: Seq<char>,
    i: int,
    env: spec_fn(Seq<char>) -> Option<Seq<char>>,
)
    requires
        0 <= i < s.len(),
    ensures
        s[i] != '$' || in_comment(s, i) || i + 1 == s.len() || (s[i + 1] != '$' && s[i + 1] != '{')
            ==> interpolated_from(s, i, env) == match interpolated_from(s, i + 1, env) {
            Ok(rest) => Ok(seq![s[i]] + rest),
            Err(e) => Err(e),
        },
        s[i] == '$' && !in_comment(s, i) && i + 1 < s.len() && s[i + 1] == '$'
            ==> interpolated_from(s, i, env) == match interpolated_from(s, i + 2, env) {
            Ok(rest) => Ok(
                if secret_at(s, i + 2) {
                    seq!['$', '$'] + rest
                } else {
                    seq!['$'] + rest
                },
            ),
            Err(e) => Err(e),
        },
        forall|c: int|
            s[i] == '$' && !in_comment(s, i) && i + 1 < s.len() && s[i + 1] == '{' && #[trigger]
            closes_at(s, i + 2, c) && secret_reference(s.subrange(i + 2, c)) ==> interpolated_from(
                s,
                i,
                env,
            ) == match interpolated_from(s, c + 1, env) {
                Ok(rest) => Ok(s.subrange(i, c + 1) + rest),
                Err(e) => Err(e),
            },
        interpolated_from(s, s.len() as int, env) == Ok::<Seq<char>, (ProblemView, nat)>(
            Seq::empty(),
        ),
{
    if s[i] != '$' || in_comment(s, i) || i + 1 == s.len() || (s[i + 1] != '$' && s[i + 1] != '{') {
        let head = Segment::Text(seq![s[i]]);
        assert(segments(s, i) == seq![head] + segments(s, i + 1));
        lemma_render_first(head, segments(s, i + 1), env);
    } else if s[i + 1] == '$' {
        let head = Segment::Text(
            if secret_at(s, i + 2) {
                seq!['$', '$']
            } else {
                seq!['$']
            },
        );
        assert(segments(s, i) == seq![head] + segments(s, i + 2));
        lemma_render_first(head, segments(s, i + 2), env);
    } else {
        assert forall|c: int| #[trigger]
            closes_at(s, i + 2, c) && secret_reference(
                s.subrange(i + 2, c),
            ) implies interpolated_from(s, i, env) == match interpolated_from(s, c + 1, env) {
            Ok(rest) => Ok(s.subrange(i, c + 1) + rest),
            Err(e) => Err(e),
        } by {
            references_end_at_their_brace(s, i + 2, c);
            let head = Segment::Text(s.subrange(i, c + 1));
            assert(segments(s, i) == seq![head] + segments(s, c + 1));
            lemma_render_first(head, segments(s, c + 1), env);
        }
    }
    assert(segments(s, s.len() as int) =~= Seq::empty());
}

/// A secret reference is one whose name starts with `secret.`, behind blanks or
/// not; a variable's name starts none.
pub proof fn secret_references_are_told_apart(pre: Seq<char>, rest: Seq<char>)
    requires
        all_blank(pre),
    ensures
        secret_reference(pre + seq!['s', 'e', 'c', 'r', 'e', 't', '.'] + rest),
        is_variable_name(rest) ==> !secret_reference(pre + rest),
{
    let word = seq!['s', 'e', 'c', 'r', 'e', 't', '.'];
    reveal_strlit("secret.");
    assert("secret."@ =~= word);
    lemma_skip_blanks(pre, word + rest);
    assert(pre + (word + rest) =~= pre + word + rest);
    assert((word + rest).take(7) =~= word);
    if is_variable_name(rest) {
        lemma_no_secret(pre, rest, Seq::empty());
        assert(pre + rest + Seq::empty() =~= pre + rest);
    }
}

proof fn lemma_plain_run(
    s: Seq<char>,
    i: int,
    stop: int,
    env: spec_fn(Seq<char>) -> Option<Seq<char>>,
)
    requires
        0 <= i <= stop <= s.len(),
        forall|k: int| i <= k < stop ==> #[trigger] s[k] != '$',
    ensures
        interpolated_from(s, i, env) == match interpolated_from(s, stop, env) {
            Ok(rest) => Ok(s.subrange(i, stop) + rest),
            Err(e) => Err(e),
        },
    decreases stop - i,
{
    if i < stop {
        other_text_stands_for_itself(s, i, env);
        lemma_plain_run(s, i + 1, stop, env);
        if let Ok(rest) = interpolated_from(s, stop, env) {
            assert(seq![s[i]] + (s.subrange(i + 1, stop) + rest) =~= s.subrange(i, stop) + rest);
        }
    } else {
        if let Ok(rest) = interpolated_from(s, stop, env) {
            assert(s.subrange(i, stop) + rest =~= rest);
        }
    }
}

proof fn lemma_no_braces(s: Seq<char>, from: int, to: int)
    requires
        forall|k: int| from <= k < to ==> #[trigger] s[k] != '{' && s[k] != '}',
    ensures
        nesting(s, from, to) == 0,
    decreases to - from,
{
    if from < to {
        lemma_no_braces(s, from, to - 1);
    }
}

/// In a text whose only `$` opens `${name}` outside a comment, where the
/// environment sets the name, the call succeeds: the value stands in the place of
/// the reference, and the text around it is as it was.
pub proof fn a_set_variable_is_replaced_in_place<F: Fn(&str) -> Option<String>>(
    resolver: F,
    env: spec_fn(Seq<char>) -> Option<Seq<char>>,
    front: Seq<char>,
    name: Seq<char>,
    back: Seq<char>,
    value: Seq<char>,
    source_label: Seq<char>,
    r: Result<String, InterpolationError>,
    answers: Seq<Option<Seq<char>>>,
)
    requires
        answers_out_of(resolver, env),
        interpolates(
            resolver,
            front + seq!['$', '{'] + name + seq!['}'] + back,
            source_label,
            r,
            answers,
        ),
        forall|k: int| 0 <= k < front.len() ==> #[trigger] front[k] != '$',
        forall|k: int| 0 <= k < back.len() ==> #[trigger] back[k] != '$',
        !in_comment(
            front + seq!['$', '{'] + name + seq!['}'] + back,
            front.len() as int,
        ),
        is_variable_name(name),
        env(name) == Some(value),
    ensures
        r is Ok,
        (r->Ok_0)@ == front + value + back,
{
    let s = front + seq!['$', '{'] + name + seq!['}'] + back;
    let i = front.len() as int;
    let c = i + 2 + name.len();
    let none = Seq::<char>::empty();
    interpolation_follows_environment(resolver, env, s, source_label, r, answers);
    assert(s[i] == '$' && s[i + 1] == '{' && s[c] == '}');
    assert(s.subrange(i + 2, c) =~= name);
    assert(none + name + none + none =~= name);
    assert forall|k: int| i + 2 <= k <= c implies #[trigger] nesting(s, i + 2, k) >= 0 by {
        assert forall|j: int| i + 2 <= j < k implies #[trigger] s[j] != '{' && s[j] != '}' by {
            assert(s[j] == name[j - i - 2]);
        }
        lemma_no_braces(s, i + 2, k);
    }
    assert forall|j: int| i + 2 <= j < c implies #[trigger] s[j] != '{' && s[j] != '}' by {
        assert(s[j] == name[j - i - 2]);
    }
    lemma_no_braces(s, i + 2, c);
    set_variables_are_replaced(s, i, c, none, name, none, none, env, value);
    assert forall|k: int| 0 <= k < i implies #[trigger] s[k] != '$' by {
        assert(s[k] == front[k]);
    }
    lemma_plain_run(s, 0, i, env);
    assert(s.subrange(0, i) =~= front);
    assert forall|k: int| c + 1 <= k < s.len() implies #[trigger] s[k] != '$' by {
        assert(s[k] == back[k - c - 1]);
    }
    lemma_plain_run(s, c + 1, s.len() as int, env);
    assert(segments(s, s.len() as int) =~= Seq::empty());
    assert(interpolated_from(s, s.len() as int, env) == Ok::<Seq<char>, (ProblemView, nat)>(none));
    assert(s.subrange(c + 1, s.len() as int) + none =~= back);
    assert(front + (value + back) =~= front + value + back);
    assert(interpolated(s, env) == interpolated_from(s, 0, env));
}

/// A secret reference stands behind a `$` exactly if a brace opens there, is
/// closed, and holds a secret's name.
pub proof fn protected_secrets_are_recognized(s: Seq<char>, at: int, c: int)
    ensures
        0 <= at && at + 1 < s.len() && s[at] == '{' && closes_at(s, at + 1, c) ==> (secret_at(s, at)
            <==> secret_reference(s.subrange(at + 1, c))),
        0 <= at < s.len() && s[at] != '{' ==> !secret_at(s, at),
        at >= s.len() ==> !secret_at(s, at),
{
    if 0 <= at && at + 1 < s.len() && s[at] == '{' && closes_at(s, at + 1, c) {
        references_end_at_their_brace(s, at + 1, c);
    }
}

/// The text of an error tells the source and the line, and names the variable.
pub proof fn errors_tell_where_and_what(e: InterpolationErrorView)
    ensures
        starts_with(
            error_message(e),
            "workflow YAML at "@ + e.source_label + " line "@ + decimal(e.line),
        ),
        e.problem matches ProblemView::Unset(n) ==> error_message(e) == "workflow YAML at "@
            + e.source_label + " line "@ + decimal(e.line) + (" references unset env var "@ + n
            + "."@),
        e.problem matches ProblemView::MissingRequired(n, m) ==> error_message(e)
            == "workflow YAML at "@ + e.source_label + " line "@ + decimal(e.line) + (
        " requires env var "@ + n + ": "@ + m),
        e.problem matches ProblemView::NameStart(n) ==> exists|i: int| #[trigger]
            crate::text::occurs_at(error_message(e), "`"@ + n + "`"@, i),
        e.problem matches ProblemView::NameCharacter(n) ==> exists|i: int| #[trigger]
            crate::text::occurs_at(error_message(e), "`"@ + n + "`"@, i),
{
    let head = "workflow YAML at "@ + e.source_label + " line "@ + decimal(e.line);
    let text = error_message(e);
    assert(text.take(head.len() as int) =~= head);
    reveal_strlit(" env var name `");
    reveal_strlit("` must start with a letter or underscore");
    reveal_strlit("` may only contain letters, digits, and underscores");
    reveal_strlit("`");
    let at = head.len() + " env var name `"@.len() - 1;
    match e.problem {
        ProblemView::NameStart(n) => {
            let quoted = "`"@ + n + "`"@;
            assert(text.subrange(at, at + quoted.len()) =~= quoted);
            assert(crate::text::occurs_at(text, quoted, at));
        },
        ProblemView::NameCharacter(n) => {
            let quoted = "`"@ + n + "`"@;
            assert(text.subrange(at, at + quoted.len()) =~= quoted);
            assert(crate::text::occurs_at(text, quoted, at));
        },
        _ => {},
    }
}

} // verus!
