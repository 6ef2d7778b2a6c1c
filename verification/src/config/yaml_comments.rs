//! Where the comments of a YAML text are.
//!
//! A `#` begins a comment when it is preceded by the start of the line or a
//! blank, is not inside a single- or double-quoted scalar, and is not inside
//! block scalar (`|` / `>`) content. Quote state carries across lines, so
//! multi-line quoted scalars that hold `#` are not misread as comments. Where the
//! context is ambiguous no comment is reported.

use vstd::prelude::*;
use vstd::slice::slice_subrange;

use crate::text::{end_of_line, is_digit, line_end, trim_end, trimmed_end};

verus! {

/// Which quoted scalar the scanner stands in.
#[derive(Clone, Copy, PartialEq, Eq, Structural, Debug)]
pub enum Quote {
    Outside,
    Single,
    Double,
}

/// A blank that separates tokens on a line.
pub open spec fn is_blank(c: char) -> bool {
    c == ' ' || c == '\t'
}

/// Number of leading spaces and tabs.
pub open spec fn indentation(line: Seq<char>) -> nat
    decreases line.len(),
{
    if line.len() > 0 && is_blank(line[0]) {
        1 + indentation(line.drop_first())
    } else {
        0
    }
}

/// Whether a quote may open right after `c`.
pub open spec fn is_indicator(c: char) -> bool {
    c == ':' || c == '-' || c == '[' || c == '{' || c == ','
}

/// Whether a `#` at index `i` is preceded by the line's start or a blank.
pub open spec fn opens_comment(line: Seq<char>, i: int) -> bool {
    line[i] == '#' && (i == 0 || is_blank(line[i - 1]))
}

/// Scans one line from index `i`: the quote state at its end and the index at
/// which a comment starts, if one does.
///
/// A quote opens a quoted scalar only where a new scalar can begin
/// (`can_open`): at the line's start, after an indicator, or after an anchor or
/// tag token that itself sat at such a place. `token` holds, for the token that
/// is being read, whether it sat at such a place and its first character.
pub open spec fn scan_line(
    line: Seq<char>,
    i: int,
    quote: Quote,
    can_open: bool,
    token: Option<(bool, char)>,
) -> (Quote, Option<int>)
    decreases line.len() - i,
{
    if i < 0 || i >= line.len() {
        (quote, None)
    } else {
        let c = line[i];
        match quote {
            Quote::Double => if c == '\\' {
                if i + 2 <= line.len() {
                    scan_line(line, i + 2, quote, can_open, token)
                } else {
                    (quote, None)
                }
            } else if c == '"' {
                scan_line(line, i + 1, Quote::Outside, false, token)
            } else {
                scan_line(line, i + 1, quote, can_open, token)
            },
            Quote::Single => if c == '\'' {
                if i + 1 < line.len() && line[i + 1] == '\'' {
                    scan_line(line, i + 2, quote, can_open, token)
                } else {
                    scan_line(line, i + 1, Quote::Outside, false, token)
                }
            } else {
                scan_line(line, i + 1, quote, can_open, token)
            },
            Quote::Outside => if is_blank(c) {
                let after_property = match token {
                    Some((at_start, first)) => at_start && (first == '&' || first == '!'),
                    None => false,
                };
                scan_line(line, i + 1, quote, can_open || after_property, None)
            } else if c == '"' && can_open {
                scan_line(line, i + 1, Quote::Double, can_open, None)
            } else if c == '\'' && can_open {
                scan_line(line, i + 1, Quote::Single, can_open, None)
            } else if opens_comment(line, i) {
                (quote, Some(i))
            } else {
                let next = if token is None {
                    Some((can_open, c))
                } else {
                    token
                };
                scan_line(line, i + 1, quote, is_indicator(c), next)
            },
        }
    }
}

/// The text after the last space or tab.
pub open spec fn last_token(s: Seq<char>) -> Seq<char>
    decreases s.len(),
{
    if s.len() == 0 || is_blank(s.last()) {
        Seq::empty()
    } else {
        last_token(s.drop_last()).push(s.last())
    }
}

/// Whether a line (without its comment) opens a block scalar: its last token is
/// `|` or `>` with indentation and chomping indicators, and stands alone or
/// after a `:` or `-`.
pub open spec fn block_scalar_header(line: Seq<char>) -> bool {
    let whole = trim_end(line);
    let token = last_token(whole);
    let prefix = trim_end(whole.take(whole.len() - token.len()));
    &&& token.len() > 0
    &&& token[0] == '|' || token[0] == '>'
    &&& forall|i: int|
        1 <= i < token.len() ==> token[i] == '+' || token[i] == '-' || is_digit(#[trigger] token[i])
    &&& prefix.len() == 0 || prefix.last() == ':' || prefix.last() == '-'
}

/// The line between `from` and `end` without its newline.
pub open spec fn line_body(s: Seq<char>, from: int, end: int) -> Seq<char> {
    if from < end && s[end - 1] == '\n' {
        s.subrange(from, end - 1)
    } else {
        s.subrange(from, end)
    }
}

/// The comments of the lines from index `from` on, as half-open ranges. `block`
/// holds the indentation of the line that opened the current block scalar.
pub open spec fn comments_from(
    s: Seq<char>,
    from: int,
    quote: Quote,
    block: Option<nat>,
) -> Seq<(int, int)>
    decreases s.len() - from,
    via comments_from_decreases
{
    if from < 0 || from >= s.len() {
        Seq::empty()
    } else {
        let end = line_end(s, from);
        let line = line_body(s, from, end);
        let indent = indentation(line);
        if block is Some && (indent == line.len() || indent > block->0) {
            comments_from(s, end, quote, block)
        } else {
            let (next, comment) = scan_line(line, 0, quote, true, None);
            let effective = match comment {
                Some(at) => line.take(at),
                None => line,
            };
            let opened = if next == Quote::Outside && block_scalar_header(effective) {
                Some(indent)
            } else {
                None
            };
            let rest = comments_from(s, end, next, opened);
            match comment {
                Some(at) => seq![(from + at, end)] + rest,
                None => rest,
            }
        }
    }
}

#[via_fn]
proof fn comments_from_decreases(s: Seq<char>, from: int, quote: Quote, block: Option<nat>) {
    if 0 <= from < s.len() {
        crate::text::lemma_line_end(s, from);
    }
}

/// The comments of a whole text.
pub open spec fn comments(s: Seq<char>) -> Seq<(int, int)> {
    comments_from(s, 0, Quote::Outside, None)
}

/// Whether index `at` lies in a comment.
pub open spec fn in_comment(s: Seq<char>, at: int) -> bool {
    exists|k: int|
        0 <= k < comments(s).len() && (#[trigger] comments(s)[k]).0 <= at < comments(s)[k].1
}

/// Ranges in ascending order, none empty, none overlapping the next.
pub open spec fn ascending(spans: Seq<(int, int)>) -> bool {
    &&& forall|k: int| 0 <= k < spans.len() ==> (#[trigger] spans[k]).0 < spans[k].1
    &&& forall|j: int, k: int| 0 <= j < k < spans.len() ==> (#[trigger] spans[j]).1 <= (#[trigger] spans[k]).0
}

/// A comment starts inside its line, with a `#` after the line's start or a blank.
proof fn lemma_scan_line(
    line: Seq<char>,
    i: int,
    quote: Quote,
    can_open: bool,
    token: Option<(bool, char)>,
)
    requires
        0 <= i,
    ensures
        scan_line(line, i, quote, can_open, token).1 matches Some(at) ==> i <= at < line.len()
            && opens_comment(line, at),
    decreases line.len() - i,
{
    if i < line.len() {
        let c = line[i];
        match quote {
            Quote::Double => if c == '\\' {
                if i + 2 <= line.len() {
                    lemma_scan_line(line, i + 2, quote, can_open, token);
                }
            } else if c == '"' {
                lemma_scan_line(line, i + 1, Quote::Outside, false, token);
            } else {
                lemma_scan_line(line, i + 1, quote, can_open, token);
            },
            Quote::Single => if c == '\'' {
                if i + 1 < line.len() && line[i + 1] == '\'' {
                    lemma_scan_line(line, i + 2, quote, can_open, token);
                } else {
                    lemma_scan_line(line, i + 1, Quote::Outside, false, token);
                }
            } else {
                lemma_scan_line(line, i + 1, quote, can_open, token);
            },
            Quote::Outside => if is_blank(c) {
                let after_property = match token {
                    Some((at_start, first)) => at_start && (first == '&' || first == '!'),
                    None => false,
                };
                lemma_scan_line(line, i + 1, quote, can_open || after_property, None);
            } else if c == '"' && can_open {
                lemma_scan_line(line, i + 1, Quote::Double, can_open, None);
            } else if c == '\'' && can_open {
                lemma_scan_line(line, i + 1, Quote::Single, can_open, None);
            } else if !opens_comment(line, i) {
                let next = if token is None {
                    Some((can_open, c))
                } else {
                    token
                };
                lemma_scan_line(line, i + 1, quote, is_indicator(c), next);
            },
        }
    }
}

/// What holds of one comment range: it starts with a `#` at the start of a line
/// or after a blank, and runs to the end of that line, newline included.
pub open spec fn is_comment_range(s: Seq<char>, span: (int, int)) -> bool {
    &&& 0 <= span.0 < span.1 <= s.len()
    &&& s[span.0] == '#'
    &&& span.0 == 0 || is_blank(s[span.0 - 1]) || s[span.0 - 1] == '\n'
    &&& span.1 == line_end(s, span.0)
}

proof fn lemma_line_end_inside(s: Seq<char>, from: int, at: int)
    requires
        0 <= from <= at < line_end(s, from),
        from < s.len(),
    ensures
        line_end(s, at) == line_end(s, from),
    decreases at - from,
{
    crate::text::lemma_line_end(s, from);
    if from < at {
        if from + 1 < s.len() && s[from] != '\n' {
            lemma_line_end_inside(s, from + 1, at);
        }
    }
}

proof fn lemma_comments_from(s: Seq<char>, from: int, quote: Quote, block: Option<nat>)
    requires
        0 <= from,
        from == 0 || from >= s.len() || s[from - 1] == '\n',
    ensures
        ascending(comments_from(s, from, quote, block)),
        forall|k: int|
            0 <= k < comments_from(s, from, quote, block).len() ==> from <= (
            #[trigger] comments_from(s, from, quote, block)[k]).0 && is_comment_range(
                s,
                comments_from(s, from, quote, block)[k],
            ),
    decreases s.len() - from,
{
    if from < s.len() {
        crate::text::lemma_line_end(s, from);
        let end = line_end(s, from);
        let line = line_body(s, from, end);
        let indent = indentation(line);
        if block is Some && (indent == line.len() || indent > block->0) {
            lemma_comments_from(s, end, quote, block);
        } else {
            lemma_scan_line(line, 0, quote, true, None);
            let (next, comment) = scan_line(line, 0, quote, true, None);
            let effective = match comment {
                Some(at) => line.take(at),
                None => line,
            };
            let opened = if next == Quote::Outside && block_scalar_header(effective) {
                Some(indent)
            } else {
                None
            };
            lemma_comments_from(s, end, next, opened);
            if let Some(at) = comment {
                lemma_line_end_inside(s, from, from + at);
                assert(line[at] == s[from + at]);
                if at > 0 {
                    assert(line[at - 1] == s[from + at - 1]);
                }
            }
        }
    }
}

/// The comments of a text are ascending, disjoint ranges, each of which starts
/// with a `#` at a line's start or after white space and runs through the end of
/// its line.
pub proof fn comments_are_ranges(s: Seq<char>)
    ensures
        ascending(comments(s)),
        forall|k: int|
            0 <= k < comments(s).len() ==> is_comment_range(s, #[trigger] comments(s)[k]),
{
    lemma_comments_from(s, 0, Quote::Outside, None);
}

fn is_blank_char(c: char) -> (r: bool)
    ensures
        r == is_blank(c),
{
    c == ' ' || c == '\t'
}

/// Number of leading spaces and tabs.
fn indent_of(line: &[char]) -> (r: usize)
    ensures
        r == indentation(line@),
        r <= line.len(),
{
    let mut k: usize = 0;
    proof {
        assert(line@.skip(0) =~= line@);
    }
    while k < line.len() && is_blank_char(line[k])
        invariant
            k <= line.len(),
            indentation(line@) == k + indentation(line@.skip(k as int)),
        decreases line.len() - k,
    {
        proof {
            assert(line@.skip(k as int).drop_first() =~= line@.skip(k + 1));
        }
        k += 1;
    }
    k
}

/// Scans one line: the quote state at its end and where its comment starts.
fn scan(line: &[char], start: Quote) -> (r: (Quote, Option<usize>))
    ensures
        r.0 == scan_line(line@, 0, start, true, None).0,
        match r.1 {
            Some(at) => scan_line(line@, 0, start, true, None).1 == Some(at as int) && at
                < line.len(),
            None => scan_line(line@, 0, start, true, None).1 is None,
        },
{
    let mut quote = start;
    let mut can_open = true;
    let mut token: Option<(bool, char)> = None;
    let mut i: usize = 0;
    while i < line.len()
        invariant
            i <= line.len(),
            scan_line(line@, 0, start, true, None) == scan_line(
                line@,
                i as int,
                quote,
                can_open,
                token,
            ),
        decreases line.len() - i,
    {
        let c = line[i];
        match quote {
            Quote::Double => {
                if c == '\\' {
                    if i + 1 >= line.len() {
                        return (quote, None);
                    }
                    i += 2;
                } else {
                    if c == '"' {
                        quote = Quote::Outside;
                        can_open = false;
                    }
                    i += 1;
                }
            },
            Quote::Single => {
                if c == '\'' && i + 1 < line.len() && line[i + 1] == '\'' {
                    i += 2;
                } else {
                    if c == '\'' {
                        quote = Quote::Outside;
                        can_open = false;
                    }
                    i += 1;
                }
            },
            Quote::Outside => {
                if is_blank_char(c) {
                    if let Some((at_start, first)) = token {
                        can_open = can_open || (at_start && (first == '&' || first == '!'));
                    }
                    token = None;
                } else if c == '"' && can_open {
                    quote = Quote::Double;
                    token = None;
                } else if c == '\'' && can_open {
                    quote = Quote::Single;
                    token = None;
                } else if c == '#' && (i == 0 || is_blank_char(line[i - 1])) {
                    return (quote, Some(i));
                } else {
                    if token.is_none() {
                        token = Some((can_open, c));
                    }
                    can_open = c == ':' || c == '-' || c == '[' || c == '{' || c == ',';
                }
                i += 1;
            },
        }
    }
    (quote, None)
}

proof fn lemma_last_token(s: Seq<char>, k: int)
    requires
        0 <= k <= s.len(),
        forall|i: int| k <= i < s.len() ==> !is_blank(s[i]),
        k == 0 || is_blank(s[k - 1]),
    ensures
        last_token(s) == s.skip(k),
    decreases s.len() - k,
{
    if k < s.len() {
        lemma_last_token(s.drop_last(), k);
        assert(s.skip(k) =~= s.drop_last().skip(k).push(s.last()));
    } else {
        assert(s.skip(k) =~= Seq::<char>::empty());
    }
}

/// Whether a line without its comment opens a block scalar.
fn is_block_scalar_header(line: &[char]) -> (r: bool)
    ensures
        r == block_scalar_header(line@),
{
    let whole = trimmed_end(line);
    let mut k: usize = whole.len();
    while k > 0 && !is_blank_char(whole[k - 1])
        invariant
            k <= whole.len(),
            forall|i: int| k <= i < whole.len() ==> !is_blank(whole@[i]),
        decreases k,
    {
        k -= 1;
    }
    proof {
        lemma_last_token(whole@, k as int);
        assert(whole@.take(k as int) =~= whole@.subrange(0, k as int));
    }
    let ghost token = last_token(whole@);
    if k == whole.len() || (whole[k] != '|' && whole[k] != '>') {
        return false;
    }
    let mut i: usize = k + 1;
    while i < whole.len()
        invariant
            k < i <= whole.len(),
            whole@ == trim_end(line@),
            token == last_token(whole@),
            token == whole@.skip(k as int),
            forall|j: int| 1 <= j < i - k ==> token[j] == '+' || token[j] == '-' || is_digit(#[trigger] token[j]),
        decreases whole.len() - i,
    {
        let c = whole[i];
        if !(c == '+' || c == '-' || ('0' <= c && c <= '9')) {
            assert(token[i - k] == c);
            return false;
        }
        i += 1;
    }
    let prefix = trimmed_end(slice_subrange(whole, 0, k));
    prefix.len() == 0 || prefix[prefix.len() - 1] == ':' || prefix[prefix.len() - 1] == '-'
}

/// Ranges of machine integers as ranges of integers.
pub open spec fn spans_view(spans: Seq<(usize, usize)>) -> Seq<(int, int)> {
    spans.map_values(|p: (usize, usize)| (p.0 as int, p.1 as int))
}

/// The comments of a text, in ascending order.
fn yaml_comment_spans(content: &[char]) -> (r: Vec<(usize, usize)>)
    ensures
        spans_view(r@) == comments(content@),
{
    let mut spans: Vec<(usize, usize)> = Vec::new();
    let mut quote = Quote::Outside;
    let mut block: Option<usize> = None;
    let mut line_start: usize = 0;
    let ghost mut open: Option<nat> = None;
    while line_start < content.len()
        invariant
            line_start <= content.len(),
            open == (match block {
                Some(b) => Some(b as nat),
                None => None,
            }),
            comments(content@) =~= spans_view(spans@) + comments_from(
                content@,
                line_start as int,
                quote,
                open,
            ),
        decreases content.len() - line_start,
    {
        let end = end_of_line(content, line_start);
        let stop: usize = if content[end - 1] == '\n' {
            end - 1
        } else {
            end
        };
        let line = slice_subrange(content, line_start, stop);
        let indent = indent_of(line);
        let ghost before = spans@;
        let ghost rest = comments_from(content@, line_start as int, quote, open);
        let inside = match block {
            Some(parent) => indent == line.len() || indent > parent,
            None => false,
        };
        if !inside {
            let (next, comment) = scan(line, quote);
            quote = next;
            let effective = match comment {
                Some(at) => slice_subrange(line, 0, at),
                None => line,
            };
            proof {
                if comment is Some {
                    assert(effective@ =~= line@.take(comment->0 as int));
                }
            }
            block = if next == Quote::Outside && is_block_scalar_header(effective) {
                Some(indent)
            } else {
                None
            };
            proof {
                open = match block {
                    Some(b) => Some(b as nat),
                    None => None,
                };
            }
            if let Some(at) = comment {
                spans.push((line_start + at, end));
                proof {
                    assert(spans_view(spans@) =~= spans_view(before).push(
                        (line_start + at, end as int),
                    ));
                    assert(rest =~= seq![(line_start + at, end as int)] + comments_from(
                        content@,
                        end as int,
                        quote,
                        open,
                    ));
                }
            }
        }
        line_start = end;
    }
    spans
}

/// Cursor over the comments of a text for offsets asked in ascending order.
pub(crate) struct CommentSpans {
    spans: Vec<(usize, usize)>,
    next: usize,
}

impl CommentSpans {
    /// The cursor holds the comments of `s` and has passed only those that end
    /// at or before `reached`.
    pub(crate) closed spec fn wf(&self, s: Seq<char>, reached: int) -> bool {
        &&& spans_view(self.spans@) == comments(s)
        &&& ascending(comments(s))
        &&& self.next <= self.spans@.len()
        &&& forall|k: int| 0 <= k < self.next ==> (#[trigger] comments(s)[k]).1 <= reached
    }

    /// What has been passed at one index has been passed at every later one.
    pub(crate) proof fn lemma_wf_later(&self, s: Seq<char>, reached: int, later: int)
        requires
            self.wf(s, reached),
            reached <= later,
        ensures
            self.wf(s, later),
    {
    }

    pub(crate) fn new(content: &[char]) -> (r: Self)
        ensures
            r.wf(content@, 0),
    {
        proof {
            comments_are_ranges(content@);
        }
        CommentSpans { spans: yaml_comment_spans(content), next: 0 }
    }

    pub(crate) fn contains(
        &mut self,
        offset: usize,
        Ghost(s): Ghost<Seq<char>>,
        Ghost(reached): Ghost<int>,
    ) -> (r: bool)
        requires
            old(self).wf(s, reached),
            reached <= offset,
        ensures
            final(self).wf(s, offset as int),
            r == in_comment(s, offset as int),
    {
        while self.next < self.spans.len() && self.spans[self.next].1 <= offset
            invariant
                self.wf(s, offset as int),
            decreases self.spans.len() - self.next,
        {
            proof {
                assert(comments(s)[self.next as int].1 == self.spans@[self.next as int].1);
            }
            self.next += 1;
        }
        let r = self.next < self.spans.len() && self.spans[self.next].0 <= offset;
        proof {
            if self.next < self.spans.len() {
                assert(comments(s)[self.next as int] == (
                    self.spans@[self.next as int].0 as int,
                    self.spans@[self.next as int].1 as int,
                ));
            }
            assert(comments(s).len() == self.spans@.len());
        }
        r
    }
}

// ---------------------------------------------------------------------
// Laws
// ---------------------------------------------------------------------

/// Whether a `#` stands at index `j`, at the start of a line or behind a blank.
pub open spec fn hash_at(s: Seq<char>, j: int) -> bool {
    &&& 0 <= j < s.len()
    &&& s[j] == '#'
    &&& j == 0 || s[j - 1] == ' ' || s[j - 1] == '\t' || s[j - 1] == '\n'
}

/// Whether index `at` stands behind such a `#`, or is it, on the same line.
pub open spec fn behind_hash(s: Seq<char>, at: int) -> bool {
    exists|j: int| #[trigger]
        hash_at(s, j) && j <= at && forall|k: int| j <= k < at ==> #[trigger] s[k] != '\n'
}

/// What lies in a comment stands behind a `#` on its line. So a text without `#`
/// has no comment.
pub proof fn comments_stand_behind_a_hash(s: Seq<char>, at: int)
    ensures
        in_comment(s, at) ==> behind_hash(s, at),
        (forall|k: int| 0 <= k < s.len() ==> #[trigger] s[k] != '#') ==> !in_comment(s, at),
{
    comments_are_ranges(s);
    if in_comment(s, at) {
        let k = choose|k: int|
            0 <= k < comments(s).len() && (#[trigger] comments(s)[k]).0 <= at < comments(s)[k].1;
        let span = comments(s)[k];
        assert(is_comment_range(s, span));
        crate::text::lemma_line_end(s, span.0);
        assert(hash_at(s, span.0));
        assert forall|i: int| span.0 <= i < at implies #[trigger] s[i] != '\n' by {}
        assert(behind_hash(s, at));
    }
}

/// Whether a text holds no quotes and no block scalar marks.
pub open spec fn plain_yaml(s: Seq<char>) -> bool {
    forall|k: int|
        0 <= k < s.len() ==> #[trigger] s[k] != '"' && s[k] != '\'' && s[k] != '|' && s[k] != '>'
}

proof fn lemma_scan_plain(line: Seq<char>, i: int, can_open: bool, token: Option<(bool, char)>)
    requires
        0 <= i <= line.len(),
        plain_yaml(line),
    ensures
        ({
            let (quote, comment) = scan_line(line, i, Quote::Outside, can_open, token);
            &&& quote == Quote::Outside
            &&& comment matches Some(at) ==> i <= at < line.len() && opens_comment(line, at)
                && forall|k: int| i <= k < at ==> !#[trigger] opens_comment(line, k)
            &&& comment is None ==> forall|k: int|
                i <= k < line.len() ==> !#[trigger] opens_comment(line, k)
        }),
    decreases line.len() - i,
{
    if i < line.len() {
        let c = line[i];
        if is_blank(c) {
            let after_property = match token {
                Some((at_start, first)) => at_start && (first == '&' || first == '!'),
                None => false,
            };
            lemma_scan_plain(line, i + 1, can_open || after_property, None);
        } else if !opens_comment(line, i) {
            let next = if token is None {
                Some((can_open, c))
            } else {
                token
            };
            lemma_scan_plain(line, i + 1, is_indicator(c), next);
        }
    }
}

proof fn lemma_trim_end_plain(s: Seq<char>)
    requires
        plain_yaml(s),
    ensures
        plain_yaml(trim_end(s)),
    decreases s.len(),
{
    if s.len() > 0 && crate::text::is_white_space(s.last()) {
        assert(plain_yaml(s.drop_last())) by {
            assert forall|k: int| 0 <= k < s.drop_last().len() implies #[trigger] s.drop_last()[k]
                != '"' && s.drop_last()[k] != '\'' && s.drop_last()[k] != '|' && s.drop_last()[k]
                != '>' by {
                assert(s.drop_last()[k] == s[k]);
            }
        }
        lemma_trim_end_plain(s.drop_last());
    }
}

proof fn lemma_last_token_plain(s: Seq<char>)
    requires
        plain_yaml(s),
    ensures
        plain_yaml(last_token(s)),
    decreases s.len(),
{
    if s.len() > 0 && !is_blank(s.last()) {
        let front = s.drop_last();
        assert forall|k: int| 0 <= k < front.len() implies #[trigger] front[k] != '"' && front[k]
            != '\'' && front[k] != '|' && front[k] != '>' by {
            assert(front[k] == s[k]);
        }
        lemma_last_token_plain(front);
        let t = last_token(s);
        assert(s.last() == s[s.len() - 1]);
        assert forall|k: int| 0 <= k < t.len() implies #[trigger] t[k] != '"' && t[k] != '\''
            && t[k] != '|' && t[k] != '>' by {
            if k < t.len() - 1 {
                assert(t[k] == last_token(front)[k]);
            }
        }
    }
}

proof fn lemma_plain_comments(s: Seq<char>, from: int, at: int)
    requires
        plain_yaml(s),
        0 <= from <= at < s.len(),
        from == 0 || s[from - 1] == '\n',
        behind_hash(s, at),
    ensures
        exists|k: int|
            0 <= k < comments_from(s, from, Quote::Outside, None).len() && (
            #[trigger] comments_from(s, from, Quote::Outside, None)[k]).0 <= at < comments_from(
                s,
                from,
                Quote::Outside,
                None,
            )[k].1,
    decreases s.len() - from,
{
    crate::text::lemma_line_end(s, from);
    let end = line_end(s, from);
    let line = line_body(s, from, end);
    assert forall|k: int| 0 <= k < line.len() implies #[trigger] line[k] != '"' && line[k] != '\''
        && line[k] != '|' && line[k] != '>' by {
        assert(line[k] == s[from + k]);
    }
    lemma_scan_plain(line, 0, true, None);
    let (next, comment) = scan_line(line, 0, Quote::Outside, true, None);
    let effective = match comment {
        Some(c) => line.take(c),
        None => line,
    };
    assert forall|k: int| 0 <= k < effective.len() implies #[trigger] effective[k] != '"'
        && effective[k] != '\'' && effective[k] != '|' && effective[k] != '>' by {
        assert(effective[k] == line[k]);
    }
    lemma_trim_end_plain(effective);
    lemma_last_token_plain(trim_end(effective));
    assert(!block_scalar_header(effective));
    let rest = comments_from(s, end, Quote::Outside, None);
    let all = comments_from(s, from, Quote::Outside, None);
    let shift: int = if comment is Some {
        1
    } else {
        0
    };
    assert(all == match comment {
        Some(c) => seq![(from + c, end)] + rest,
        None => rest,
    });
    let j = choose|j: int| #[trigger]
        hash_at(s, j) && j <= at && forall|k: int| j <= k < at ==> #[trigger] s[k] != '\n';
    if at < end {
        if j < from {
            assert(s[from - 1] != '\n');
        }
        assert(j - from < line.len()) by {
            assert(s[j] != '\n');
        }
        assert(line[j - from] == '#');
        if j > from {
            assert(line[j - from - 1] == s[j - 1]);
            assert(s[j - 1] != '\n');
        }
        assert(opens_comment(line, j - from));
        let c = comment->0;
        assert(c <= j - from);
        assert(all[0] == (from + c, end));
    } else {
        lemma_plain_comments(s, end, at);
        let k = choose|k: int|
            0 <= k < rest.len() && (#[trigger] rest[k]).0 <= at < rest[k].1;
        assert(all[k + shift] == rest[k]);
    }
}

/// In a text without quotes and block scalars, the comments are exactly what
/// stands behind a `#` at the start of a line or after a blank, up to the end of
/// its line.
pub proof fn a_hash_opens_a_comment(s: Seq<char>, at: int)
    requires
        plain_yaml(s),
        0 <= at < s.len(),
    ensures
        in_comment(s, at) <==> behind_hash(s, at),
{
    comments_stand_behind_a_hash(s, at);
    if behind_hash(s, at) {
        lemma_plain_comments(s, 0, at);
        let k = choose|k: int|
            0 <= k < comments_from(s, 0, Quote::Outside, None).len() && (
            #[trigger] comments_from(s, 0, Quote::Outside, None)[k]).0 <= at < comments_from(
                s,
                0,
                Quote::Outside,
                None,
            )[k].1;
        assert(comments(s)[k].0 <= at < comments(s)[k].1);
    }
}

proof fn lemma_inside_quotes(
    line: Seq<char>,
    i: int,
    end: int,
    quote: Quote,
    can_open: bool,
    token: Option<(bool, char)>,
)
    requires
        0 <= i <= end < line.len(),
        quote == Quote::Double || quote == Quote::Single,
        forall|k: int| i <= k < end ==> #[trigger] line[k] != '"' && line[k] != '\'' && line[k] != '\\',
        quote == Quote::Double ==> line[end] == '"',
        quote == Quote::Single ==> line[end] == '\'' && (end + 1 == line.len() || line[end + 1]
            != '\''),
    ensures
        scan_line(line, i, quote, can_open, token) == scan_line(
            line,
            end + 1,
            Quote::Outside,
            false,
            token,
        ),
    decreases end - i,
{
    if i < end {
        assert(line[i] != '"');
        lemma_inside_quotes(line, i + 1, end, quote, can_open, token);
    }
}

/// A quoted scalar hides what it holds, `#` too: where a scalar can begin, a quote
/// is skipped up to the quote that closes it, and the scan goes on behind.
pub proof fn quotes_hide_what_they_hold(
    line: Seq<char>,
    i: int,
    end: int,
    token: Option<(bool, char)>,
)
    requires
        0 <= i < end < line.len(),
        line[i] == '"' || line[i] == '\'',
        line[end] == line[i],
        forall|k: int|
            i < k < end ==> #[trigger] line[k] != '"' && line[k] != '\'' && line[k] != '\\',
        line[i] == '\'' ==> end + 1 == line.len() || line[end + 1] != '\'',
    ensures
        scan_line(line, i, Quote::Outside, true, token) == scan_line(
            line,
            end + 1,
            Quote::Outside,
            false,
            None,
        ),
{
    let quote = if line[i] == '"' {
        Quote::Double
    } else {
        Quote::Single
    };
    lemma_inside_quotes(line, i + 1, end, quote, true, None);
}

proof fn lemma_unclosed(
    line: Seq<char>,
    i: int,
    quote: Quote,
    can_open: bool,
    token: Option<(bool, char)>,
)
    requires
        0 <= i,
        quote == Quote::Double || quote == Quote::Single,
        forall|k: int| i <= k < line.len() ==> #[trigger] line[k] != '"' && line[k] != '\'',
    ensures
        scan_line(line, i, quote, can_open, token) == (quote, None::<int>),
    decreases line.len() - i,
{
    if i < line.len() {
        assert(line[i] != '"');
        if quote == Quote::Double && line[i] == '\\' {
            if i + 2 <= line.len() {
                lemma_unclosed(line, i + 2, quote, can_open, token);
            }
        } else {
            lemma_unclosed(line, i + 1, quote, can_open, token);
        }
    }
}

/// A quoted scalar that is open at the start of a line and not closed on it hides
/// the whole line, and stays open.
pub proof fn open_quotes_hide_whole_lines(s: Seq<char>, from: int, end: int, quote: Quote)
    requires
        0 <= from < end <= s.len(),
        quote == Quote::Double || quote == Quote::Single,
        forall|k: int| from <= k < end - 1 ==> #[trigger] s[k] != '\n',
        s[end - 1] == '\n' || end == s.len(),
        forall|k: int| from <= k < end ==> #[trigger] s[k] != '"' && s[k] != '\'',
    ensures
        comments_from(s, from, quote, None) == comments_from(s, end, quote, None),
{
    crate::text::lemma_line_end_is(s, from, end);
    let line = line_body(s, from, end);
    assert forall|k: int| 0 <= k < line.len() implies #[trigger] line[k] != '"' && line[k]
        != '\'' by {
        assert(line[k] == s[from + k]);
    }
    lemma_unclosed(line, 0, quote, true, None);
}

proof fn lemma_indented(line: Seq<char>, n: nat)
    requires
        n <= line.len(),
        forall|k: int| 0 <= k < n ==> is_blank(#[trigger] line[k]),
    ensures
        indentation(line) >= n,
        indentation(line) <= line.len(),
    decreases line.len(),
{
    if line.len() > 0 && is_blank(line[0]) {
        let m: nat = if n > 0 {
            (n - 1) as nat
        } else {
            0
        };
        assert forall|k: int| 0 <= k < m implies is_blank(#[trigger] line.drop_first()[k]) by {
            assert(line.drop_first()[k] == line[k + 1]);
        }
        lemma_indented(line.drop_first(), m);
    }
}

/// The content of a block scalar holds no comment: a line that is blank, or
/// indented deeper than the line that opened the block, is passed over whole.
pub proof fn block_scalars_hide_their_lines(
    s: Seq<char>,
    from: int,
    end: int,
    quote: Quote,
    opener: nat,
)
    requires
        0 <= from < end <= s.len(),
        forall|k: int| from <= k < end - 1 ==> #[trigger] s[k] != '\n',
        s[end - 1] == '\n' || end == s.len(),
        (forall|k: int| from <= k < end ==> #[trigger] s[k] == ' ' || s[k] == '\t' || s[k] == '\n')
            || (from + opener < end && s[from + opener] != '\n' && forall|k: int|
            from <= k <= from + opener ==> #[trigger] s[k] == ' ' || s[k] == '\t'),
    ensures
        comments_from(s, from, quote, Some(opener)) == comments_from(s, end, quote, Some(opener)),
{
    crate::text::lemma_line_end_is(s, from, end);
    let line = line_body(s, from, end);
    if forall|k: int| from <= k < end ==> #[trigger] s[k] == ' ' || s[k] == '\t' || s[k] == '\n' {
        assert forall|k: int| 0 <= k < line.len() implies is_blank(#[trigger] line[k]) by {
            assert(line[k] == s[from + k]);
            if from + k < end - 1 {
                assert(s[from + k] != '\n');
            }
        }
        lemma_indented(line, line.len());
    } else {
        assert forall|k: int| 0 <= k < opener + 1 implies is_blank(#[trigger] line[k]) by {
            assert(line[k] == s[from + k]);
        }
        lemma_indented(line, opener + 1);
    }
}

/// A line whose last token is `|` or `>`, with or without chomping and indentation
/// indicators, behind a `:` or a `-` and a blank, opens a block scalar.
pub proof fn block_marks_open_a_block(front: Seq<char>, c: char, mark: char, indicators: Seq<char>)
    requires
        c == ':' || c == '-',
        mark == '|' || mark == '>',
        forall|k: int|
            0 <= k < indicators.len() ==> #[trigger] indicators[k] == '+' || indicators[k] == '-' || (
            '0' <= indicators[k] <= '9'),
    ensures
        block_scalar_header(front + seq![c, ' ', mark] + indicators),
{
    let line = front + seq![c, ' ', mark] + indicators;
    let n = line.len() as int;
    let at = front.len() + 2;
    if indicators.len() > 0 {
        assert(line[n - 1] == indicators[indicators.len() - 1]);
    } else {
        assert(line[n - 1] == mark);
    }
    crate::text::lemma_trim_end(line, n);
    assert(line.take(n) =~= line);
    assert forall|i: int| at <= i < n implies !is_blank(line[i]) by {
        if i > at {
            assert(line[i] == indicators[i - at - 1]);
        }
    }
    assert(line[at - 1] == ' ');
    lemma_last_token(line, at as int);
    let token = line.skip(at as int);
    assert(token[0] == mark);
    assert forall|i: int| 1 <= i < token.len() implies token[i] == '+' || token[i] == '-'
        || is_digit(#[trigger] token[i]) by {
        assert(token[i] == indicators[i - 1]);
    }
    let prefix = line.take(n - token.len());
    assert(prefix[prefix.len() - 1] == ' ');
    assert(prefix[prefix.len() - 2] == c);
    crate::text::lemma_trim_end(prefix, prefix.len() - 1);
}

proof fn lemma_skip_blanks(line: Seq<char>, i: int, k: int)
    requires
        0 <= i <= k < line.len(),
        forall|j: int| i <= j < k ==> is_blank(#[trigger] line[j]),
    ensures
        scan_line(line, i, Quote::Outside, true, None) == scan_line(
            line,
            k,
            Quote::Outside,
            true,
            None,
        ),
    decreases k - i,
{
    if i < k {
        assert(is_blank(line[i]));
        lemma_skip_blanks(line, i + 1, k);
    }
}

/// A quoted scalar can begin behind a `:`, `-`, `[`, `{` or `,` and a blank: what it
/// holds is skipped.
pub proof fn quotes_open_behind_indicators(
    line: Seq<char>,
    i: int,
    k: int,
    end: int,
    can_open: bool,
    token: Option<(bool, char)>,
)
    requires
        0 <= i,
        i + 1 < k < end < line.len(),
        line[i] == ':' || line[i] == '-' || line[i] == '[' || line[i] == '{' || line[i] == ',',
        forall|j: int| i < j < k ==> #[trigger] line[j] == ' ' || line[j] == '\t',
        line[k] == '"' || line[k] == '\'',
        line[end] == line[k],
        forall|j: int|
            k < j < end ==> #[trigger] line[j] != '"' && line[j] != '\'' && line[j] != '\\',
        line[k] == '\'' ==> end + 1 == line.len() || line[end + 1] != '\'',
    ensures
        scan_line(line, i, Quote::Outside, can_open, token) == scan_line(
            line,
            end + 1,
            Quote::Outside,
            false,
            None,
        ),
{
    let next = if token is None {
        Some((can_open, line[i]))
    } else {
        token
    };
    assert(line[i + 1] == ' ' || line[i + 1] == '\t');
    assert(scan_line(line, i, Quote::Outside, can_open, token) == scan_line(
        line,
        i + 1,
        Quote::Outside,
        true,
        next,
    ));
    assert forall|j: int| i + 2 <= j < k implies is_blank(#[trigger] line[j]) by {}
    assert(scan_line(line, i + 1, Quote::Outside, true, next) == scan_line(
        line,
        i + 2,
        Quote::Outside,
        true,
        None,
    ));
    lemma_skip_blanks(line, i + 2, k);
    quotes_hide_what_they_hold(line, k, end, None);
}

/// A quote inside a word opens nothing: it is passed over like a letter.
pub proof fn quotes_inside_words_open_nothing(
    line: Seq<char>,
    i: int,
    can_open: bool,
    token: Option<(bool, char)>,
)
    requires
        0 <= i,
        i + 1 < line.len(),
        'a' <= line[i] <= 'z' || 'A' <= line[i] <= 'Z' || '0' <= line[i] <= '9',
        line[i + 1] == '"' || line[i + 1] == '\'',
    ensures
        scan_line(line, i, Quote::Outside, can_open, token) == scan_line(
            line,
            i + 2,
            Quote::Outside,
            false,
            if token is None {
                Some((can_open, line[i]))
            } else {
                token
            },
        ),
{
    let next = if token is None {
        Some((can_open, line[i]))
    } else {
        token
    };
    assert(scan_line(line, i, Quote::Outside, can_open, token) == scan_line(
        line,
        i + 1,
        Quote::Outside,
        false,
        next,
    ));
}

/// In double quotes a backslash hides the character behind it; in single quotes two
/// quotes in a row stand for one. Neither ends the scalar.
pub proof fn escaped_quotes_end_nothing(
    line: Seq<char>,
    i: int,
    can_open: bool,
    token: Option<(bool, char)>,
)
    requires
        0 <= i,
        i + 1 < line.len(),
    ensures
        line[i] == '\\' ==> scan_line(line, i, Quote::Double, can_open, token) == scan_line(
            line,
            i + 2,
            Quote::Double,
            can_open,
            token,
        ),
        line[i] == '\'' && line[i + 1] == '\'' ==> scan_line(
            line,
            i,
            Quote::Single,
            can_open,
            token,
        ) == scan_line(line, i + 2, Quote::Single, can_open, token),
{
}

/// Behind an anchor or a tag that stands where a scalar can begin, a scalar can
/// begin still.
pub proof fn properties_let_scalars_begin(line: Seq<char>, i: int, first: char)
    requires
        0 <= i < line.len(),
        line[i] == ' ' || line[i] == '\t',
    ensures
        scan_line(line, i, Quote::Outside, false, Some((true, first))) == scan_line(
            line,
            i + 1,
            Quote::Outside,
            first == '&' || first == '!',
            None,
        ),
        scan_line(line, i, Quote::Outside, false, Some((false, first))) == scan_line(
            line,
            i + 1,
            Quote::Outside,
            false,
            None,
        ),
{
}

proof fn lemma_indentation_is(line: Seq<char>, n: nat)
    requires
        n < line.len(),
        forall|k: int| 0 <= k < n ==> is_blank(#[trigger] line[k]),
        !is_blank(line[n as int]),
    ensures
        indentation(line) == n,
    decreases n,
{
    if n > 0 {
        assert(is_blank(line[0]));
        let rest = line.drop_first();
        assert forall|k: int| 0 <= k < n - 1 implies is_blank(#[trigger] rest[k]) by {
            assert(rest[k] == line[k + 1]);
        }
        lemma_indentation_is(rest, (n - 1) as nat);
    }
}

/// A block scalar ends with the first line that holds something and is indented no
/// deeper than the line that opened it: that line is scanned like any other.
pub proof fn block_scalars_end_with_their_indentation(
    s: Seq<char>,
    from: int,
    end: int,
    quote: Quote,
    opener: nat,
    n: nat,
)
    requires
        0 <= from,
        from + n < end <= s.len(),
        forall|k: int| from <= k < end - 1 ==> #[trigger] s[k] != '\n',
        s[end - 1] == '\n' || end == s.len(),
        forall|k: int| from <= k < from + n ==> #[trigger] s[k] == ' ' || s[k] == '\t',
        s[from + n] != ' ' && s[from + n] != '\t' && s[from + n] != '\n',
        n <= opener,
    ensures
        comments_from(s, from, quote, Some(opener)) == comments_from(s, from, quote, None),
{
    crate::text::lemma_line_end_is(s, from, end);
    let line = line_body(s, from, end);
    assert forall|k: int| 0 <= k < n implies is_blank(#[trigger] line[k]) by {
        assert(line[k] == s[from + k]);
    }
    assert(line[n as int] == s[from + n]);
    lemma_indentation_is(line, n);
}

/// A line outside block scalars is scanned in the state that the lines before it
/// left: its comment, if it has one, comes first and runs to the line's end; the
/// lines behind it are read in the state that it leaves, and inside a block if what
/// stands before its comment opens one.
pub proof fn lines_are_scanned_one_by_one(s: Seq<char>, from: int, end: int, quote: Quote)
    requires
        0 <= from < end <= s.len(),
        forall|k: int| from <= k < end - 1 ==> #[trigger] s[k] != '\n',
        s[end - 1] == '\n' || end == s.len(),
    ensures
        ({
            let line = if s[end - 1] == '\n' {
                s.subrange(from, end - 1)
            } else {
                s.subrange(from, end)
            };
            let scanned = scan_line(line, 0, quote, true, None);
            let shown = match scanned.1 {
                Some(at) => line.take(at),
                None => line,
            };
            let inside = if scanned.0 == Quote::Outside && block_scalar_header(shown) {
                Some(indentation(line))
            } else {
                None
            };
            comments_from(s, from, quote, None) == (match scanned.1 {
                Some(at) => seq![(from + at, end)],
                None => Seq::empty(),
            }) + comments_from(s, end, scanned.0, inside)
        }),
{
    crate::text::lemma_line_end_is(s, from, end);
    let line = line_body(s, from, end);
    let scanned = scan_line(line, 0, quote, true, None);
    let shown = match scanned.1 {
        Some(at) => line.take(at),
        None => line,
    };
    let inside = if scanned.0 == Quote::Outside && block_scalar_header(shown) {
        Some(indentation(line))
    } else {
        None
    };
    let rest = comments_from(s, end, scanned.0, inside);
    assert(Seq::<(int, int)>::empty() + rest =~= rest);
}

} // verus!
