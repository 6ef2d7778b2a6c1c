//! Diagnostics for YAML workflow sources, and close matches for misspelt names.
//!
//! A diagnostic renders as:
//!
//! ```text
//! error: <message>
//!   --> <file>:<line>:<col>
//!    |
//! NN |     <line of source>
//!    |     ^^^^^^^^^^ expected one of:
//!    |                - <shape A>
//!    |                - <shape B>
//!    = help: did you mean `<suggestion>`?
//!    = note: <note>
//! ```

use vstd::prelude::*;
use vstd::slice::slice_subrange;

use crate::text::{
    chars_of, copy_opt, copy_strings, decimal, decimal_text, is_digit, line_views, lines, lines_of, lower_char, opt_str,
    push_decimal, push_repeated, repeated, rfind, rfind_text, slices, string_of, texts, to_lower_char,
};

verus! {

/// A diagnostic about one place of a YAML source.
#[derive(Debug)]
pub struct YamlDiagnostic {
    pub file: Option<String>,
    pub line: Option<usize>,
    pub col: Option<usize>,
    /// Stable diagnostic code, e.g. `yaml.invalid_worktree`.
    pub code: String,
    /// One-line human message.
    pub message: String,
    /// Valid shapes the parser accepts at this position.
    pub expected: Vec<String>,
    /// Optional "did you mean ...?" suggestion.
    pub suggestion: Option<String>,
    /// Optional extra note.
    pub note: Option<String>,
    /// Source excerpt rendered alongside the carets.
    pub excerpt: Option<YamlExcerpt>,
}

/// Lines of a source around the one a diagnostic is about.
#[derive(Debug)]
pub struct YamlExcerpt {
    pub start_line: usize,
    pub lines: Vec<String>,
    /// 0-based column range to underline on the focal line.
    pub underline: (usize, usize),
    /// Index into `lines` of the focal line (0-based).
    pub focal: usize,
}

/// View of [`YamlExcerpt`].
pub struct YamlExcerptView {
    pub start_line: nat,
    pub lines: Seq<Seq<char>>,
    pub underline: (nat, nat),
    pub focal: nat,
}

impl View for YamlExcerpt {
    type V = YamlExcerptView;

    open spec fn view(&self) -> YamlExcerptView {
        YamlExcerptView {
            start_line: self.start_line as nat,
            lines: texts(self.lines@),
            underline: (self.underline.0 as nat, self.underline.1 as nat),
            focal: self.focal as nat,
        }
    }
}

impl Clone for YamlExcerpt {
    fn clone(&self) -> (r: Self)
        ensures
            r@ == self@,
    {
        YamlExcerpt {
            start_line: self.start_line,
            lines: copy_strings(&self.lines),
            underline: (self.underline.0, self.underline.1),
            focal: self.focal,
        }
    }
}

/// View of [`YamlDiagnostic`].
pub struct YamlDiagnosticView {
    pub file: Option<Seq<char>>,
    pub line: Option<usize>,
    pub col: Option<usize>,
    pub code: Seq<char>,
    pub message: Seq<char>,
    pub expected: Seq<Seq<char>>,
    pub suggestion: Option<Seq<char>>,
    pub note: Option<Seq<char>>,
    pub excerpt: Option<YamlExcerptView>,
}

impl View for YamlDiagnostic {
    type V = YamlDiagnosticView;

    open spec fn view(&self) -> YamlDiagnosticView {
        YamlDiagnosticView {
            file: crate::text::opt_text(self.file),
            line: self.line,
            col: self.col,
            code: self.code@,
            message: self.message@,
            expected: texts(self.expected@),
            suggestion: crate::text::opt_text(self.suggestion),
            note: crate::text::opt_text(self.note),
            excerpt: match self.excerpt {
                Some(e) => Some(e@),
                None => None,
            },
        }
    }
}

impl Clone for YamlDiagnostic {
    fn clone(&self) -> (r: Self)
        ensures
            r@ == self@,
    {
        YamlDiagnostic {
            file: copy_opt(&self.file),
            line: self.line,
            col: self.col,
            code: self.code.clone(),
            message: self.message.clone(),
            expected: copy_strings(&self.expected),
            suggestion: copy_opt(&self.suggestion),
            note: copy_opt(&self.note),
            excerpt: match &self.excerpt {
                Some(e) => Some(e.clone()),
                None => None,
            },
        }
    }
}

/// The smaller of two numbers.
pub open spec fn least(a: int, b: int) -> int {
    if a <= b {
        a
    } else {
        b
    }
}

/// The larger of two numbers.
pub open spec fn most(a: int, b: int) -> int {
    if a >= b {
        a
    } else {
        b
    }
}

fn min_of(a: usize, b: usize) -> (r: usize)
    ensures
        r == least(a as int, b as int),
{
    if a <= b {
        a
    } else {
        b
    }
}

fn max_of(a: usize, b: usize) -> (r: usize)
    ensures
        r == most(a as int, b as int),
{
    if a >= b {
        a
    } else {
        b
    }
}

/// One more, within the machine's range.
pub open spec fn succ(n: int) -> int {
    least(n + 1, usize::MAX as int)
}

pub fn succ_of(n: usize) -> (r: usize)
    ensures
        r == succ(n as int),
{
    if n < usize::MAX {
        n + 1
    } else {
        n
    }
}

/// The 0-based range underlined on a focal line of `len` characters for the
/// 1-based columns `col_start` (inclusive) and `col_end` (exclusive): clamped to
/// the line, to its end where `col_end` is not past `col_start`, and never empty.
pub open spec fn underline_range(len: int, col_start: int, col_end: int) -> (int, int) {
    let start = least(most(col_start - 1, 0), len);
    let stop = if col_end > col_start {
        least(most(col_end - 1, 0), len)
    } else {
        len
    };
    (start, least(most(stop, succ(start)), most(len, succ(start))))
}

/// The excerpt around the 1-based `line`: that line (the last one where the text
/// is shorter), the line before it and the line after it, as far as they exist.
pub open spec fn excerpt_of(
    source: Seq<char>,
    line: int,
    col_start: int,
    col_end: int,
) -> YamlExcerptView {
    let all = lines(source);
    let focal = least(line - 1, all.len() - 1);
    let first = most(focal - 1, 0);
    let last = least(focal + 1, all.len() - 1);
    let range = underline_range(all[focal].len() as int, col_start, col_end);
    YamlExcerptView {
        start_line: (first + 1) as nat,
        lines: all.subrange(first, last + 1),
        underline: (range.0 as nat, range.1 as nat),
        focal: (focal - first) as nat,
    }
}

impl YamlDiagnostic {
    /// A diagnostic with a code and a message, and nothing else.
    pub fn new(code: &str, message: &str) -> (r: Self)
        ensures
            r@ == (YamlDiagnosticView {
                file: None,
                line: None,
                col: None,
                code: code@,
                message: message@,
                expected: Seq::empty(),
                suggestion: None,
                note: None,
                excerpt: None,
            }),
    {
        let r = YamlDiagnostic {
            file: None,
            line: None,
            col: None,
            code: code.to_owned(),
            message: message.to_owned(),
            expected: Vec::new(),
            suggestion: None,
            note: None,
            excerpt: None,
        };
        proof {
            assert(texts(r.expected@) =~= Seq::empty());
        }
        r
    }

    /// The diagnostic with the path of its source.
    pub fn with_file(self, file: &str) -> (r: Self)
        ensures
            r@ == (YamlDiagnosticView { file: Some(file@), ..self@ }),
    {
        let mut d = self;
        d.file = Some(file.to_owned());
        d
    }

    /// The diagnostic with a 1-based line and column.
    pub fn with_location(self, line: usize, col: usize) -> (r: Self)
        ensures
            r@ == (YamlDiagnosticView { line: Some(line), col: Some(col), ..self@ }),
    {
        let mut d = self;
        d.line = Some(line);
        d.col = Some(col);
        d
    }

    /// The diagnostic with the shapes accepted at its place.
    pub fn with_expected(self, expected: Vec<&str>) -> (r: Self)
        ensures
            r@ == (YamlDiagnosticView { expected: slices(expected@), ..self@ }),
    {
        let mut d = self;
        let mut shapes: Vec<String> = Vec::new();
        let mut i: usize = 0;
        while i < expected.len()
            invariant
                i <= expected.len(),
                texts(shapes@) =~= slices(expected@).take(i as int),
            decreases expected.len() - i,
        {
            let ghost before = shapes@;
            let shape: &str = expected[i];
            shapes.push(shape.to_owned());
            proof {
                assert(texts(shapes@) =~= texts(before).push(shape@));
            }
            i += 1;
        }
        d.expected = shapes;
        proof {
            assert(texts(shapes@) =~= slices(expected@));
        }
        d
    }

    /// The diagnostic with a suggestion.
    pub fn with_suggestion(self, s: &str) -> (r: Self)
        ensures
            r@ == (YamlDiagnosticView { suggestion: Some(s@), ..self@ }),
    {
        let mut d = self;
        d.suggestion = Some(s.to_owned());
        d
    }

    /// The diagnostic with a note.
    pub fn with_note(self, s: &str) -> (r: Self)
        ensures
            r@ == (YamlDiagnosticView { note: Some(s@), ..self@ }),
    {
        let mut d = self;
        d.note = Some(s.to_owned());
        d
    }

    /// Attaches an excerpt of `yaml_str` around the 1-based `line`, underlining
    /// the 1-based columns from `col_start` up to `col_end`. Where the line is 0
    /// or the text has no lines, the diagnostic stays as it is.
    pub fn with_excerpt_from(
        self,
        yaml_str: &str,
        line: usize,
        col_start: usize,
        col_end: usize,
    ) -> (r: Self)
        ensures
            line == 0 || lines(yaml_str@).len() == 0 ==> r@ == self@,
            line > 0 && lines(yaml_str@).len() > 0 ==> r@ == (YamlDiagnosticView {
                excerpt: Some(
                    excerpt_of(yaml_str@, line as int, col_start as int, col_end as int),
                ),
                ..self@
            }),
    {
        if line == 0 {
            return self;
        }
        let chars = chars_of(yaml_str);
        let all = lines_of(chars.as_slice());
        proof {
            assert(all@.len() == lines(yaml_str@).len());
            crate::text::lemma_lines_len(yaml_str@, 0);
        }
        if all.len() == 0 {
            return self;
        }
        let focal_idx = min_of(line - 1, all.len() - 1);
        let start_idx: usize = if focal_idx == 0 {
            0
        } else {
            focal_idx - 1
        };
        let end_idx: usize = if focal_idx == all.len() - 1 {
            focal_idx
        } else {
            focal_idx + 1
        };
        let mut kept: Vec<String> = Vec::new();
        let mut i: usize = start_idx;
        while i <= end_idx
            invariant
                start_idx <= i <= end_idx + 1,
                end_idx < all.len(),
                line_views(all@) == lines(yaml_str@),
                texts(kept@) =~= lines(yaml_str@).subrange(start_idx as int, i as int),
            decreases end_idx + 1 - i,
        {
            let ghost before = kept@;
            kept.push(string_of(all[i].as_slice()));
            proof {
                assert(line_views(all@)[i as int] == all@[i as int]@);
                assert(texts(kept@) =~= texts(before).push(all@[i as int]@));
            }
            i += 1;
        }
        let focal_len = all[focal_idx].len();
        proof {
            assert(line_views(all@)[focal_idx as int] == all@[focal_idx as int]@);
        }
        let cs = min_of(col_start.saturating_sub(1), focal_len);
        let ce = if col_end > col_start {
            min_of(col_end.saturating_sub(1), focal_len)
        } else {
            focal_len
        };
        let ce = min_of(max_of(ce, succ_of(cs)), max_of(focal_len, succ_of(cs)));
        let excerpt = YamlExcerpt {
            start_line: start_idx + 1,
            lines: kept,
            underline: (cs, ce),
            focal: focal_idx - start_idx,
        };
        proof {
            assert(texts(kept@) =~= lines(yaml_str@).subrange(start_idx as int, end_idx + 1));
            assert(excerpt@ == excerpt_of(
                yaml_str@,
                line as int,
                col_start as int,
                col_end as int,
            ));
        }
        let mut d = self;
        d.excerpt = Some(excerpt);
        d
    }
}

// ---------------------------------------------------------------------
// Rendering
// ---------------------------------------------------------------------

/// Width of the column of line numbers.
pub open spec fn gutter_width(d: YamlDiagnosticView) -> nat {
    match d.excerpt {
        Some(e) => decimal((e.start_line + most(e.lines.len() - 1, 0)) as nat).len(),
        None => match d.line {
            Some(l) => decimal(l as nat).len(),
            None => 1,
        },
    }
}

/// The line that says where the diagnostic points.
pub open spec fn place_line(d: YamlDiagnosticView) -> Seq<char> {
    match d.file {
        None => Seq::empty(),
        Some(file) => "  --> "@ + file + (match (d.line, d.col) {
            (Some(l), Some(c)) => ":"@ + decimal(l as nat) + ":"@ + decimal(c as nat),
            (Some(l), None) => ":"@ + decimal(l as nat),
            _ => Seq::empty(),
        }) + "\n"@,
    }
}

/// One row per item from index `i` on, each behind the same prefix.
pub open spec fn item_rows(prefix: Seq<char>, items: Seq<Seq<char>>, i: int) -> Seq<char>
    decreases items.len() - i,
{
    if i < 0 || i >= items.len() {
        Seq::empty()
    } else {
        prefix + items[i] + "\n"@ + item_rows(prefix, items, i + 1)
    }
}

/// What stands in front of the carets: the line up to them, every character but
/// a tab replaced by a space.
pub open spec fn caret_indent(line: Seq<char>, start: nat) -> Seq<char> {
    line.take(least(start as int, line.len() as int)).map_values(
        |c: char|
            if c == '\t' {
                '\t'
            } else {
                ' '
            },
    )
}

/// The rows under the focal line: carets, and the accepted shapes.
pub open spec fn caret_rows(
    pad: Seq<char>,
    line: Seq<char>,
    underline: (nat, nat),
    expected: Seq<Seq<char>>,
) -> Seq<char> {
    let span = most(underline.1 - underline.0, 1) as nat;
    let head = pad + " | "@ + caret_indent(line, underline.0) + repeated('^', span);
    if expected.len() == 0 {
        head + "\n"@
    } else {
        head + " expected one of:\n"@ + item_rows(
            pad + " | "@ + repeated(' ', underline.0 + span + 1) + "- "@,
            expected,
            0,
        )
    }
}

/// The rows of an excerpt from its line `i` on.
pub open spec fn excerpt_rows(
    e: YamlExcerptView,
    expected: Seq<Seq<char>>,
    width: nat,
    i: int,
) -> Seq<char>
    decreases e.lines.len() - i,
{
    if i < 0 || i >= e.lines.len() {
        Seq::empty()
    } else {
        let number = decimal((e.start_line + i) as nat);
        let row = repeated(' ', most(width - number.len(), 0) as nat) + number + " | "@ + e.lines[i]
            + "\n"@;
        let under = if i == e.focal {
            caret_rows(repeated(' ', width), e.lines[i], e.underline, expected)
        } else {
            Seq::empty()
        };
        row + under + excerpt_rows(e, expected, width, i + 1)
    }
}

/// The part between the place and the hints.
pub open spec fn body_rows(d: YamlDiagnosticView) -> Seq<char> {
    let width = gutter_width(d);
    let pad = repeated(' ', width);
    match d.excerpt {
        Some(e) => pad + " |\n"@ + excerpt_rows(e, d.expected, width, 0),
        None => if d.expected.len() == 0 {
            Seq::empty()
        } else {
            pad + " = expected one of:\n"@ + item_rows(pad + "     - "@, d.expected, 0)
        },
    }
}

/// The suggestion and the note.
pub open spec fn hint_rows(d: YamlDiagnosticView) -> Seq<char> {
    let pad = repeated(' ', gutter_width(d));
    (match d.suggestion {
        Some(t) => pad + " = help: did you mean `"@ + t + "`?\n"@,
        None => Seq::empty(),
    }) + (match d.note {
        Some(t) => pad + " = note: "@ + t + "\n"@,
        None => Seq::empty(),
    })
}

/// A diagnostic as text.
pub open spec fn rendered(d: YamlDiagnosticView) -> Seq<char> {
    "error: "@ + d.message + "\n"@ + place_line(d) + body_rows(d) + hint_rows(d)
}

fn digits(n: u128) -> (r: usize)
    ensures
        r == decimal(n as nat).len(),
{
    decimal_text(n).as_str().unicode_len()
}

fn push_items(out: &mut String, prefix: &str, items: &Vec<String>)
    ensures
        final(out)@ == old(out)@ + item_rows(prefix@, texts(items@), 0),
{
    let ghost all = item_rows(prefix@, texts(items@), 0);
    let mut i: usize = 0;
    while i < items.len()
        invariant
            i <= items.len(),
            all == item_rows(prefix@, texts(items@), 0),
            old(out)@ + all =~= out@ + item_rows(prefix@, texts(items@), i as int),
        decreases items.len() - i,
    {
        out.append(prefix);
        out.append(items[i].as_str());
        out.append("\n");
        i += 1;
    }
    proof {
        assert(out@ + Seq::<char>::empty() =~= out@);
    }
}

fn push_caret_indent(out: &mut String, line: &[char], start: usize)
    ensures
        final(out)@ == old(out)@ + caret_indent(line@, start as nat),
{
    let ghost before = out@;
    let stop = min_of(start, line.len());
    let mut i: usize = 0;
    while i < stop
        invariant
            i <= stop,
            stop == least(start as int, line@.len() as int),
            out@ =~= before + caret_indent(line@, start as nat).take(i as int),
        decreases stop - i,
    {
        out.push(
            if line[i] == '\t' {
                '\t'
            } else {
                ' '
            },
        );
        i += 1;
    }
}

impl YamlDiagnostic {
    /// The diagnostic as text.
    pub fn render(&self) -> (r: String)
        ensures
            r@ == rendered(self@),
    {
        let mut out = String::new();
        out.append("error: ");
        out.append(self.message.as_str());
        out.append("\n");
        self.push_place(&mut out);
        self.push_body(&mut out);
        let mut pad = String::new();
        push_repeated(&mut pad, ' ', self.gutter());
        proof {
            assert(pad@ =~= repeated(' ', gutter_width(self@)));
        }
        let ghost before = out@;
        if let Some(s) = &self.suggestion {
            out.append(pad.as_str());
            out.append(" = help: did you mean `");
            out.append(s.as_str());
            out.append("`?\n");
        }
        if let Some(n) = &self.note {
            out.append(pad.as_str());
            out.append(" = note: ");
            out.append(n.as_str());
            out.append("\n");
        }
        proof {
            assert(out@ =~= before + hint_rows(self@));
            assert(out@ =~= rendered(self@));
        }
        out
    }

    fn gutter(&self) -> (r: usize)
        ensures
            r == gutter_width(self@),
    {
        match &self.excerpt {
            Some(e) => {
                let more: usize = e.lines.len().saturating_sub(1);
                digits(e.start_line as u128 + more as u128)
            },
            None => match self.line {
                Some(l) => digits(l as u128),
                None => 1,
            },
        }
    }

    fn push_place(&self, out: &mut String)
        ensures
            final(out)@ == old(out)@ + place_line(self@),
    {
        if let Some(file) = &self.file {
            out.append("  --> ");
            out.append(file.as_str());
            match (self.line, self.col) {
                (Some(l), Some(c)) => {
                    out.append(":");
                    push_decimal(out, l as u128);
                    out.append(":");
                    push_decimal(out, c as u128);
                },
                (Some(l), None) => {
                    out.append(":");
                    push_decimal(out, l as u128);
                },
                _ => {},
            }
            out.append("\n");
        }
        proof {
            assert(out@ =~= old(out)@ + place_line(self@));
        }
    }

    #[verifier::spinoff_prover]
    #[verifier::rlimit(40)]
    fn push_body(&self, out: &mut String)
        ensures
            final(out)@ == old(out)@ + body_rows(self@),
    {
        let width = self.gutter();
        let mut pad = String::new();
        push_repeated(&mut pad, ' ', width);
        proof {
            assert(pad@ =~= repeated(' ', width as nat));
        }
        match &self.excerpt {
            Some(e) => {
                out.append(pad.as_str());
                out.append(" |\n");
                let ghost start = out@;
                let ghost all = excerpt_rows(e@, texts(self.expected@), width as nat, 0);
                let mut i: usize = 0;
                while i < e.lines.len()
                    invariant
                        i <= e.lines.len(),
                        all == excerpt_rows(e@, texts(self.expected@), width as nat, 0),
                        pad@ == repeated(' ', width as nat),
                        start + all =~= out@ + excerpt_rows(
                            e@,
                            texts(self.expected@),
                            width as nat,
                            i as int,
                        ),
                    decreases e.lines.len() - i,
                {
                    let ghost before = out@;
                    let number = decimal_text(e.start_line as u128 + i as u128);
                    push_repeated(
                        out,
                        ' ',
                        width.saturating_sub(number.as_str().unicode_len()),
                    );
                    out.append(number.as_str());
                    out.append(" | ");
                    out.append(e.lines[i].as_str());
                    out.append("\n");
                    proof {
                        assert(e@.lines[i as int] == e.lines@[i as int]@);
                        assert(out@ =~= before + (repeated(
                            ' ',
                            most(width - number@.len(), 0) as nat,
                        ) + number@ + " | "@ + e@.lines[i as int] + "\n"@));
                    }
                    if i == e.focal {
                        let line = chars_of(e.lines[i].as_str());
                        push_carets(
                            out,
                            pad.as_str(),
                            line.as_slice(),
                            (e.underline.0, e.underline.1),
                            &self.expected,
                        );
                    }
                    i += 1;
                }
                proof {
                    assert(out@ + Seq::<char>::empty() =~= out@);
                    assert(out@ =~= old(out)@ + body_rows(self@));
                }
            },
            None => {
                if self.expected.len() > 0 {
                    out.append(pad.as_str());
                    out.append(" = expected one of:\n");
                    let mut prefix = pad.clone();
                    prefix.append("     - ");
                    push_items(out, prefix.as_str(), &self.expected);
                }
                proof {
                    assert(out@ =~= old(out)@ + body_rows(self@));
                }
            },
        }
    }
}

fn push_carets(
    out: &mut String,
    pad: &str,
    line: &[char],
    underline: (usize, usize),
    expected: &Vec<String>,
)
    ensures
        final(out)@ == old(out)@ + caret_rows(
            pad@,
            line@,
            (underline.0 as nat, underline.1 as nat),
            texts(expected@),
        ),
{
    let span = max_of(underline.1.saturating_sub(underline.0), 1);
    out.append(pad);
    out.append(" | ");
    push_caret_indent(out, line, underline.0);
    push_repeated(out, '^', span);
    if expected.len() == 0 {
        out.append("\n");
    } else {
        out.append(" expected one of:\n");
        let mut prefix = pad.to_owned();
        prefix.append(" | ");
        push_repeated(&mut prefix, ' ', underline.0);
        push_repeated(&mut prefix, ' ', span);
        prefix.append(" - ");
        proof {
            reveal_strlit(" - ");
            reveal_strlit("- ");
            assert(prefix@ =~= pad@ + " | "@ + repeated(' ', (underline.0 + span + 1) as nat)
                + "- "@);
        }
        push_items(out, prefix.as_str(), expected);
    }
    proof {
        assert(out@ =~= old(out)@ + caret_rows(
            pad@,
            line@,
            (underline.0 as nat, underline.1 as nat),
            texts(expected@),
        ));
    }
}

// ---------------------------------------------------------------------
// Close matches
// ---------------------------------------------------------------------

/// Whether two characters are the same up to ASCII case.
pub open spec fn same_letter(a: char, b: char) -> bool {
    lower_char(a) == lower_char(b)
}

/// Levenshtein distance up to ASCII case: the least number of insertions,
/// deletions and replacements that turn one text into the other.
pub open spec fn distance(a: Seq<char>, b: Seq<char>) -> nat
    decreases a.len() + b.len(),
{
    if a.len() == 0 {
        b.len()
    } else if b.len() == 0 {
        a.len()
    } else {
        let replaced = distance(a.drop_last(), b.drop_last()) + if same_letter(
            a.last(),
            b.last(),
        ) {
            0nat
        } else {
            1
        };
        let dropped = distance(a.drop_last(), b) + 1;
        let inserted = distance(a, b.drop_last()) + 1;
        least(least(dropped as int, inserted as int), replaced as int) as nat
    }
}

/// The distance used for matching: no text is close to an empty one.
pub open spec fn match_distance(a: Seq<char>, b: Seq<char>) -> nat {
    if a.len() == 0 || b.len() == 0 {
        usize::MAX as nat
    } else {
        distance(a, b)
    }
}

/// A distance is never larger than the longer of the two texts.
pub proof fn distance_is_bounded(a: Seq<char>, b: Seq<char>)
    ensures
        distance(a, b) <= most(a.len() as int, b.len() as int),
    decreases a.len() + b.len(),
{
    if a.len() > 0 && b.len() > 0 {
        distance_is_bounded(a.drop_last(), b.drop_last());
    }
}

/// The distance is symmetric.
pub proof fn distance_is_symmetric(a: Seq<char>, b: Seq<char>)
    ensures
        distance(a, b) == distance(b, a),
    decreases a.len() + b.len(),
{
    if a.len() > 0 && b.len() > 0 {
        distance_is_symmetric(a.drop_last(), b.drop_last());
        distance_is_symmetric(a.drop_last(), b);
        distance_is_symmetric(a, b.drop_last());
    }
}

/// The lengths of two texts differ by no more than their distance.
proof fn lemma_distance_covers_length(a: Seq<char>, b: Seq<char>)
    ensures
        a.len() - b.len() <= distance(a, b),
        b.len() - a.len() <= distance(a, b),
    decreases a.len() + b.len(),
{
    if a.len() > 0 && b.len() > 0 {
        lemma_distance_covers_length(a.drop_last(), b.drop_last());
        lemma_distance_covers_length(a.drop_last(), b);
        lemma_distance_covers_length(a, b.drop_last());
    }
}

/// Two texts have distance 0 exactly when they are the same up to ASCII case.
pub proof fn distance_zero_means_same(a: Seq<char>, b: Seq<char>)
    ensures
        distance(a, b) == 0 <==> crate::text::lower(a) == crate::text::lower(b),
    decreases a.len() + b.len(),
{
    let la = crate::text::lower(a);
    let lb = crate::text::lower(b);
    if a.len() == 0 || b.len() == 0 {
        if a.len() == b.len() {
            assert(la =~= lb);
        } else {
            assert(la.len() != lb.len());
        }
    } else {
        distance_zero_means_same(a.drop_last(), b.drop_last());
        lemma_distance_covers_length(a, b);
        let ra = crate::text::lower(a.drop_last());
        let rb = crate::text::lower(b.drop_last());
        assert(la =~= ra.push(lower_char(a.last())));
        assert(lb =~= rb.push(lower_char(b.last())));
        if la == lb {
            assert(ra =~= la.drop_last());
            assert(rb =~= lb.drop_last());
            assert(la.last() == lb.last());
        }
        if ra == rb && same_letter(a.last(), b.last()) {
            assert(la =~= lb);
        }
    }
}

/// Levenshtein distance up to ASCII case; `usize::MAX` if either text is empty.
pub fn edit_distance(a: &str, b: &str) -> (r: usize)
    ensures
        r == match_distance(a@, b@),
{
    let a = chars_of(a);
    let b = chars_of(b);
    if a.len() == 0 || b.len() == 0 {
        return usize::MAX;
    }
    let n = a.len();
    let m = b.len();
    // `row[k]` is the distance of the part of `a` read so far to `b[..=k]`.
    let mut row: Vec<usize> = Vec::new();
    let mut k: usize = 0;
    while k < m
        invariant
            k <= m,
            m == b.len(),
            row.len() == k,
            forall|j: int|
                0 <= j < k ==> #[trigger] row@[j] == distance(a@.take(0), b@.take(j + 1)),
        decreases m - k,
    {
        row.push(k + 1);
        k += 1;
    }
    let mut i: usize = 0;
    while i < n
        invariant
            i <= n,
            n == a.len(),
            m == b.len(),
            m > 0,
            row.len() == m,
            forall|j: int|
                0 <= j < m ==> #[trigger] row@[j] == distance(a@.take(i as int), b@.take(j + 1)),
        decreases n - i,
    {
        let ghost above = row@;
        let ghost done = a@.take(i as int);
        let ghost now = a@.take(i + 1);
        proof {
            assert(now.drop_last() =~= done);
        }
        let mut diagonal: usize = i;
        let mut left: usize = i + 1;
        let mut j: usize = 0;
        while j < m
            invariant
                j <= m,
                i < n,
                n == a.len(),
                m == b.len(),
                row.len() == m,
                above.len() == m,
                done == a@.take(i as int),
                now == a@.take(i + 1),
                now.drop_last() == done,
                diagonal == distance(done, b@.take(j as int)),
                left == distance(now, b@.take(j as int)),
                forall|k: int|
                    0 <= k < m ==> #[trigger] above[k] == distance(done, b@.take(k + 1)),
                forall|k: int| j <= k < m ==> #[trigger] row@[k] == above[k],
                forall|k: int|
                    0 <= k < j ==> #[trigger] row@[k] == distance(now, b@.take(k + 1)),
            decreases m - j,
        {
            let up = row[j];
            let cost: usize = if to_lower_char(a[i]) == to_lower_char(b[j]) {
                0
            } else {
                1
            };
            let best = min_of(
                min_of(up.saturating_add(1), left.saturating_add(1)),
                diagonal.saturating_add(cost),
            );
            proof {
                let next = b@.take(j + 1);
                assert(next.drop_last() =~= b@.take(j as int));
                assert(above[j as int] == distance(done, next));
                assert(up == distance(done, next));
                distance_is_bounded(now, next);
                assert(best == distance(now, next));
            }
            row.set(j, best);
            diagonal = up;
            left = best;
            j += 1;
        }
        i += 1;
    }
    proof {
        assert(a@.take(n as int) =~= a@);
        assert(b@.take(m as int) =~= b@);
        assert(row@[m - 1] == distance(a@.take(n as int), b@.take(m - 1 + 1)));
    }
    row[m - 1]
}

/// Whether `candidates[k]` is the closest to `input`, the first of its kind.
pub open spec fn is_closest(
    input: Seq<char>,
    candidates: Seq<Seq<char>>,
    max_distance: nat,
    k: int,
) -> bool {
    &&& 0 <= k < candidates.len()
    &&& match_distance(input, candidates[k]) <= max_distance
    &&& forall|j: int|
        0 <= j < candidates.len() ==> match_distance(input, candidates[k]) <= match_distance(
            input,
            #[trigger] candidates[j],
        )
    &&& forall|j: int|
        0 <= j < k ==> match_distance(input, candidates[k]) < match_distance(
            input,
            #[trigger] candidates[j],
        )
}

/// The candidate closest to `input` within `max_distance`, the first of those at
/// the least distance; `None` if none is within range.
pub open spec fn closest(
    input: Seq<char>,
    candidates: Seq<Seq<char>>,
    max_distance: nat,
) -> Option<Seq<char>> {
    if exists|k: int| is_closest(input, candidates, max_distance, k) {
        Some(candidates[choose|k: int| is_closest(input, candidates, max_distance, k)])
    } else {
        None
    }
}

proof fn lemma_closest_unique(
    input: Seq<char>,
    candidates: Seq<Seq<char>>,
    max_distance: nat,
    j: int,
    k: int,
)
    requires
        is_closest(input, candidates, max_distance, j),
        is_closest(input, candidates, max_distance, k),
    ensures
        j == k,
{
    let a = candidates[j];
    let b = candidates[k];
    assert(match_distance(input, a) <= match_distance(input, b));
    assert(match_distance(input, b) <= match_distance(input, a));
}

/// The candidate closest to `input` within `max_distance`: the first of those
/// at the least distance, and `None` exactly if none is within range.
pub fn closest_match<'a>(input: &str, candidates: &[&'a str], max_distance: usize) -> (r: Option<
    &'a str,
>)
    ensures
        match r {
            Some(best) => exists|k: int| #[trigger]
                is_closest(input@, slices(candidates@), max_distance as nat, k) && best
                    == candidates@[k],
            None => forall|k: int|
                0 <= k < candidates@.len() ==> match_distance(
                    input@,
                    #[trigger] slices(candidates@)[k],
                ) > max_distance,
        },
        opt_str(r) == closest(input@, slices(candidates@), max_distance as nat),
{
    let mut best: Option<usize> = None;
    let mut best_distance: usize = usize::MAX;
    let mut i: usize = 0;
    while i < candidates.len()
        invariant
            i <= candidates.len(),
            match best {
                Some(k) => k < i && best_distance == match_distance(
                    input@,
                    slices(candidates@)[k as int],
                ) && is_closest(
                    input@,
                    slices(candidates@).take(i as int),
                    max_distance as nat,
                    k as int,
                ),
                None => forall|k: int|
                    0 <= k < i ==> match_distance(input@, #[trigger] slices(candidates@)[k])
                        > max_distance,
            },
        decreases candidates.len() - i,
    {
        let d = edit_distance(input, candidates[i]);
        let ghost seen = slices(candidates@).take(i as int);
        let ghost more = slices(candidates@).take(i + 1);
        proof {
            assert(d == match_distance(input@, slices(candidates@)[i as int]));
            assert(more =~= seen.push(slices(candidates@)[i as int]));
            assert(forall|k: int| 0 <= k < i ==> #[trigger] seen[k] == slices(candidates@)[k]);
        }
        if d <= max_distance {
            let better = match best {
                Some(_) => d < best_distance,
                None => true,
            };
            if better {
                best = Some(i);
                best_distance = d;
                proof {
                    assert(is_closest(input@, more, max_distance as nat, i as int));
                }
            } else {
                proof {
                    assert(is_closest(input@, more, max_distance as nat, best->0 as int));
                }
            }
        } else if best.is_some() {
            proof {
                assert(is_closest(input@, more, max_distance as nat, best->0 as int));
            }
        }
        i += 1;
    }
    match best {
        Some(k) => {
            proof {
                assert(slices(candidates@).take(i as int) =~= slices(candidates@));
                assert(is_closest(input@, slices(candidates@), max_distance as nat, k as int));
                let j = choose|j: int|
                    is_closest(input@, slices(candidates@), max_distance as nat, j);
                lemma_closest_unique(
                    input@,
                    slices(candidates@),
                    max_distance as nat,
                    j,
                    k as int,
                );
            }
            Some(candidates[k])
        },
        None => {
            proof {
                assert forall|j: int|
                    !is_closest(input@, slices(candidates@), max_distance as nat, j) by {
                    if 0 <= j < candidates@.len() {
                        assert(match_distance(input@, slices(candidates@)[j]) > max_distance);
                    }
                }
            }
            None
        },
    }
}

// ---------------------------------------------------------------------
// Errors of the YAML parser
// ---------------------------------------------------------------------

/// The YAML parser's error, carried as it is.
#[verifier::external_type_specification]
#[verifier::external_body]
pub struct ExYamlError(serde_yaml::Error);

/// Line and column of a YAML parser error, where it has a place.
pub uninterp spec fn yaml_error_location(err: serde_yaml::Error) -> Option<(usize, usize)>;

/// `serde_yaml::Error::location`: line and column of the error's mark, both
/// counted from 1, and `None` for errors without a mark.
#[verifier::external_body]
fn location_of(err: &serde_yaml::Error) -> (r: Option<(usize, usize)>)
    ensures
        r == yaml_error_location(*err),
{
    err.location().map(|place| (place.line(), place.column()))
}

/// The text of a YAML parser error that has a place.
pub uninterp spec fn yaml_error_text(err: serde_yaml::Error) -> Seq<char>;

/// Whether a text can be that of a YAML parser error.
pub open spec fn is_error_text(text: Seq<char>, err: serde_yaml::Error) -> bool {
    yaml_error_location(err) is Some ==> text == yaml_error_text(err)
}

/// `ToString` for `serde_yaml::Error`: the error's text. It is named for errors
/// with a place alone: among the others are those of input and output, whose
/// text is the operating system's.
#[verifier::external_body]
fn text_of(err: &serde_yaml::Error) -> (r: String)
    ensures
        yaml_error_location(*err) is Some ==> r@ == yaml_error_text(*err),
{
    err.to_string()
}

/// A message without the ` at line N column M` that the YAML parser appends to
/// it.
pub open spec fn without_location(msg: Seq<char>) -> Seq<char> {
    match rfind(msg, " at line "@) {
        Some(i) => if i + " at line "@.len() < msg.len() && is_digit(
            msg[i + " at line "@.len() as int],
        ) {
            msg.take(i)
        } else {
            msg
        },
        None => msg,
    }
}

/// A message without the location that the YAML parser appends to it.
fn strip_trailing_location(msg: &str) -> (r: String)
    ensures
        r@ == without_location(msg@),
{
    let chars = chars_of(msg);
    let marker = chars_of(" at line ");
    match rfind_text(chars.as_slice(), marker.as_slice()) {
        Some(i) => {
            let tail = i + marker.len();
            if tail < chars.len() && '0' <= chars[tail] && chars[tail] <= '9' {
                proof {
                    assert(chars@.take(i as int) =~= chars@.subrange(0, i as int));
                }
                return string_of(slice_subrange(chars.as_slice(), 0, i));
            }
        },
        None => {},
    }
    msg.to_owned()
}

/// The diagnostic for a parser error with the given text and place.
pub open spec fn parse_failure(
    message: Seq<char>,
    location: Option<(usize, usize)>,
    source: Seq<char>,
    file: Option<Seq<char>>,
) -> YamlDiagnosticView {
    let plain = YamlDiagnosticView {
        file,
        line: None,
        col: None,
        code: "yaml.parse_failed"@,
        message,
        expected: Seq::empty(),
        suggestion: None,
        note: None,
        excerpt: None,
    };
    match location {
        None => plain,
        Some((line, col)) => YamlDiagnosticView {
            line: Some(line),
            col: Some(col),
            message: without_location(message),
            excerpt: if line > 0 && lines(source).len() > 0 {
                Some(excerpt_of(source, line as int, col as int, succ(col as int)))
            } else {
                None
            },
            ..plain
        },
    }
}

/// The diagnostic for a parser error with the given text and place: the place
/// is rendered from the diagnostic, so it is taken off the text.
pub fn parse_failure_diagnostic(
    message: &str,
    location: Option<(usize, usize)>,
    yaml_str: &str,
    source_path: Option<&str>,
) -> (r: YamlDiagnostic)
    ensures
        r@ == parse_failure(
            message@,
            location,
            yaml_str@,
            opt_str(source_path),
        ),
{
    let mut diag = YamlDiagnostic::new("yaml.parse_failed", message);
    if let Some(path) = source_path {
        diag = diag.with_file(path);
    }
    if let Some((line, col)) = location {
        diag.message = strip_trailing_location(message);
        diag = diag.with_location(line, col).with_excerpt_from(yaml_str, line, col, succ_of(col));
    }
    diag
}

/// Wraps an error of the YAML parser into a diagnostic, with the file path and,
/// where the error has a place, a source excerpt.
pub fn wrap_serde_yaml_error(
    err: &serde_yaml::Error,
    yaml_str: &str,
    source_path: Option<&str>,
) -> (r: YamlDiagnostic)
    ensures
        exists|message: Seq<char>| #[trigger]
            parse_failure(
                message,
                yaml_error_location(*err),
                yaml_str@,
                opt_str(source_path),
            ) == r@ && is_error_text(message, *err),
{
    let message = text_of(err);
    parse_failure_diagnostic(message.as_str(), location_of(err), yaml_str, source_path)
}

// ---------------------------------------------------------------------
// Laws of distances
// ---------------------------------------------------------------------

/// One more character moves a text by no more than one.
proof fn lemma_one_more(a: Seq<char>, c: char, b: Seq<char>)
    ensures
        distance(a.push(c), b) <= distance(a, b) + 1,
        distance(a, b) <= distance(a.push(c), b) + 1,
    decreases a.len() + b.len(),
{
    let longer = a.push(c);
    assert(longer.drop_last() =~= a);
    if b.len() > 0 {
        let front = b.drop_last();
        lemma_one_more(a, c, front);
        assert(distance(a, b) <= distance(a, front) + 1) by {
            if a.len() == 0 {
            }
        }
    }
}

/// A common last letter does not count.
pub proof fn common_endings_do_not_count(a: Seq<char>, b: Seq<char>, c: char, d: char)
    requires
        c == d || ('A' <= c <= 'Z' && d as u32 == c as u32 + 32) || ('A' <= d <= 'Z' && c as u32
            == d as u32 + 32),
    ensures
        distance(a.push(c), b.push(d)) == distance(a, b),
{
    crate::text::case_is_folded_letter_by_letter(c);
    crate::text::case_is_folded_letter_by_letter(d);
    let x = a.push(c);
    let y = b.push(d);
    assert(x.drop_last() =~= a);
    assert(y.drop_last() =~= b);
    lemma_one_more(a, c, b);
    lemma_one_more(b, d, a);
    distance_is_symmetric(a, b);
    distance_is_symmetric(a, y);
}

proof fn lemma_common_ending(a: Seq<char>, b: Seq<char>, tail: Seq<char>)
    ensures
        distance(a + tail, b + tail) == distance(a, b),
    decreases tail.len(),
{
    if tail.len() == 0 {
        assert(a + tail =~= a);
        assert(b + tail =~= b);
    } else {
        let front = tail.drop_last();
        lemma_common_ending(a, b, front);
        common_endings_do_not_count(a + front, b + front, tail.last(), tail.last());
        assert(a + tail =~= (a + front).push(tail.last()));
        assert(b + tail =~= (b + front).push(tail.last()));
    }
}

/// One character put in, taken out or changed for another letter, wherever it
/// stands, makes a distance of one.
pub proof fn single_edits_count_one(front: Seq<char>, c: char, d: char, back: Seq<char>)
    ensures
        distance(front + seq![c] + back, front + back) == 1,
        distance(front + back, front + seq![c] + back) == 1,
        !(c == d || ('A' <= c <= 'Z' && d as u32 == c as u32 + 32) || ('A' <= d <= 'Z' && c as u32
            == d as u32 + 32)) ==> distance(
            front + seq![c] + back,
            front + seq![d] + back,
        ) == 1,
{
    lemma_common_ending(front + seq![c], front, back);
    lemma_common_ending(front + seq![c], front + seq![d], back);
    distance_is_symmetric(front + seq![c] + back, front + back);
    let x = front.push(c);
    let y = front.push(d);
    assert(front + seq![c] =~= x);
    assert(front + seq![d] =~= y);
    distance_zero_means_same(front, front);
    lemma_one_more(front, c, front);
    lemma_distance_covers_length(x, front);
    assert(x.drop_last() =~= front);
    assert(y.drop_last() =~= front);
    distance_zero_means_same(x, y);
    if crate::text::lower(x) == crate::text::lower(y) {
        let n = front.len() as int;
        assert(crate::text::lower(x)[n] == crate::text::lower(y)[n]);
        crate::text::case_is_folded_letter_by_letter(c);
        crate::text::case_is_folded_letter_by_letter(d);
    }
}

/// Texts without a letter in common are as far apart as the longer one is long.
pub proof fn unlike_texts_are_far_apart(a: Seq<char>, b: Seq<char>)
    requires
        forall|i: int, j: int|
            0 <= i < a.len() && 0 <= j < b.len() ==> lower_char(#[trigger] a[i]) != lower_char(
                #[trigger] b[j],
            ),
    ensures
        a.len() >= b.len() ==> distance(a, b) == a.len(),
        a.len() <= b.len() ==> distance(a, b) == b.len(),
    decreases a.len() + b.len(),
{
    if a.len() > 0 && b.len() > 0 {
        let x = a.drop_last();
        let y = b.drop_last();
        assert(lower_char(a[a.len() - 1]) != lower_char(b[b.len() - 1]));
        assert forall|i: int, j: int| 0 <= i < x.len() && 0 <= j < b.len() implies lower_char(
            #[trigger] x[i],
        ) != lower_char(#[trigger] b[j]) by {
            assert(x[i] == a[i]);
        }
        assert forall|i: int, j: int| 0 <= i < a.len() && 0 <= j < y.len() implies lower_char(
            #[trigger] a[i],
        ) != lower_char(#[trigger] y[j]) by {
            assert(y[j] == b[j]);
        }
        assert forall|i: int, j: int| 0 <= i < x.len() && 0 <= j < y.len() implies lower_char(
            #[trigger] x[i],
        ) != lower_char(#[trigger] y[j]) by {
            assert(x[i] == a[i] && y[j] == b[j]);
        }
        unlike_texts_are_far_apart(x, y);
        unlike_texts_are_far_apart(x, b);
        unlike_texts_are_far_apart(a, y);
    }
}

/// The match is a candidate within range that none is closer than, and the first
/// of those; there is none exactly if no candidate is within range. No candidate
/// is within range of an empty text, nor an empty one of any text, below the
/// machine's limit.
pub proof fn the_closest_candidate_matches(
    input: Seq<char>,
    candidates: Seq<Seq<char>>,
    max_distance: nat,
    j: int,
)
    requires
        0 <= j < candidates.len(),
        max_distance < usize::MAX,
    ensures
        closest(input, candidates, max_distance) matches Some(best) ==> candidates.contains(best)
            && input.len() > 0 && best.len() > 0 && distance(input, best) <= max_distance && (
        candidates[j].len() > 0 ==> distance(input, best) <= distance(input, candidates[j])) && (
        distance(input, candidates[j]) == distance(input, best) && candidates[j].len() > 0 ==> exists|
            k: int,
        | 0 <= k <= j && #[trigger] candidates[k] == best),
        closest(input, candidates, max_distance) is None ==> input.len() == 0 || candidates[j].len()
            == 0 || distance(input, candidates[j]) > max_distance,
{
    if exists|k: int| is_closest(input, candidates, max_distance, k) {
        let k = choose|k: int| is_closest(input, candidates, max_distance, k);
        assert(candidates[k] == closest(input, candidates, max_distance)->0);
        assert(match_distance(input, candidates[k]) <= match_distance(input, candidates[j]));
        if k > j {
            assert(match_distance(input, candidates[k]) < match_distance(input, candidates[j]));
        }
    } else if input.len() > 0 && candidates[j].len() > 0 && distance(input, candidates[j])
        <= max_distance {
        lemma_some_closest(input, candidates, max_distance, candidates.len() as int, j);
    }
}

/// Among candidates of which one is within range, there is a closest.
proof fn lemma_some_closest(
    input: Seq<char>,
    candidates: Seq<Seq<char>>,
    max_distance: nat,
    n: int,
    j: int,
)
    requires
        0 <= j < n <= candidates.len(),
        match_distance(input, candidates[j]) <= max_distance,
    ensures
        exists|k: int| is_closest(input, candidates.take(n), max_distance, k),
        n == candidates.len() ==> exists|k: int| is_closest(input, candidates, max_distance, k),
    decreases n,
{
    let all = candidates.take(n);
    let d = |k: int| match_distance(input, candidates[k]);
    if n == 1 {
        assert(is_closest(input, all, max_distance, 0));
    } else {
        let front = candidates.take(n - 1);
        let last = n - 1;
        if exists|i: int| 0 <= i < n - 1 && match_distance(input, #[trigger] candidates[i])
            <= max_distance {
            let i = choose|i: int|
                0 <= i < n - 1 && match_distance(input, #[trigger] candidates[i]) <= max_distance;
            lemma_some_closest(input, candidates, max_distance, n - 1, i);
            let k = choose|k: int| is_closest(input, front, max_distance, k);
            assert forall|x: int| 0 <= x < n - 1 implies #[trigger] all[x] == front[x] by {}
            if d(last) < d(k) {
                assert forall|x: int| 0 <= x < all.len() implies match_distance(input, all[last])
                    <= match_distance(input, #[trigger] all[x]) by {
                    if x < last {
                        assert(match_distance(input, front[k]) <= match_distance(input, front[x]));
                    }
                }
                assert forall|x: int| 0 <= x < last implies match_distance(input, all[last])
                    < match_distance(input, #[trigger] all[x]) by {
                    assert(match_distance(input, front[k]) <= match_distance(input, front[x]));
                }
                assert(is_closest(input, all, max_distance, last));
            } else {
                assert forall|x: int| 0 <= x < all.len() implies match_distance(input, all[k])
                    <= match_distance(input, #[trigger] all[x]) by {
                    if x < last {
                        assert(match_distance(input, front[k]) <= match_distance(input, front[x]));
                    }
                }
                assert forall|x: int| 0 <= x < k implies match_distance(input, all[k])
                    < match_distance(input, #[trigger] all[x]) by {
                    assert(match_distance(input, front[k]) < match_distance(input, front[x]));
                }
                assert(is_closest(input, all, max_distance, k));
            }
        } else {
            assert(j == last);
            assert forall|x: int| 0 <= x < last implies match_distance(input, all[last])
                < match_distance(input, #[trigger] all[x]) by {
                assert(all[x] == candidates[x]);
                assert(!(match_distance(input, candidates[x]) <= max_distance));
            }
            assert(is_closest(input, all, max_distance, last));
        }
    }
    if n == candidates.len() {
        assert(all =~= candidates);
    }
}

// ---------------------------------------------------------------------
// Laws of excerpts
// ---------------------------------------------------------------------

/// The columns underlined are those asked for, from 1: up to the end, where one is
/// given behind the start, and else up to the end of the line. Past the line's end
/// one column is underlined.
pub proof fn the_columns_asked_for_are_underlined(len: int, col_start: int, col_end: int)
    requires
        0 <= len < usize::MAX,
    ensures
        1 <= col_start < col_end <= len + 1 ==> underline_range(len, col_start, col_end) == (
            col_start - 1,
            col_end - 1,
        ),
        1 <= col_start <= len && col_end <= col_start ==> underline_range(len, col_start, col_end)
            == (col_start - 1, len),
        1 <= col_start <= len && col_end > len + 1 ==> underline_range(len, col_start, col_end) == (
            col_start - 1,
            len,
        ),
        col_start > len ==> underline_range(len, col_start, col_end) == (len, len + 1),
{
}

/// An excerpt shows the line that it is about, with its neighbours, each under its
/// own number; of a line past the end it shows the last.
pub proof fn an_excerpt_shows_the_line(
    source: Seq<char>,
    line: int,
    col_start: int,
    col_end: int,
    k: int,
)
    requires
        line > 0,
        lines(source).len() > 0,
    ensures
        ({
            let e = excerpt_of(source, line, col_start, col_end);
            let n = lines(source).len() as int;
            let shown = if line <= n {
                line
            } else {
                n
            };
            &&& e.start_line + e.focal == shown
            &&& e.focal < e.lines.len()
            &&& e.lines[e.focal as int] == lines(source)[shown - 1]
            &&& shown > 1 ==> e.focal == 1
            &&& shown < n ==> e.lines.len() == e.focal + 2
            &&& shown == n ==> e.lines.len() == e.focal + 1
            &&& 0 <= k < e.lines.len() ==> e.lines[k] == lines(source)[e.start_line + k - 1]
        }),
{
}

/// A place at the end of a message is taken off: what follows the last
/// ` at line ` goes, if a digit comes first. Other messages stay.
pub proof fn a_place_at_the_end_is_taken_off(front: Seq<char>, c: char, back: Seq<char>)
    requires
        !crate::text::contains(" at line "@.drop_first() + seq![c] + back, " at line "@),
    ensures
        '0' <= c <= '9' ==> without_location(front + " at line "@ + seq![c] + back) == front,
        !('0' <= c <= '9') ==> without_location(front + " at line "@ + seq![c] + back) == front
            + " at line "@ + seq![c] + back,
{
    reveal_strlit(" at line ");
    let mark = " at line "@;
    let msg = front + mark + seq![c] + back;
    let n = front.len() as int;
    assert(msg.subrange(n, n + mark.len()) =~= mark);
    assert(crate::text::occurs_at(msg, mark, n));
    let tail = mark.drop_first() + seq![c] + back;
    assert forall|i: int| i > n implies !#[trigger] crate::text::occurs_at(msg, mark, i) by {
        if crate::text::occurs_at(msg, mark, i) {
            assert(tail.subrange(i - n - 1, i - n - 1 + mark.len()) =~= msg.subrange(
                i,
                i + mark.len(),
            ));
            assert(crate::text::occurs_at(tail, mark, i - n - 1));
        }
    }
    crate::text::lemma_rfind(msg, mark, msg.len() - mark.len(), n);
    assert(msg.take(n) =~= front);
    assert(msg[n + mark.len()] == c);
}

/// A failure of the parser keeps its message, without its place, and the file. It
/// points to the place that the parser gave, and shows the line there.
pub proof fn a_parse_failure_points_to_its_place(
    message: Seq<char>,
    line: usize,
    col: usize,
    source: Seq<char>,
    file: Option<Seq<char>>,
)
    ensures
        parse_failure(message, None, source, file).message == message,
        parse_failure(message, None, source, file).line is None,
        parse_failure(message, None, source, file).file == file,
        parse_failure(message, Some((line, col)), source, file).message == without_location(
            message,
        ),
        parse_failure(message, Some((line, col)), source, file).file == file,
        parse_failure(message, Some((line, col)), source, file).line == Some(line),
        parse_failure(message, Some((line, col)), source, file).col == Some(col),
        0 < line <= lines(source).len() ==> (parse_failure(
            message,
            Some((line, col)),
            source,
            file,
        ).excerpt matches Some(e) && e.lines[e.focal as int] == lines(source)[line - 1]
            && e.start_line + e.focal == line && (1 <= col <= lines(source)[line - 1].len()
            && lines(source)[line - 1].len() < usize::MAX ==> e.underline == (
            (col - 1) as nat,
            col as nat,
        ))),
{
}

/// The rendering starts with the message; where the file is known it says which,
/// with line and column; and it holds a suggestion and a note as they are.
pub proof fn a_rendering_tells_the_diagnostic(d: YamlDiagnosticView)
    ensures
        crate::text::starts_with(rendered(d), "error: "@ + d.message + "\n"@),
        d.file matches Some(file) ==> (d.line matches Some(l) ==> (d.col matches Some(c) ==> exists|
            i: int,
        | #[trigger]
            crate::text::occurs_at(
                rendered(d),
                "  --> "@ + file + ":"@ + decimal(l as nat) + ":"@ + decimal(c as nat) + "\n"@,
                i,
            ))),
        d.suggestion matches Some(t) ==> exists|i: int| #[trigger]
            crate::text::occurs_at(rendered(d), " = help: did you mean `"@ + t + "`?\n"@, i),
        d.note matches Some(t) ==> exists|i: int| #[trigger]
            crate::text::occurs_at(rendered(d), " = note: "@ + t + "\n"@, i),
{
    let head = "error: "@ + d.message + "\n"@;
    let text = rendered(d);
    assert(text.take(head.len() as int) =~= head);
    if d.file is Some && d.line is Some && d.col is Some {
        let row = "  --> "@ + d.file->0 + ":"@ + decimal(d.line->0 as nat) + ":"@ + decimal(
            d.col->0 as nat,
        ) + "\n"@;
        assert(place_line(d) =~= row);
        let i = head.len() as int;
        assert(text.subrange(i, i + row.len()) =~= row);
        assert(crate::text::occurs_at(text, row, i));
    }
    let pad = repeated(' ', gutter_width(d));
    let before = (head + place_line(d) + body_rows(d)).len() as int;
    if let Some(t) = d.suggestion {
        let row = " = help: did you mean `"@ + t + "`?\n"@;
        let i = before + pad.len();
        assert(text.subrange(i, i + row.len()) =~= row);
        assert(crate::text::occurs_at(text, row, i));
    }
    if let Some(t) = d.note {
        let row = " = note: "@ + t + "\n"@;
        let i = text.len() - row.len();
        assert(text.subrange(i, i + row.len()) =~= row);
        assert(crate::text::occurs_at(text, row, i));
    }
}

/// The row of an excerpt's line holds its number and its text; carets stand under
/// the underlined columns, behind as many columns as come before them.
pub proof fn an_excerpt_renders_its_lines(
    e: YamlExcerptView,
    expected: Seq<Seq<char>>,
    width: nat,
    i: int,
)
    requires
        0 <= i < e.lines.len(),
    ensures
        exists|at: int| #[trigger]
            crate::text::occurs_at(
                excerpt_rows(e, expected, width, 0),
                decimal((e.start_line + i) as nat) + " | "@ + e.lines[i] + "\n"@,
                at,
            ),
        caret_indent(e.lines[i], e.underline.0).len() == if e.underline.0 <= e.lines[i].len() {
            e.underline.0
        } else {
            e.lines[i].len()
        },
        forall|k: int|
            0 <= k < caret_indent(e.lines[i], e.underline.0).len() ==> #[trigger] caret_indent(
                e.lines[i],
                e.underline.0,
            )[k] == if e.lines[i][k] == '\t' {
                '\t'
            } else {
                ' '
            },
{
    lemma_row_there(e, expected, width, 0, i);
}

proof fn lemma_row_there(
    e: YamlExcerptView,
    expected: Seq<Seq<char>>,
    width: nat,
    from: int,
    i: int,
)
    requires
        0 <= from <= i < e.lines.len(),
    ensures
        exists|at: int| #[trigger]
            crate::text::occurs_at(
                excerpt_rows(e, expected, width, from),
                decimal((e.start_line + i) as nat) + " | "@ + e.lines[i] + "\n"@,
                at,
            ),
    decreases i - from,
{
    let whole = excerpt_rows(e, expected, width, from);
    let row = decimal((e.start_line + i) as nat) + " | "@ + e.lines[i] + "\n"@;
    let rest = excerpt_rows(e, expected, width, from + 1);
    if from == i {
        let number = decimal((e.start_line + i) as nat);
        let pad = repeated(' ', most(width - number.len(), 0) as nat);
        let at = pad.len() as int;
        assert(whole.subrange(at, at + row.len()) =~= row);
        assert(crate::text::occurs_at(whole, row, at));
    } else {
        lemma_row_there(e, expected, width, from + 1, i);
        let at = choose|at: int| #[trigger] crate::text::occurs_at(rest, row, at);
        let skipped = whole.len() - rest.len();
        assert(whole.skip(skipped) =~= rest);
        assert(whole.subrange(skipped + at, skipped + at + row.len()) =~= rest.subrange(
            at,
            at + row.len(),
        ));
        assert(crate::text::occurs_at(whole, row, skipped + at));
    }
}

/// Whether a text becomes another by one character put in, taken out or changed.
pub open spec fn one_edit_apart(b: Seq<char>, c: Seq<char>) -> bool {
    exists|front: Seq<char>, x: Seq<char>, y: Seq<char>, back: Seq<char>|
        #![trigger front + x + back, front + y + back]
        b == front + x + back && c == front + y + back && x.len() <= 1 && y.len() <= 1
}

/// A text at a distance from another is one edit away from a text that is closer by
/// one. So the distance is the number of edits of some way between them.
pub proof fn a_distance_is_walked_edit_by_edit(a: Seq<char>, b: Seq<char>) -> (c: Seq<char>)
    requires
        distance(a, b) > 0,
    ensures
        one_edit_apart(b, c),
        distance(a, c) == distance(a, b) - 1,
    decreases a.len() + b.len(),
{
    let none = Seq::<char>::empty();
    if b.len() == 0 {
        let last = seq![a.last()];
        assert(none + none + none =~= b);
        assert(none + last + none =~= last);
        common_endings_do_not_count(a.drop_last(), none, a.last(), a.last());
        assert(a.drop_last().push(a.last()) =~= a);
        assert(none.push(a.last()) =~= last);
        last
    } else {
        let front = b.drop_last();
        let last = seq![b.last()];
        assert(front + last + none =~= b);
        assert(front + none + none =~= front);
        if a.len() == 0 {
            front
        } else {
            let rest = a.drop_last();
            assert(rest.push(a.last()) =~= a);
            if distance(a, b) == distance(a, front) + 1 {
                front
            } else if distance(a, b) == distance(rest, b) + 1 {
                let c = b.push(a.last());
                assert(b + none + none =~= b);
                assert(b + seq![a.last()] + none =~= c);
                common_endings_do_not_count(rest, b, a.last(), a.last());
                c
            } else if !same_letter(a.last(), b.last()) {
                let c = front.push(a.last());
                assert(front + seq![a.last()] + none =~= c);
                common_endings_do_not_count(rest, front, a.last(), a.last());
                c
            } else {
                let inner = a_distance_is_walked_edit_by_edit(rest, front);
                let c = inner.push(b.last());
                lemma_same_letter(a.last(), b.last());
                common_endings_do_not_count(rest, inner, a.last(), b.last());
                let (f, x, y, k) = choose|f: Seq<char>, x: Seq<char>, y: Seq<char>, k: Seq<char>|
                    #![trigger f + x + k, f + y + k]
                    front == f + x + k && inner == f + y + k && x.len() <= 1 && y.len() <= 1;
                let longer = k.push(b.last());
                assert(f + x + longer =~= b);
                assert(f + y + longer =~= c);
                c
            }
        }
    }
}

proof fn lemma_same_letter(c: char, d: char)
    requires
        same_letter(c, d),
    ensures
        c == d || ('A' <= c <= 'Z' && d as u32 == c as u32 + 32) || ('A' <= d <= 'Z' && c as u32
            == d as u32 + 32),
{
    crate::text::case_is_folded_letter_by_letter(c);
    crate::text::case_is_folded_letter_by_letter(d);
}

/// One edit changes a distance by one at most. So no way between two texts has
/// fewer edits than their distance.
pub proof fn one_edit_changes_a_distance_by_one(a: Seq<char>, b: Seq<char>, c: Seq<char>)
    requires
        one_edit_apart(b, c),
    ensures
        distance(a, c) <= distance(a, b) + 1,
        distance(a, b) <= distance(a, c) + 1,
{
    let (front, x, y, back) = choose|front: Seq<char>, x: Seq<char>, y: Seq<char>, back: Seq<char>|
        #![trigger front + x + back, front + y + back]
        b == front + x + back && c == front + y + back && x.len() <= 1 && y.len() <= 1;
    lemma_edit_changes_by_one(a, front, x, y, back);
    lemma_edit_changes_by_one(a, front, y, x, back);
}

proof fn lemma_edit_changes_by_one(
    a: Seq<char>,
    front: Seq<char>,
    x: Seq<char>,
    y: Seq<char>,
    back: Seq<char>,
)
    requires
        x.len() <= 1,
        y.len() <= 1,
    ensures
        distance(a, front + y + back) <= distance(a, front + x + back) + 1,
    decreases a.len(), back.len(),
{
    let b = front + x + back;
    let c = front + y + back;
    if back.len() == 0 {
        lemma_last_edit(a, front, x, y);
        assert(b =~= front + x);
        assert(c =~= front + y);
    } else {
        let shorter = back.drop_last();
        let b1 = front + x + shorter;
        let c1 = front + y + shorter;
        assert(b.drop_last() =~= b1);
        assert(c.drop_last() =~= c1);
        assert(b.last() == back.last() && c.last() == back.last());
        lemma_edit_changes_by_one(a, front, x, y, shorter);
        if a.len() > 0 {
            lemma_edit_changes_by_one(a.drop_last(), front, x, y, back);
            lemma_edit_changes_by_one(a.drop_last(), front, x, y, shorter);
        }
    }
}

proof fn lemma_last_edit(a: Seq<char>, front: Seq<char>, x: Seq<char>, y: Seq<char>)
    requires
        x.len() <= 1,
        y.len() <= 1,
    ensures
        distance(a, front + y) <= distance(a, front + x) + 1,
    decreases a.len(),
{
    let b = front + x;
    let c = front + y;
    distance_is_symmetric(a, b);
    distance_is_symmetric(a, c);
    distance_is_symmetric(a, front);
    if x.len() == 0 {
        assert(b =~= front);
    } else {
        assert(b =~= front.push(x[0]));
        lemma_one_more(front, x[0], a);
    }
    if y.len() == 0 {
        assert(c =~= front);
    } else {
        assert(c =~= front.push(y[0]));
        lemma_one_more(front, y[0], a);
    }
    if x.len() == 1 && y.len() == 1 && a.len() > 0 {
        assert(b.drop_last() =~= front);
        assert(c.drop_last() =~= front);
        lemma_last_edit(a.drop_last(), front, x, y);
    }
}

/// Under the focal line stand as many carets as there are underlined columns,
/// behind as many columns as come before them; and each accepted shape has a row.
pub proof fn carets_stand_under_the_columns(
    pad: Seq<char>,
    line: Seq<char>,
    start: nat,
    end: nat,
    expected: Seq<Seq<char>>,
    i: int,
    k: int,
)
    requires
        start < end,
        start <= line.len(),
    ensures
        ({
            let row = caret_rows(pad, line, (start, end), expected);
            let at = (pad.len() + " | "@.len()) as int;
            &&& 0 <= k < start ==> row[at + k] == if line[k] == '\t' {
                '\t'
            } else {
                ' '
            }
            &&& start <= k < end ==> row[at + k] == '^'
            &&& k == end ==> row[at + k] != '^'
        }),
        0 <= i < expected.len() ==> exists|at: int| #[trigger]
            crate::text::occurs_at(
                caret_rows(pad, line, (start, end), expected),
                "- "@ + expected[i] + "\n"@,
                at,
            ),
{
    reveal_strlit("\n");
    reveal_strlit(" expected one of:\n");
    let span = (end - start) as nat;
    let head = pad + " | "@ + caret_indent(line, start) + repeated('^', span);
    let row = caret_rows(pad, line, (start, end), expected);
    assert(caret_indent(line, start).len() == start);
    if 0 <= i < expected.len() {
        let prefix = pad + " | "@ + repeated(' ', start + span + 1) + "- "@;
        lemma_item_row(prefix, expected, 0, i);
        let rows = item_rows(prefix, expected, 0);
        let item = prefix + expected[i] + "\n"@;
        let at = choose|at: int| #[trigger] crate::text::occurs_at(rows, item, at);
        let short = "- "@ + expected[i] + "\n"@;
        let before = (head + " expected one of:\n"@).len() as int;
        let skipped = (pad + " | "@ + repeated(' ', start + span + 1)).len() as int;
        assert(item.skip(skipped) =~= short);
        assert(rows.subrange(at, at + item.len()) == item);
        assert(row.subrange(before + at + skipped, before + at + skipped + short.len())
            =~= rows.subrange(at, at + item.len()).skip(skipped));
        assert(crate::text::occurs_at(row, short, before + at + skipped));
    }
}

proof fn lemma_item_row(prefix: Seq<char>, items: Seq<Seq<char>>, from: int, i: int)
    requires
        0 <= from <= i < items.len(),
    ensures
        exists|at: int| #[trigger]
            crate::text::occurs_at(
                item_rows(prefix, items, from),
                prefix + items[i] + "\n"@,
                at,
            ),
    decreases i - from,
{
    let whole = item_rows(prefix, items, from);
    let row = prefix + items[i] + "\n"@;
    let rest = item_rows(prefix, items, from + 1);
    if from == i {
        assert(whole.subrange(0, row.len() as int) =~= row);
        assert(crate::text::occurs_at(whole, row, 0));
    } else {
        lemma_item_row(prefix, items, from + 1, i);
        let at = choose|at: int| #[trigger] crate::text::occurs_at(rest, row, at);
        let skipped = whole.len() - rest.len();
        assert(whole.skip(skipped) =~= rest);
        assert(whole.subrange(skipped + at, skipped + at + row.len()) =~= rest.subrange(
            at,
            at + row.len(),
        ));
        assert(crate::text::occurs_at(whole, row, skipped + at));
    }
}

} // verus!
