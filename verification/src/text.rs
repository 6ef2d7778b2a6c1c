//! Text as a sequence of characters: trimming, searching, splitting into lines
//! and rendering numbers, each with an exact contract over `Seq<char>`.

use vstd::prelude::*;
use vstd::slice::slice_subrange;

verus! {

/// `String::push`: the character is appended at the end.
pub assume_specification[ String::push ](s: &mut String, c: char)
    ensures
        final(s)@ == old(s)@.push(c),
;

// ---------------------------------------------------------------------
// Characters
// ---------------------------------------------------------------------

/// The Unicode `White_Space` property.
pub open spec fn is_white_space(c: char) -> bool {
    let v = c as u32;
    ||| 0x9 <= v <= 0xD
    ||| v == 0x20
    ||| v == 0x85
    ||| v == 0xA0
    ||| v == 0x1680
    ||| 0x2000 <= v <= 0x200A
    ||| v == 0x2028
    ||| v == 0x2029
    ||| v == 0x202F
    ||| v == 0x205F
    ||| v == 0x3000
}

/// Whether `c` has the Unicode `White_Space` property.
pub fn white_space(c: char) -> (r: bool)
    ensures
        r == is_white_space(c),
{
    let v: u32 = c as u32;
    (0x9 <= v && v <= 0xD) || v == 0x20 || v == 0x85 || v == 0xA0 || v == 0x1680 || (0x2000 <= v
        && v <= 0x200A) || v == 0x2028 || v == 0x2029 || v == 0x202F || v == 0x205F || v == 0x3000
}

pub open spec fn is_digit(c: char) -> bool {
    '0' <= c <= '9'
}

pub open spec fn is_ascii_letter(c: char) -> bool {
    'a' <= c <= 'z' || 'A' <= c <= 'Z'
}

/// ASCII upper case; every other character is kept.
pub open spec fn upper_char(c: char) -> char {
    if 'a' <= c <= 'z' {
        ((c as u8 - 32) as u8) as char
    } else {
        c
    }
}

/// ASCII lower case; every other character is kept.
pub open spec fn lower_char(c: char) -> char {
    if 'A' <= c <= 'Z' {
        ((c as u8 + 32) as u8) as char
    } else {
        c
    }
}

pub fn to_upper_char(c: char) -> (r: char)
    ensures
        r == upper_char(c),
{
    if 'a' <= c && c <= 'z' {
        (c as u8 - 32) as char
    } else {
        c
    }
}

pub fn to_lower_char(c: char) -> (r: char)
    ensures
        r == lower_char(c),
{
    if 'A' <= c && c <= 'Z' {
        (c as u8 + 32) as char
    } else {
        c
    }
}

/// Number of bytes the UTF-8 encoding of `c` takes.
pub open spec fn char_bytes(c: char) -> nat {
    let v = c as u32;
    if v < 0x80 {
        1
    } else if v < 0x800 {
        2
    } else if v < 0x10000 {
        3
    } else {
        4
    }
}

/// Number of bytes the UTF-8 encoding of `s` takes.
pub open spec fn byte_len(s: Seq<char>) -> nat
    decreases s.len(),
{
    if s.len() == 0 {
        0
    } else {
        byte_len(s.drop_last()) + char_bytes(s.last())
    }
}

/// Number of bytes the UTF-8 encoding of a character takes.
pub fn bytes_of_char(c: char) -> (r: u128)
    ensures
        r == char_bytes(c),
        r <= 4,
{
    let v: u32 = c as u32;
    if v < 0x80 {
        1
    } else if v < 0x800 {
        2
    } else if v < 0x10000 {
        3
    } else {
        4
    }
}

/// Number of bytes the UTF-8 encoding of a text takes.
pub fn byte_count(s: &[char]) -> (r: u128)
    ensures
        r == byte_len(s@),
{
    let mut total: u128 = 0;
    let mut i: usize = 0;
    while i < s.len()
        invariant
            i <= s.len(),
            total == byte_len(s@.take(i as int)),
            total <= 4 * i,
        decreases s.len() - i,
    {
        proof {
            assert(s@.take(i as int + 1).drop_last() =~= s@.take(i as int));
        }
        total = total + bytes_of_char(s[i]);
        i += 1;
    }
    proof {
        assert(s@.take(i as int) =~= s@);
    }
    total
}

// ---------------------------------------------------------------------
// Strings and their characters
// ---------------------------------------------------------------------

/// The characters of a string, in order.
pub fn chars_of(s: &str) -> (r: Vec<char>)
    ensures
        r@ == s@,
{
    let mut r: Vec<char> = Vec::new();
    for c in it: s.chars()
        invariant
            r@ =~= it.seq().take(it.index() as int),
            it.seq() == s@,
    {
        r.push(c);
    }
    r
}

/// A string holding the given characters.
pub fn string_of(chars: &[char]) -> (r: String)
    ensures
        r@ == chars@,
{
    let mut r = String::new();
    let mut i: usize = 0;
    while i < chars.len()
        invariant
            i <= chars.len(),
            r@ =~= chars@.take(i as int),
        decreases chars.len() - i,
    {
        r.push(chars[i]);
        i += 1;
    }
    r
}

/// Appends the characters of a slice.
pub fn push_chars(out: &mut String, chars: &[char])
    ensures
        final(out)@ == old(out)@ + chars@,
{
    let ghost before = out@;
    let mut i: usize = 0;
    while i < chars.len()
        invariant
            i <= chars.len(),
            out@ =~= before + chars@.take(i as int),
        decreases chars.len() - i,
    {
        out.push(chars[i]);
        i += 1;
    }
}

/// Whether two slices hold the same characters.
pub fn same_chars(a: &[char], b: &[char]) -> (r: bool)
    ensures
        r == (a@ == b@),
{
    if a.len() != b.len() {
        return false;
    }
    let mut i: usize = 0;
    while i < a.len()
        invariant
            i <= a.len(),
            a.len() == b.len(),
            forall|k: int| 0 <= k < i ==> a@[k] == b@[k],
        decreases a.len() - i,
    {
        if a[i] != b[i] {
            return false;
        }
        i += 1;
    }
    assert(a@ =~= b@);
    true
}

/// Whether two strings hold the same characters.
pub fn same_text(a: &str, b: &str) -> (r: bool)
    ensures
        r == (a@ == b@),
{
    same_chars(chars_of(a).as_slice(), chars_of(b).as_slice())
}

// ---------------------------------------------------------------------
// Prefixes, suffixes, search
// ---------------------------------------------------------------------

pub open spec fn starts_with(s: Seq<char>, p: Seq<char>) -> bool {
    p.len() <= s.len() && s.take(p.len() as int) == p
}

pub open spec fn ends_with(s: Seq<char>, p: Seq<char>) -> bool {
    p.len() <= s.len() && s.skip(s.len() - p.len()) == p
}

/// Whether `p` stands in `s` at index `i`.
pub open spec fn occurs_at(s: Seq<char>, p: Seq<char>, i: int) -> bool {
    0 <= i && i + p.len() <= s.len() && s.subrange(i, i + p.len()) == p
}

/// The first index at or after `from` at which `p` stands in `s`.
pub open spec fn find_from(s: Seq<char>, p: Seq<char>, from: int) -> Option<int>
    decreases s.len() + 1 - from,
{
    if from < 0 || from + p.len() > s.len() {
        None
    } else if occurs_at(s, p, from) {
        Some(from)
    } else {
        find_from(s, p, from + 1)
    }
}

/// The first index at which `p` stands in `s`.
pub open spec fn find(s: Seq<char>, p: Seq<char>) -> Option<int> {
    find_from(s, p, 0)
}

/// The last index at or before `from` at which `p` stands in `s`.
pub open spec fn rfind_from(s: Seq<char>, p: Seq<char>, from: int) -> Option<int>
    decreases from + 1,
{
    if from < 0 {
        None
    } else if occurs_at(s, p, from) {
        Some(from)
    } else {
        rfind_from(s, p, from - 1)
    }
}

/// The last index at which `p` stands in `s`.
pub open spec fn rfind(s: Seq<char>, p: Seq<char>) -> Option<int> {
    rfind_from(s, p, s.len() - p.len())
}

/// Whether `p` stands anywhere in `s`.
pub open spec fn contains(s: Seq<char>, p: Seq<char>) -> bool {
    exists|i: int| occurs_at(s, p, i)
}

/// `find_from` answers the least index, and `None` exactly when there is none.
pub proof fn lemma_find_from(s: Seq<char>, p: Seq<char>, from: int)
    requires
        0 <= from,
    ensures
        match find_from(s, p, from) {
            Some(i) => from <= i && occurs_at(s, p, i) && forall|j: int|
                from <= j < i ==> !occurs_at(s, p, j),
            None => forall|j: int| from <= j ==> !occurs_at(s, p, j),
        },
    decreases s.len() + 1 - from,
{
    if from + p.len() <= s.len() && !occurs_at(s, p, from) {
        lemma_find_from(s, p, from + 1);
    }
}

/// Whether `p` stands in `s` at index `i`.
pub fn stands_at(s: &[char], p: &[char], i: usize) -> (r: bool)
    requires
        i <= s.len(),
    ensures
        r == occurs_at(s@, p@, i as int),
{
    if s.len() - i < p.len() {
        return false;
    }
    same_chars(slice_subrange(s, i, i + p.len()), p)
}

/// The first index at which `p` stands in `s`.
pub fn find_text(s: &[char], p: &[char]) -> (r: Option<usize>)
    ensures
        match r {
            Some(i) => find(s@, p@) == Some(i as int),
            None => find(s@, p@) is None,
        },
        r matches Some(i) ==> i + p.len() <= s.len(),
{
    let mut i: usize = 0;
    while i <= s.len() && p.len() <= s.len() - i
        invariant
            i <= s.len() + 1,
            find(s@, p@) == find_from(s@, p@, i as int),
        decreases s.len() + 1 - i,
    {
        if stands_at(s, p, i) {
            return Some(i);
        }
        if i == s.len() {
            assert(find_from(s@, p@, i + 1) is None);
            return None;
        }
        i += 1;
    }
    None
}

/// The last index at which `p` stands in `s`.
pub fn rfind_text(s: &[char], p: &[char]) -> (r: Option<usize>)
    ensures
        match r {
            Some(i) => rfind(s@, p@) == Some(i as int),
            None => rfind(s@, p@) is None,
        },
        r matches Some(i) ==> i + p.len() <= s.len(),
{
    if p.len() > s.len() {
        return None;
    }
    let mut i: usize = s.len() - p.len();
    loop
        invariant
            i + p.len() <= s.len(),
            rfind(s@, p@) == rfind_from(s@, p@, i as int),
        decreases i,
    {
        if stands_at(s, p, i) {
            return Some(i);
        }
        if i == 0 {
            assert(rfind_from(s@, p@, -1) is None);
            return None;
        }
        i -= 1;
    }
}

/// Whether `p` stands anywhere in `s`.
pub fn has_text(s: &[char], p: &[char]) -> (r: bool)
    ensures
        r == contains(s@, p@),
{
    let found = find_text(s, p);
    proof {
        lemma_find_from(s@, p@, 0);
        if found is Some {
            assert(occurs_at(s@, p@, found->0 as int));
        }
    }
    found.is_some()
}

pub fn has_prefix(s: &[char], p: &[char]) -> (r: bool)
    ensures
        r == starts_with(s@, p@),
{
    if p.len() > s.len() {
        return false;
    }
    proof {
        assert(s@.take(p@.len() as int) =~= s@.subrange(0, p@.len() as int));
    }
    same_chars(slice_subrange(s, 0, p.len()), p)
}

pub fn has_suffix(s: &[char], p: &[char]) -> (r: bool)
    ensures
        r == ends_with(s@, p@),
{
    if p.len() > s.len() {
        return false;
    }
    proof {
        assert(s@.skip(s@.len() - p@.len()) =~= s@.subrange(
            s@.len() - p@.len(),
            s@.len() as int,
        ));
    }
    same_chars(slice_subrange(s, s.len() - p.len(), s.len()), p)
}

/// Index of the first `c` in `s`, or the length of `s` where it has none.
pub open spec fn index_of(s: Seq<char>, c: char) -> int
    decreases s.len(),
{
    if s.len() == 0 || s[0] == c {
        0
    } else {
        1 + index_of(s.drop_first(), c)
    }
}

/// The text before the first `c`, or all of it where it has none.
pub open spec fn before(s: Seq<char>, c: char) -> Seq<char> {
    s.take(index_of(s, c))
}

proof fn lemma_index_of(s: Seq<char>, c: char, k: int)
    requires
        0 <= k <= s.len(),
        forall|i: int| 0 <= i < k ==> s[i] != c,
        k == s.len() || s[k] == c,
    ensures
        index_of(s, c) == k,
    decreases k,
{
    if k > 0 {
        lemma_index_of(s.drop_first(), c, k - 1);
    }
}

/// The text before the first `c`.
pub fn text_before(s: &[char], c: char) -> (r: &[char])
    ensures
        r@ == before(s@, c),
{
    let mut k: usize = 0;
    while k < s.len() && s[k] != c
        invariant
            k <= s.len(),
            forall|i: int| 0 <= i < k ==> s@[i] != c,
        decreases s.len() - k,
    {
        k += 1;
    }
    proof {
        lemma_index_of(s@, c, k as int);
        assert(s@.take(k as int) =~= s@.subrange(0, k as int));
    }
    slice_subrange(s, 0, k)
}

/// A text with every `from` replaced by `to`, from left to right and without
/// overlap.
pub open spec fn replaced(s: Seq<char>, from: Seq<char>, to: Seq<char>) -> Seq<char>
    decreases s.len(),
    via replaced_decreases
{
    if from.len() == 0 {
        s
    } else {
        match find(s, from) {
            None => s,
            Some(i) => s.take(i) + to + replaced(s.skip(i + from.len()), from, to),
        }
    }
}

#[via_fn]
proof fn replaced_decreases(s: Seq<char>, from: Seq<char>, to: Seq<char>) {
    lemma_find_from(s, from, 0);
}

/// A text with every `from` replaced by `to`.
pub fn replace_text(s: &[char], from: &[char], to: &[char]) -> (r: String)
    ensures
        r@ == replaced(s@, from@, to@),
{
    if from.len() == 0 {
        return string_of(s);
    }
    let mut out = String::new();
    let mut at: usize = 0;
    proof {
        assert(s@.skip(0) =~= s@);
        assert(out@ + replaced(s@, from@, to@) =~= replaced(s@, from@, to@));
    }
    loop
        invariant
            at <= s.len(),
            from.len() > 0,
            out@ + replaced(s@.skip(at as int), from@, to@) == replaced(s@, from@, to@),
        ensures
            at <= s.len(),
            out@ + s@.skip(at as int) == replaced(s@, from@, to@),
        decreases s.len() - at,
    {
        let rest = slice_subrange(s, at, s.len());
        let ghost before = out@;
        proof {
            assert(rest@ =~= s@.skip(at as int));
        }
        match find_text(rest, from) {
            None => {
                break;
            },
            Some(i) => {
                push_chars(&mut out, slice_subrange(rest, 0, i));
                push_chars(&mut out, to);
                let ghost left = rest@.skip(i + from@.len());
                at = at + i + from.len();
                proof {
                    assert(s@.skip(at as int) =~= left);
                    assert(rest@.subrange(0, i as int) =~= rest@.take(i as int));
                    assert(out@ + replaced(left, from@, to@) =~= before + (rest@.take(i as int)
                        + to@ + replaced(left, from@, to@)));
                }
            },
        }
    }
    push_chars(&mut out, slice_subrange(s, at, s.len()));
    proof {
        assert(s@.subrange(at as int, s@.len() as int) =~= s@.skip(at as int));
    }
    out
}

/// A text in which `from` does not stand is left as it is.
pub proof fn lemma_replaced_absent(s: Seq<char>, from: Seq<char>, to: Seq<char>)
    requires
        !contains(s, from),
    ensures
        replaced(s, from, to) == s,
{
    lemma_find_from(s, from, 0);
    if let Some(i) = find(s, from) {
        assert(occurs_at(s, from, i));
    }
}

// ---------------------------------------------------------------------
// Trimming
// ---------------------------------------------------------------------

/// `s` without its leading white space.
pub open spec fn trim_start(s: Seq<char>) -> Seq<char>
    decreases s.len(),
{
    if s.len() > 0 && is_white_space(s[0]) {
        trim_start(s.drop_first())
    } else {
        s
    }
}

/// `s` without its trailing white space.
pub open spec fn trim_end(s: Seq<char>) -> Seq<char>
    decreases s.len(),
{
    if s.len() > 0 && is_white_space(s.last()) {
        trim_end(s.drop_last())
    } else {
        s
    }
}

/// `s` without leading and trailing white space.
pub open spec fn trim(s: Seq<char>) -> Seq<char> {
    trim_end(trim_start(s))
}

proof fn lemma_trim_start(s: Seq<char>, k: int)
    requires
        0 <= k <= s.len(),
        forall|i: int| 0 <= i < k ==> is_white_space(s[i]),
        k == s.len() || !is_white_space(s[k]),
    ensures
        trim_start(s) == s.skip(k),
    decreases k,
{
    if k > 0 {
        lemma_trim_start(s.drop_first(), k - 1);
        assert(s.drop_first().skip(k - 1) =~= s.skip(k));
    } else {
        assert(s.skip(0) =~= s);
    }
}

/// Trailing white space is known by its start.
pub proof fn lemma_trim_end(s: Seq<char>, k: int)
    requires
        0 <= k <= s.len(),
        forall|i: int| k <= i < s.len() ==> is_white_space(s[i]),
        k == 0 || !is_white_space(s[k - 1]),
    ensures
        trim_end(s) == s.take(k),
    decreases s.len() - k,
{
    if k < s.len() {
        lemma_trim_end(s.drop_last(), k);
        assert(s.drop_last().take(k) =~= s.take(k));
    } else {
        assert(s.take(k) =~= s);
    }
}

pub fn trimmed_start(s: &[char]) -> (r: &[char])
    ensures
        r@ == trim_start(s@),
{
    let mut k: usize = 0;
    while k < s.len() && white_space(s[k])
        invariant
            k <= s.len(),
            forall|i: int| 0 <= i < k ==> is_white_space(s@[i]),
        decreases s.len() - k,
    {
        k += 1;
    }
    proof {
        lemma_trim_start(s@, k as int);
        assert(s@.skip(k as int) =~= s@.subrange(k as int, s@.len() as int));
    }
    slice_subrange(s, k, s.len())
}

pub fn trimmed_end(s: &[char]) -> (r: &[char])
    ensures
        r@ == trim_end(s@),
{
    let mut k: usize = s.len();
    while k > 0 && white_space(s[k - 1])
        invariant
            k <= s.len(),
            forall|i: int| k <= i < s.len() ==> is_white_space(s@[i]),
        decreases k,
    {
        k -= 1;
    }
    proof {
        lemma_trim_end(s@, k as int);
        assert(s@.take(k as int) =~= s@.subrange(0, k as int));
    }
    slice_subrange(s, 0, k)
}

pub fn trimmed(s: &[char]) -> (r: &[char])
    ensures
        r@ == trim(s@),
{
    trimmed_end(trimmed_start(s))
}

/// A string without its leading and trailing white space.
pub fn trimmed_text(s: &str) -> (r: String)
    ensures
        r@ == trim(s@),
{
    string_of(trimmed(chars_of(s).as_slice()))
}

/// What is left after trimming is never longer than the text.
pub proof fn lemma_trim_len(s: Seq<char>)
    ensures
        trim_start(s).len() <= s.len(),
        trim_end(s).len() <= s.len(),
        trim(s).len() <= s.len(),
    decreases s.len(),
{
    lemma_trim_start_len(s);
    lemma_trim_end_len(s);
    lemma_trim_end_len(trim_start(s));
}

proof fn lemma_trim_start_len(s: Seq<char>)
    ensures
        trim_start(s).len() <= s.len(),
    decreases s.len(),
{
    if s.len() > 0 {
        lemma_trim_start_len(s.drop_first());
    }
}

proof fn lemma_trim_end_len(s: Seq<char>)
    ensures
        trim_end(s).len() <= s.len(),
    decreases s.len(),
{
    if s.len() > 0 {
        lemma_trim_end_len(s.drop_last());
    }
}

// ---------------------------------------------------------------------
// Case
// ---------------------------------------------------------------------

/// ASCII upper case of a whole text.
pub open spec fn upper(s: Seq<char>) -> Seq<char> {
    s.map_values(|c: char| upper_char(c))
}

/// ASCII lower case of a whole text.
pub open spec fn lower(s: Seq<char>) -> Seq<char> {
    s.map_values(|c: char| lower_char(c))
}

pub fn upper_chars(s: &[char]) -> (r: Vec<char>)
    ensures
        r@ == upper(s@),
{
    let mut r: Vec<char> = Vec::new();
    let mut i: usize = 0;
    while i < s.len()
        invariant
            i <= s.len(),
            r@ =~= upper(s@).take(i as int),
        decreases s.len() - i,
    {
        r.push(to_upper_char(s[i]));
        i += 1;
    }
    r
}

pub fn lower_chars(s: &[char]) -> (r: Vec<char>)
    ensures
        r@ == lower(s@),
{
    let mut r: Vec<char> = Vec::new();
    let mut i: usize = 0;
    while i < s.len()
        invariant
            i <= s.len(),
            r@ =~= lower(s@).take(i as int),
        decreases s.len() - i,
    {
        r.push(to_lower_char(s[i]));
        i += 1;
    }
    r
}

/// Whether two texts are the same up to ASCII case.
pub open spec fn same_ignoring_case(a: Seq<char>, b: Seq<char>) -> bool {
    lower(a) == lower(b)
}

/// Whether two strings are the same up to ASCII case.
pub fn same_text_ignoring_case(a: &str, b: &str) -> (r: bool)
    ensures
        r == same_ignoring_case(a@, b@),
{
    same_chars(
        lower_chars(chars_of(a).as_slice()).as_slice(),
        lower_chars(chars_of(b).as_slice()).as_slice(),
    )
}

/// ASCII lower case of a string.
pub fn lower_text(s: &str) -> (r: String)
    ensures
        r@ == lower(s@),
{
    string_of(lower_chars(chars_of(s).as_slice()).as_slice())
}

// ---------------------------------------------------------------------
// Lines
// ---------------------------------------------------------------------

/// Index just past the line that starts at `from`: past its newline, or at the
/// end of the text.
pub open spec fn line_end(s: Seq<char>, from: int) -> int
    decreases s.len() - from,
{
    if from >= s.len() {
        s.len() as int
    } else if s[from] == '\n' {
        from + 1
    } else {
        line_end(s, from + 1)
    }
}

pub proof fn lemma_line_end(s: Seq<char>, from: int)
    requires
        0 <= from < s.len(),
    ensures
        from < line_end(s, from) <= s.len(),
        forall|i: int| from <= i < line_end(s, from) - 1 ==> s[i] != '\n',
        line_end(s, from) < s.len() ==> s[line_end(s, from) - 1] == '\n',
    decreases s.len() - from,
{
    reveal_with_fuel(line_end, 2);
    if s[from] != '\n' && from + 1 < s.len() {
        lemma_line_end(s, from + 1);
    }
}

/// Index just past the line that starts at `from`.
pub fn end_of_line(s: &[char], from: usize) -> (r: usize)
    requires
        from < s.len(),
    ensures
        r == line_end(s@, from as int),
        from < r <= s.len(),
{
    proof {
        lemma_line_end(s@, from as int);
    }
    let mut i: usize = from;
    while i < s.len() && s[i] != '\n'
        invariant
            from <= i <= s.len(),
            line_end(s@, from as int) == line_end(s@, i as int),
        decreases s.len() - i,
    {
        i += 1;
    }
    if i < s.len() {
        i + 1
    } else {
        i
    }
}

/// Number of newlines in `s`.
pub open spec fn newlines(s: Seq<char>) -> nat
    decreases s.len(),
{
    if s.len() == 0 {
        0
    } else {
        newlines(s.drop_last()) + if s.last() == '\n' {
            1nat
        } else {
            0
        }
    }
}

/// The 1-based number of the line that holds index `at`.
pub open spec fn line_number(s: Seq<char>, at: int) -> nat {
    newlines(s.take(at)) + 1
}

/// The 1-based number of the line that holds index `at`.
pub fn line_number_at(s: &[char], at: usize) -> (r: usize)
    requires
        at < s.len(),
    ensures
        r == line_number(s@, at as int),
{
    let mut count: usize = 0;
    let mut i: usize = 0;
    while i < at
        invariant
            i <= at,
            at < s.len(),
            count <= i,
            count == newlines(s@.take(i as int)),
        decreases at - i,
    {
        proof {
            assert(s@.take(i as int + 1).drop_last() =~= s@.take(i as int));
        }
        if s[i] == '\n' {
            count += 1;
        }
        i += 1;
    }
    count + 1
}

// ---------------------------------------------------------------------
// Numbers
// ---------------------------------------------------------------------

pub open spec fn digit(d: nat) -> char
    recommends
        d < 10,
{
    ((48 + d) as u8) as char
}

/// Decimal rendering of a number.
pub open spec fn decimal(n: nat) -> Seq<char>
    decreases n,
{
    if n < 10 {
        seq![digit(n)]
    } else {
        decimal(n / 10).push(digit(n % 10))
    }
}

pub fn push_decimal(out: &mut String, n: u128)
    ensures
        final(out)@ == old(out)@ + decimal(n as nat),
    decreases n,
{
    if n >= 10 {
        push_decimal(out, n / 10);
    }
    let d: u8 = (n % 10) as u8;
    out.push((48 + d) as char);
    proof {
        if n >= 10 {
            assert(out@ =~= old(out)@ + decimal(n as nat));
        } else {
            assert(out@ =~= old(out)@ + seq![digit(n as nat)]);
        }
    }
}

/// Decimal rendering of a number.
pub fn decimal_text(n: u128) -> (r: String)
    ensures
        r@ == decimal(n as nat),
{
    let mut r = String::new();
    push_decimal(&mut r, n);
    proof {
        assert(r@ =~= decimal(n as nat));
    }
    r
}

// ---------------------------------------------------------------------
// Repetition and joining
// ---------------------------------------------------------------------

/// `c` repeated `n` times.
pub open spec fn repeated(c: char, n: nat) -> Seq<char> {
    Seq::new(n, |i: int| c)
}

pub fn push_repeated(out: &mut String, c: char, n: usize)
    ensures
        final(out)@ == old(out)@ + repeated(c, n as nat),
{
    let ghost before = out@;
    let mut i: usize = 0;
    while i < n
        invariant
            i <= n,
            out@ =~= before + repeated(c, i as nat),
        decreases n - i,
    {
        out.push(c);
        i += 1;
    }
}

/// The texts of a list of strings.
pub open spec fn texts(v: Seq<String>) -> Seq<Seq<char>> {
    v.map_values(|t: String| t@)
}

/// The texts of a list of string slices.
pub open spec fn slices(v: Seq<&str>) -> Seq<Seq<char>> {
    Seq::new(v.len(), |i: int| v[i]@)
}

/// The text of an optional string.
pub open spec fn opt_text(o: Option<String>) -> Option<Seq<char>> {
    match o {
        Some(t) => Some(t@),
        None => None,
    }
}

/// The text of an optional string slice.
pub open spec fn opt_str(o: Option<&str>) -> Option<Seq<char>> {
    match o {
        Some(t) => Some(t@),
        None => None,
    }
}

/// Texts joined with a separator between them.
pub open spec fn joined(parts: Seq<Seq<char>>, separator: Seq<char>) -> Seq<char>
    decreases parts.len(),
{
    if parts.len() == 0 {
        Seq::empty()
    } else if parts.len() == 1 {
        parts[0]
    } else {
        joined(parts.drop_last(), separator) + separator + parts.last()
    }
}

/// The strings of a list, joined with a separator between them.
pub fn join_texts(parts: &[String], separator: &str) -> (r: String)
    ensures
        r@ == joined(texts(parts@), separator@),
{
    let mut out = String::new();
    let mut i: usize = 0;
    while i < parts.len()
        invariant
            i <= parts.len(),
            out@ == joined(texts(parts@).take(i as int), separator@),
        decreases parts.len() - i,
    {
        proof {
            assert(texts(parts@).take(i as int + 1).drop_last() =~= texts(parts@).take(i as int));
        }
        if i > 0 {
            out.append(separator);
        }
        out.append(parts[i].as_str());
        proof {
            assert(out@ =~= joined(texts(parts@).take(i as int + 1), separator@));
        }
        i += 1;
    }
    proof {
        assert(texts(parts@).take(parts.len() as int) =~= texts(parts@));
    }
    out
}

// ---------------------------------------------------------------------
// Lists of lines
// ---------------------------------------------------------------------

/// A line without its newline, and without a carriage return in front of it.
pub open spec fn without_newline(line: Seq<char>) -> Seq<char> {
    if line.len() > 0 && line.last() == '\n' {
        let kept = line.drop_last();
        if kept.len() > 0 && kept.last() == '\r' {
            kept.drop_last()
        } else {
            kept
        }
    } else {
        line
    }
}

/// The lines of `s` from index `from` on, without their line ends.
pub open spec fn lines_from(s: Seq<char>, from: int) -> Seq<Seq<char>>
    decreases s.len() - from,
    via lines_from_decreases
{
    if from < 0 || from >= s.len() {
        Seq::empty()
    } else {
        let end = line_end(s, from);
        seq![without_newline(s.subrange(from, end))] + lines_from(s, end)
    }
}

#[via_fn]
proof fn lines_from_decreases(s: Seq<char>, from: int) {
    if 0 <= from < s.len() {
        lemma_line_end(s, from);
    }
}

/// The lines of a text.
pub open spec fn lines(s: Seq<char>) -> Seq<Seq<char>> {
    lines_from(s, 0)
}

/// There are at most as many lines as characters.
pub proof fn lemma_lines_len(s: Seq<char>, from: int)
    requires
        0 <= from <= s.len(),
    ensures
        lines_from(s, from).len() <= s.len() - from,
    decreases s.len() - from,
{
    if from < s.len() {
        lemma_line_end(s, from);
        lemma_lines_len(s, line_end(s, from));
    }
}

/// The character lists of a list of lines.
pub open spec fn line_views(v: Seq<Vec<char>>) -> Seq<Seq<char>> {
    v.map_values(|t: Vec<char>| t@)
}

/// The lines of a text.
pub fn lines_of(s: &[char]) -> (r: Vec<Vec<char>>)
    ensures
        line_views(r@) == lines(s@),
{
    let mut r: Vec<Vec<char>> = Vec::new();
    let mut from: usize = 0;
    proof {
        assert(line_views(r@) + lines(s@) =~= lines(s@));
    }
    while from < s.len()
        invariant
            from <= s.len(),
            line_views(r@) + lines_from(s@, from as int) == lines(s@),
        decreases s.len() - from,
    {
        let end = end_of_line(s, from);
        let mut stop: usize = end;
        if s[stop - 1] == '\n' {
            stop -= 1;
            if stop > from && s[stop - 1] == '\r' {
                stop -= 1;
            }
        }
        let ghost before = r@;
        let line = copy_chars(slice_subrange(s, from, stop));
        proof {
            assert(line@ =~= without_newline(s@.subrange(from as int, end as int)));
        }
        r.push(line);
        proof {
            assert(line_views(r@) =~= line_views(before).push(line@));
            assert(line_views(r@) + lines_from(s@, end as int) =~= line_views(before) + lines_from(
                s@,
                from as int,
            ));
        }
        from = end;
    }
    proof {
        assert(line_views(r@) + Seq::<Seq<char>>::empty() =~= line_views(r@));
    }
    r
}

/// A copy of a list of characters.
pub fn copy_chars(s: &[char]) -> (r: Vec<char>)
    ensures
        r@ == s@,
{
    let mut r: Vec<char> = Vec::new();
    let mut i: usize = 0;
    while i < s.len()
        invariant
            i <= s.len(),
            r@ =~= s@.take(i as int),
        decreases s.len() - i,
    {
        r.push(s[i]);
        i += 1;
    }
    r
}

/// A copy of a list of strings.
pub fn copy_strings(v: &Vec<String>) -> (r: Vec<String>)
    ensures
        r@ == v@,
{
    let mut r: Vec<String> = Vec::new();
    let mut i: usize = 0;
    while i < v.len()
        invariant
            i <= v.len(),
            r@ =~= v@.take(i as int),
        decreases v.len() - i,
    {
        r.push(v[i].clone());
        i += 1;
    }
    r
}

/// A copy of an optional string.
pub fn copy_opt(o: &Option<String>) -> (r: Option<String>)
    ensures
        r == *o,
{
    match o {
        Some(t) => Some(t.clone()),
        None => None,
    }
}

// ---------------------------------------------------------------------
// Laws
// ---------------------------------------------------------------------

/// Blanks and line ends are white space; no printable ASCII character is.
pub proof fn printable_ascii_is_no_white_space(c: char)
    ensures
        c == ' ' || c == '\t' || c == '\n' || c == '\r' ==> is_white_space(c),
        '!' <= c <= '~' ==> !is_white_space(c),
{
}

/// Trimming takes the white space around a text off, and nothing else.
pub proof fn trimming_leaves_the_core(pre: Seq<char>, core: Seq<char>, post: Seq<char>)
    requires
        forall|i: int| 0 <= i < pre.len() ==> is_white_space(#[trigger] pre[i]),
        forall|i: int| 0 <= i < post.len() ==> is_white_space(#[trigger] post[i]),
        core.len() > 0 ==> !is_white_space(core[0]) && !is_white_space(core.last()),
    ensures
        trim(pre + core + post) == core,
        core.len() > 0 ==> trim_start(pre + core + post) == core + post,
        core.len() > 0 ==> trim_end(pre + core + post) == pre + core,
{
    let whole = pre + core + post;
    if core.len() > 0 {
        assert forall|i: int| 0 <= i < pre.len() implies is_white_space(whole[i]) by {
            assert(whole[i] == pre[i]);
        }
        assert(whole[pre.len() as int] == core[0]);
        lemma_trim_start(whole, pre.len() as int);
        assert(whole.skip(pre.len() as int) =~= core + post);
        let tail = core + post;
        assert forall|i: int| core.len() <= i < tail.len() implies is_white_space(tail[i]) by {
            assert(tail[i] == post[i - core.len()]);
        }
        lemma_trim_end(tail, core.len() as int);
        assert(tail.take(core.len() as int) =~= core);
        assert forall|i: int| pre.len() + core.len() <= i < whole.len() implies is_white_space(
            whole[i],
        ) by {
            assert(whole[i] == post[i - pre.len() - core.len()]);
        }
        assert(whole[pre.len() + core.len() - 1] == core.last());
        lemma_trim_end(whole, (pre.len() + core.len()) as int);
        assert(whole.take((pre.len() + core.len()) as int) =~= pre + core);
    } else {
        assert forall|i: int| 0 <= i < whole.len() implies is_white_space(whole[i]) by {
            if i < pre.len() {
                assert(whole[i] == pre[i]);
            } else {
                assert(whole[i] == post[i - pre.len()]);
            }
        }
        lemma_trim_start(whole, whole.len() as int);
        assert(whole.skip(whole.len() as int) =~= Seq::<char>::empty());
        assert(trim(whole) =~= core);
    }
}

/// ASCII case is folded letter by letter, thirty-two code points apart; no other
/// character changes.
pub proof fn case_is_folded_letter_by_letter(c: char)
    ensures
        'A' <= c <= 'Z' ==> lower_char(c) as u32 == c as u32 + 32 && 'a' <= lower_char(c) <= 'z',
        'a' <= c <= 'z' ==> upper_char(c) as u32 == c as u32 - 32 && 'A' <= upper_char(c) <= 'Z',
        !('A' <= c <= 'Z') ==> lower_char(c) == c,
        !('a' <= c <= 'z') ==> upper_char(c) == c,
{
}

/// Texts are the same up to ASCII case exactly if they have the same length and,
/// at every index, characters that are equal or one letter in two cases.
pub proof fn case_does_not_count(a: Seq<char>, b: Seq<char>)
    ensures
        same_ignoring_case(a, b) <==> a.len() == b.len() && forall|i: int|
            0 <= i < a.len() ==> #[trigger] a[i] == #[trigger] b[i] || ('A' <= a[i] <= 'Z'
                && b[i] as u32 == a[i] as u32 + 32) || ('A' <= b[i] <= 'Z' && a[i] as u32
                == b[i] as u32 + 32),
{
    if same_ignoring_case(a, b) {
        assert(lower(a).len() == lower(b).len());
        assert forall|i: int| 0 <= i < a.len() implies #[trigger] a[i] == #[trigger] b[i] || (
        'A' <= a[i] <= 'Z' && b[i] as u32 == a[i] as u32 + 32) || ('A' <= b[i] <= 'Z'
            && a[i] as u32 == b[i] as u32 + 32) by {
            assert(lower(a)[i] == lower(b)[i]);
            case_is_folded_letter_by_letter(a[i]);
            case_is_folded_letter_by_letter(b[i]);
        }
    }
    if a.len() == b.len() && forall|i: int|
        0 <= i < a.len() ==> #[trigger] a[i] == #[trigger] b[i] || ('A' <= a[i] <= 'Z'
            && b[i] as u32 == a[i] as u32 + 32) || ('A' <= b[i] <= 'Z' && a[i] as u32 == b[i] as u32
            + 32) {
        assert forall|i: int| 0 <= i < a.len() implies lower(a)[i] == lower(b)[i] by {
            assert(a[i] == b[i] || ('A' <= a[i] <= 'Z' && b[i] as u32 == a[i] as u32 + 32) || (
            'A' <= b[i] <= 'Z' && a[i] as u32 == b[i] as u32 + 32));
            case_is_folded_letter_by_letter(a[i]);
            case_is_folded_letter_by_letter(b[i]);
        }
        assert(lower(a) =~= lower(b));
    }
}

/// Newlines are counted: those of two texts add up, a newline is one, and any
/// other character is none.
pub proof fn newlines_add_up(a: Seq<char>, b: Seq<char>, c: char)
    ensures
        newlines(a + b) == newlines(a) + newlines(b),
        newlines(seq![c]) == if c == '\n' {
            1nat
        } else {
            0
        },
    decreases b.len(),
{
    assert(seq![c].drop_last() =~= Seq::<char>::empty());
    assert(newlines(Seq::<char>::empty()) == 0);
    if b.len() > 0 {
        newlines_add_up(a, b.drop_last(), c);
        assert((a + b).drop_last() =~= a + b.drop_last());
    } else {
        assert(a + b =~= a);
    }
}

/// The number that decimal digits stand for.
pub open spec fn number_of(digits: Seq<char>) -> int
    decreases digits.len(),
{
    if digits.len() == 0 {
        0
    } else {
        number_of(digits.drop_last()) * 10 + (digits.last() as u32 - '0' as u32)
    }
}

/// A number's decimal rendering holds digits only, has no leading zero but for
/// zero itself, and stands for the number.
pub proof fn decimals_stand_for_their_number(n: nat)
    ensures
        decimal(n).len() > 0,
        number_of(decimal(n)) == n,
        forall|i: int| 0 <= i < decimal(n).len() ==> '0' <= #[trigger] decimal(n)[i] <= '9',
        n > 0 ==> decimal(n)[0] != '0',
    decreases n,
{
    if n < 10 {
        assert(decimal(n).drop_last() =~= Seq::<char>::empty());
        assert(number_of(Seq::<char>::empty()) == 0);
        assert(decimal(n).last() as u32 == 48 + n);
    } else {
        decimals_stand_for_their_number(n / 10);
        let front = decimal(n / 10);
        assert(decimal(n).drop_last() =~= front);
        assert(decimal(n).last() as u32 == 48 + n % 10);
        assert forall|i: int| 0 <= i < decimal(n).len() implies '0' <= #[trigger] decimal(n)[i]
            <= '9' by {
            if i < front.len() {
                assert(decimal(n)[i] == front[i]);
            }
        }
        assert(decimal(n)[0] == front[0]);
    }
}

/// The first of several joined texts is followed by the separator and the others,
/// joined.
pub proof fn joining_puts_the_separator_between(
    first: Seq<char>,
    rest: Seq<Seq<char>>,
    separator: Seq<char>,
)
    ensures
        joined(seq![first], separator) == first,
        rest.len() > 0 ==> joined(seq![first] + rest, separator) == first + separator + joined(
            rest,
            separator,
        ),
    decreases rest.len(),
{
    if rest.len() == 1 {
        assert((seq![first] + rest).drop_last() =~= seq![first]);
        assert((seq![first] + rest).last() == rest[0]);
        assert(joined(seq![first], separator) == first);
        assert(joined(seq![first] + rest, separator) =~= first + separator + joined(
            rest,
            separator,
        ));
    } else if rest.len() > 1 {
        joining_puts_the_separator_between(first, rest.drop_last(), separator);
        assert((seq![first] + rest).drop_last() =~= seq![first] + rest.drop_last());
        assert((seq![first] + rest).last() == rest.last());
        assert(joined(seq![first] + rest, separator) =~= first + separator + joined(
            rest,
            separator,
        ));
    }
}

/// A text that holds `from` at `i`, and nowhere before, is replaced there and in
/// what follows.
pub proof fn replacing_goes_on_behind(s: Seq<char>, from: Seq<char>, to: Seq<char>, i: int)
    requires
        from.len() > 0,
        0 <= i,
        i + from.len() <= s.len(),
        s.subrange(i, i + from.len()) == from,
        forall|j: int| 0 <= j < i ==> !#[trigger] occurs_at(s, from, j),
    ensures
        replaced(s, from, to) == s.take(i) + to + replaced(s.skip(i + from.len()), from, to),
{
    lemma_find_from(s, from, 0);
    assert(occurs_at(s, from, i));
}

/// Lines are split at newlines: a text without one, ended by one, is a line of
/// its own in front of those that follow. A carriage return before the newline
/// goes with it.
pub proof fn newlines_split_lines(line: Seq<char>, rest: Seq<char>)
    requires
        forall|i: int| 0 <= i < line.len() ==> #[trigger] line[i] != '\n',
    ensures
        line.len() > 0 ==> lines(line) == seq![line],
        lines(Seq::empty()).len() == 0,
        lines(line.push('\n') + rest) == seq![
            if line.len() > 0 && line.last() == '\r' {
                line.drop_last()
            } else {
                line
            },
        ] + lines(rest),
{
    if line.len() > 0 {
        lemma_line_end_is(line, 0, line.len() as int);
        assert(line.subrange(0, line.len() as int) =~= line);
        assert(lines_from(line, line.len() as int) =~= Seq::empty());
        assert(lines(line) =~= seq![line]);
    }
    let whole = line.push('\n') + rest;
    let end = line.len() + 1;
    assert forall|i: int| 0 <= i < line.len() implies whole[i] != '\n' by {
        assert(whole[i] == line[i]);
    }
    lemma_line_end_is(whole, 0, end as int);
    assert(whole.subrange(0, end as int) =~= line.push('\n'));
    assert(line.push('\n').drop_last() =~= line);
    assert(whole.skip(end as int) =~= rest);
    lemma_lines_shift(whole, rest, end as int, 0);
}

/// A line ends behind its first newline, or with the text.
pub proof fn lemma_line_end_is(s: Seq<char>, from: int, end: int)
    requires
        0 <= from < end <= s.len(),
        forall|i: int| from <= i < end - 1 ==> s[i] != '\n',
        s[end - 1] == '\n' || end == s.len(),
    ensures
        line_end(s, from) == end,
    decreases end - from,
{
    if s[from] != '\n' {
        if from + 1 < end {
            lemma_line_end_is(s, from + 1, end);
        } else {
            assert(line_end(s, from + 1) == s.len());
        }
    } else if from + 1 < end {
        assert(s[from] != '\n');
    }
}

/// The last place of a text is known by there being none behind it.
pub proof fn lemma_rfind(s: Seq<char>, p: Seq<char>, from: int, at: int)
    requires
        0 <= at <= from,
        occurs_at(s, p, at),
        forall|i: int| i > at ==> !#[trigger] occurs_at(s, p, i),
    ensures
        rfind_from(s, p, from) == Some(at),
    decreases from,
{
    if from > at {
        lemma_rfind(s, p, from - 1, at);
    }
}

/// `rfind_from` answers a place of the text.
pub proof fn lemma_rfind_from(s: Seq<char>, p: Seq<char>, from: int)
    ensures
        rfind_from(s, p, from) matches Some(i) ==> 0 <= i <= from && occurs_at(s, p, i) && forall|
            j: int,
        | i < j <= from ==> !#[trigger] occurs_at(s, p, j),
        rfind_from(s, p, from) is None ==> forall|j: int|
            0 <= j <= from ==> !#[trigger] occurs_at(s, p, j),
    decreases from + 1,
{
    if from >= 0 && !occurs_at(s, p, from) {
        lemma_rfind_from(s, p, from - 1);
    }
}

/// The text before the first `c` is known by its end.
pub proof fn lemma_text_before(s: Seq<char>, c: char, k: int)
    requires
        0 <= k <= s.len(),
        forall|i: int| 0 <= i < k ==> s[i] != c,
        k == s.len() || s[k] == c,
    ensures
        before(s, c) == s.take(k),
{
    lemma_index_of(s, c, k);
}

/// A text that is not empty takes at least a byte.
pub proof fn lemma_byte_len_positive(s: Seq<char>)
    ensures
        s.len() > 0 ==> byte_len(s) > 0,
{
}

proof fn lemma_lines_shift(s: Seq<char>, rest: Seq<char>, by: int, from: int)
    requires
        0 <= by <= s.len(),
        0 <= from <= rest.len(),
        s.skip(by) == rest,
    ensures
        lines_from(s, by + from) == lines_from(rest, from),
    decreases rest.len() - from,
{
    if from < rest.len() {
        lemma_line_end(rest, from);
        let end = line_end(rest, from);
        assert forall|i: int| by + from <= i < by + end - 1 implies s[i] != '\n' by {
            assert(s[i] == rest[i - by]);
        }
        assert(s[by + end - 1] == rest[end - 1]);
        lemma_line_end_is(s, by + from, by + end);
        assert(s.subrange(by + from, by + end) =~= rest.subrange(from, end));
        lemma_lines_shift(s, rest, by, end);
    }
}

/// Lines are counted from one, and a newline starts the next.
pub proof fn lines_are_counted_from_one(s: Seq<char>, at: int)
    requires
        0 <= at < s.len(),
    ensures
        line_number(s, 0) == 1,
        line_number(s, at + 1) == line_number(s, at) + if s[at] == '\n' {
            1nat
        } else {
            0
        },
{
    assert(s.take(0) =~= Seq::<char>::empty());
    assert(newlines(Seq::<char>::empty()) == 0);
    assert(s.take(at + 1) =~= s.take(at) + seq![s[at]]);
    newlines_add_up(s.take(at), seq![s[at]], s[at]);
}

/// The bytes that are counted are those of the UTF-8 encoding.
pub proof fn bytes_are_those_of_utf8(s: Seq<char>)
    ensures
        byte_len(s) == vstd::utf8::encode_utf8(s).len(),
    decreases s.len(),
{
    if s.len() > 0 {
        bytes_are_those_of_utf8(s.drop_first());
        lemma_byte_len_first(s);
        let c = s[0];
        vstd::utf8::char_is_scalar(c);
        assert(vstd::utf8::encode_scalar(c as u32).len() == char_bytes(c));
    }
}

proof fn lemma_byte_len_first(s: Seq<char>)
    requires
        s.len() > 0,
    ensures
        byte_len(s) == char_bytes(s[0]) + byte_len(s.drop_first()),
    decreases s.len(),
{
    if s.len() == 1 {
        assert(s.drop_last() =~= Seq::<char>::empty());
        assert(s.drop_first() =~= Seq::<char>::empty());
        assert(byte_len(Seq::<char>::empty()) == 0);
    } else {
        lemma_byte_len_first(s.drop_last());
        assert(s.drop_last().drop_first() =~= s.drop_first().drop_last());
        assert(s.drop_first().last() == s.last());
        assert(s.drop_last()[0] == s[0]);
    }
}

} // verus!
