//! Text measurement and editing helpers shared by the components.
//!
//! Text is handled as a sequence of `char`s. Offsets that cross the component
//! boundary are UTF-8 byte offsets or UTF-16 code-unit offsets, exactly as a
//! platform text-input service reports them; the functions here convert between
//! the three coordinate systems.

use vstd::prelude::*;
use vstd::string::*;
use unicode_segmentation::UnicodeSegmentation;

verus! {

/// Number of bytes the UTF-8 encoding of `c` occupies.
pub open spec fn utf8_width(c: char) -> nat {
    if (c as u32) < 0x80 {
        1
    } else if (c as u32) < 0x800 {
        2
    } else if (c as u32) < 0x10000 {
        3
    } else {
        4
    }
}

/// Number of code units the UTF-16 encoding of `c` occupies.
pub open spec fn utf16_width(c: char) -> nat {
    if (c as u32) < 0x10000 {
        1
    } else {
        2
    }
}

/// UTF-8 byte length of the first `k` chars of `s`.
pub open spec fn utf8_prefix(s: Seq<char>, k: int) -> nat
    decreases k,
{
    if k <= 0 {
        0
    } else {
        utf8_prefix(s, k - 1) + utf8_width(s[k - 1])
    }
}

/// UTF-16 length of the first `k` chars of `s`.
pub open spec fn utf16_prefix(s: Seq<char>, k: int) -> nat
    decreases k,
{
    if k <= 0 {
        0
    } else {
        utf16_prefix(s, k - 1) + utf16_width(s[k - 1])
    }
}

/// UTF-8 byte length of `s`.
pub open spec fn utf8_len(s: Seq<char>) -> nat {
    utf8_prefix(s, s.len() as int)
}

/// UTF-16 length of `s`.
pub open spec fn utf16_len(s: Seq<char>) -> nat {
    utf16_prefix(s, s.len() as int)
}

/// Number of leading chars of `s` that are consumed, starting from char `k`,
/// while the UTF-16 position has not yet reached `offset`.
pub open spec fn utf16_reach(s: Seq<char>, offset: int, k: int) -> int
    decreases s.len() - k,
{
    if 0 <= k < s.len() && utf16_prefix(s, k) < offset {
        utf16_reach(s, offset, k + 1)
    } else {
        k
    }
}

/// Number of leading chars of `s` that are consumed, starting from char `k`,
/// while the UTF-8 position has not yet reached `offset`.
pub open spec fn utf8_reach(s: Seq<char>, offset: int, k: int) -> int
    decreases s.len() - k,
{
    if 0 <= k < s.len() && utf8_prefix(s, k) < offset {
        utf8_reach(s, offset, k + 1)
    } else {
        k
    }
}

/// Largest char count, starting the search at `k`, whose UTF-8 length does not
/// exceed `offset`.
pub open spec fn utf8_floor_from(s: Seq<char>, offset: int, k: int) -> int
    decreases s.len() - k,
{
    if 0 <= k < s.len() && utf8_prefix(s, k + 1) <= offset {
        utf8_floor_from(s, offset, k + 1)
    } else {
        k
    }
}

/// UTF-8 byte offset reached by walking whole chars of `s` until the UTF-16
/// position reaches `offset16` (or the text ends).
pub open spec fn byte_offset_from_utf16(s: Seq<char>, offset16: int) -> nat {
    utf8_prefix(s, utf16_reach(s, offset16, 0))
}

/// UTF-16 offset reached by walking whole chars of `s` until the UTF-8
/// position reaches `offset8` (or the text ends).
pub open spec fn utf16_offset_from_bytes(s: Seq<char>, offset8: int) -> nat {
    utf16_prefix(s, utf8_reach(s, offset8, 0))
}

/// Index of the char that starts at or before byte `offset`: the number of whole
/// chars of `s` that fit in the first `offset` bytes.
pub open spec fn char_floor(s: Seq<char>, offset: int) -> int {
    utf8_floor_from(s, offset, 0)
}

/// `needle` occurs in `hay` as a contiguous run of chars.
pub open spec fn occurs_in(needle: Seq<char>, hay: Seq<char>) -> bool {
    exists|i: int|
        0 <= i && i + needle.len() <= hay.len() && #[trigger] hay.subrange(i, i + needle.len())
            == needle
}

/// Index of the first occurrence of `needle` in `hay` at or after `i`.
pub open spec fn first_occurrence_from(hay: Seq<char>, needle: Seq<char>, i: int) -> Option<int>
    decreases hay.len() + 1 - i,
{
    if i < 0 || i + needle.len() > hay.len() {
        None
    } else if hay.subrange(i, i + needle.len()) == needle {
        Some(i)
    } else {
        first_occurrence_from(hay, needle, i + 1)
    }
}

/// A found occurrence lies within the text, at or after the start of the search.
pub proof fn lemma_first_occurrence_found(hay: Seq<char>, needle: Seq<char>, i: int, k: int)
    requires
        first_occurrence_from(hay, needle, i) == Some(k),
    ensures
        i <= k,
        0 <= k,
        k + needle.len() <= hay.len(),
        hay.subrange(k, k + needle.len()) == needle,
    decreases hay.len() + 1 - i,
{
    if i < 0 || i + needle.len() > hay.len() {
    } else if hay.subrange(i, i + needle.len()) == needle {
    } else {
        lemma_first_occurrence_found(hay, needle, i + 1, k);
    }
}

/// `text` with every carriage return and line feed replaced by a space.
pub open spec fn single_line(text: Seq<char>) -> Seq<char> {
    text.map_values(|c: char| if c == '\r' || c == '\n' { ' ' } else { c })
}

/// What `str::to_lowercase` returns for a string with the given chars.
pub uninterp spec fn lowercase_of(text: Seq<char>) -> Seq<char>;

/// What `char::is_whitespace` returns for `c`.
pub uninterp spec fn whitespace_char(c: char) -> bool;

/// The byte offsets at which `unicode_segmentation` starts each extended
/// grapheme cluster of a string with the given chars.
pub uninterp spec fn grapheme_start_offsets(text: Seq<char>) -> Seq<usize>;

/// Index of the first char of `s`, at or after `i`, that is not white space.
pub open spec fn first_non_space(s: Seq<char>, i: int) -> int
    decreases s.len() - i,
{
    if 0 <= i < s.len() && whitespace_char(s[i]) {
        first_non_space(s, i + 1)
    } else {
        i
    }
}

/// One past the last char of `s`, before position `n`, that is not white space.
pub open spec fn end_non_space(s: Seq<char>, n: int) -> int
    decreases n,
{
    if 0 < n <= s.len() && whitespace_char(s[n - 1]) {
        end_non_space(s, n - 1)
    } else {
        n
    }
}

/// `s` without leading and trailing white space (what `str::trim` returns).
pub open spec fn trimmed(s: Seq<char>) -> Seq<char> {
    let a = first_non_space(s, 0);
    let b = end_non_space(s, s.len() as int);
    if a >= b {
        Seq::empty()
    } else {
        s.subrange(a, b)
    }
}

/// Lexicographic order of two texts by code point, starting at position `i`:
/// negative, zero or positive as `a` sorts before, equal to or after `b`.
pub open spec fn text_order_from(a: Seq<char>, b: Seq<char>, i: int) -> int
    decreases a.len() - i,
{
    if i < 0 || i >= a.len() {
        if i >= 0 && i < b.len() {
            -1
        } else {
            0
        }
    } else if i >= b.len() {
        1
    } else if (a[i] as u32) < (b[i] as u32) {
        -1
    } else if (a[i] as u32) > (b[i] as u32) {
        1
    } else {
        text_order_from(a, b, i + 1)
    }
}

/// Lexicographic order of two texts by code point (the order of `String`).
pub open spec fn text_order(a: Seq<char>, b: Seq<char>) -> int {
    text_order_from(a, b, 0)
}

// ---------------------------------------------------------------------------
// Facts about the measurement functions.

/// Widths are between one and four bytes, and a char never takes more UTF-16
/// units than UTF-8 bytes.
pub proof fn lemma_width_bounds(c: char)
    ensures
        1 <= utf8_width(c) <= 4,
        1 <= utf16_width(c) <= 2,
        utf16_width(c) <= utf8_width(c),
{
}

/// Prefix lengths grow by at least one per char, and the UTF-16 length grows no
/// faster than the UTF-8 length.
pub proof fn lemma_prefix_mono(s: Seq<char>, j: int, k: int)
    requires
        0 <= j <= k,
    ensures
        utf8_prefix(s, j) + (k - j) <= utf8_prefix(s, k),
        utf16_prefix(s, j) + (k - j) <= utf16_prefix(s, k),
        utf16_prefix(s, k) - utf16_prefix(s, j) <= utf8_prefix(s, k) - utf8_prefix(s, j),
    decreases k - j,
{
    if j < k {
        lemma_prefix_mono(s, j, k - 1);
        lemma_width_bounds(s[k - 1]);
    }
}

/// The prefix lengths only look at the chars they cover.
pub proof fn lemma_prefix_depends_on_covered(s: Seq<char>, t: Seq<char>, k: int)
    requires
        0 <= k <= s.len(),
        0 <= k <= t.len(),
        s.subrange(0, k) == t.subrange(0, k),
    ensures
        utf8_prefix(s, k) == utf8_prefix(t, k),
        utf16_prefix(s, k) == utf16_prefix(t, k),
    decreases k,
{
    if k > 0 {
        assert(s.subrange(0, k - 1) =~= t.subrange(0, k - 1)) by {
            assert forall|i: int| 0 <= i < k - 1 implies #[trigger] s.subrange(0, k - 1)[i]
                == t.subrange(0, k - 1)[i] by {
                assert(s.subrange(0, k)[i] == t.subrange(0, k)[i]);
            }
        }
        assert(s[k - 1] == s.subrange(0, k)[k - 1]);
        assert(t[k - 1] == t.subrange(0, k)[k - 1]);
        lemma_prefix_depends_on_covered(s, t, k - 1);
    }
}

/// Lengths of a concatenation add up.
pub proof fn lemma_prefix_concat(a: Seq<char>, b: Seq<char>, j: int)
    requires
        0 <= j <= b.len(),
    ensures
        utf8_prefix(a + b, a.len() + j) == utf8_len(a) + utf8_prefix(b, j),
        utf16_prefix(a + b, a.len() + j) == utf16_len(a) + utf16_prefix(b, j),
    decreases j,
{
    if j == 0 {
        assert((a + b).subrange(0, a.len() as int) =~= a.subrange(0, a.len() as int));
        lemma_prefix_depends_on_covered(a + b, a, a.len() as int);
    } else {
        lemma_prefix_concat(a, b, j - 1);
        assert((a + b)[a.len() + j - 1] == b[j - 1]);
    }
}

/// The UTF-8 length of a concatenation is the sum of the lengths.
pub proof fn lemma_len_concat(a: Seq<char>, b: Seq<char>)
    ensures
        utf8_len(a + b) == utf8_len(a) + utf8_len(b),
        utf16_len(a + b) == utf16_len(a) + utf16_len(b),
{
    lemma_prefix_concat(a, b, b.len() as int);
    assert((a + b).len() == a.len() + b.len());
}

/// The length of a leading part equals the corresponding prefix length.
pub proof fn lemma_len_take(s: Seq<char>, k: int)
    requires
        0 <= k <= s.len(),
    ensures
        utf8_len(s.subrange(0, k)) == utf8_prefix(s, k),
        utf16_len(s.subrange(0, k)) == utf16_prefix(s, k),
{
    assert(s.subrange(0, k).subrange(0, k) =~= s.subrange(0, k));
    lemma_prefix_depends_on_covered(s.subrange(0, k), s, k);
}

/// Replacing line breaks by spaces keeps every width.
pub proof fn lemma_single_line_len(text: Seq<char>, k: int)
    requires
        0 <= k <= text.len(),
    ensures
        utf8_prefix(single_line(text), k) == utf8_prefix(text, k),
        utf16_prefix(single_line(text), k) == utf16_prefix(text, k),
    decreases k,
{
    if k > 0 {
        lemma_single_line_len(text, k - 1);
    }
}

/// `utf16_reach` stays within the text and never moves backwards.
pub proof fn lemma_utf16_reach_bounds(s: Seq<char>, offset: int, k: int)
    requires
        0 <= k <= s.len(),
    ensures
        k <= utf16_reach(s, offset, k) <= s.len(),
    decreases s.len() - k,
{
    if k < s.len() && utf16_prefix(s, k) < offset {
        lemma_utf16_reach_bounds(s, offset, k + 1);
    }
}

/// `utf8_reach` stays within the text and never moves backwards.
pub proof fn lemma_utf8_reach_bounds(s: Seq<char>, offset: int, k: int)
    requires
        0 <= k <= s.len(),
    ensures
        k <= utf8_reach(s, offset, k) <= s.len(),
    decreases s.len() - k,
{
    if k < s.len() && utf8_prefix(s, k) < offset {
        lemma_utf8_reach_bounds(s, offset, k + 1);
    }
}

/// `utf8_floor_from` stays within the text, never moves backwards, and never
/// passes `offset` once started below it.
pub proof fn lemma_floor_bounds(s: Seq<char>, offset: int, k: int)
    requires
        0 <= k <= s.len(),
    ensures
        k <= utf8_floor_from(s, offset, k) <= s.len(),
        utf8_prefix(s, k) <= offset ==> utf8_prefix(s, utf8_floor_from(s, offset, k)) <= offset,
    decreases s.len() - k,
{
    if k < s.len() && utf8_prefix(s, k + 1) <= offset {
        lemma_floor_bounds(s, offset, k + 1);
    }
}

/// The char floor grows with the byte offset.
pub proof fn lemma_floor_mono(s: Seq<char>, x: int, y: int, k: int)
    requires
        x <= y,
        0 <= k <= s.len(),
    ensures
        utf8_floor_from(s, x, k) <= utf8_floor_from(s, y, k),
    decreases s.len() - k,
{
    if k < s.len() && utf8_prefix(s, k + 1) <= x {
        lemma_floor_mono(s, x, y, k + 1);
    } else if k < s.len() && utf8_prefix(s, k + 1) <= y {
        lemma_floor_bounds(s, y, k + 1);
    }
}

/// A text is its leading part followed by the rest, so the byte lengths add up.
pub proof fn lemma_len_split(s: Seq<char>, k: int)
    requires
        0 <= k <= s.len(),
    ensures
        utf8_len(s) == utf8_prefix(s, k) + utf8_len(s.subrange(k, s.len() as int)),
{
    assert(s == s.subrange(0, k) + s.subrange(k, s.len() as int));
    lemma_len_concat(s.subrange(0, k), s.subrange(k, s.len() as int));
    lemma_len_take(s, k);
}

/// The floor of an exact prefix length is that prefix.
pub proof fn lemma_floor_of_prefix(s: Seq<char>, k: int, from: int)
    requires
        0 <= from <= k <= s.len(),
    ensures
        utf8_floor_from(s, utf8_prefix(s, k) as int, from) == k,
    decreases s.len() - from,
{
    if from < s.len() && utf8_prefix(s, from + 1) <= utf8_prefix(s, k) {
        if from + 1 > k {
            lemma_prefix_mono(s, k, from + 1);
        }
        lemma_floor_of_prefix(s, k, from + 1);
    } else if from < k {
        lemma_prefix_mono(s, from + 1, k);
    }
}

/// Walking to an exact prefix length stops at that prefix, in both encodings.
proof fn lemma_reach_of_prefix(s: Seq<char>, k: int, from: int)
    requires
        0 <= from <= k <= s.len(),
    ensures
        utf16_reach(s, utf16_prefix(s, k) as int, from) == k,
        utf8_reach(s, utf8_prefix(s, k) as int, from) == k,
    decreases k - from,
{
    if from < k {
        lemma_prefix_mono(s, from + 1, k);
        lemma_prefix_mono(s, from, from + 1);
        lemma_reach_of_prefix(s, k, from + 1);
    }
}

/// On a char boundary the UTF-16 and UTF-8 offset conversions undo each
/// other: the offsets of the first `k` chars in one encoding convert to their
/// offsets in the other.
pub proof fn lemma_boundary_offsets_round_trip(s: Seq<char>, k: int)
    requires
        0 <= k <= s.len(),
    ensures
        byte_offset_from_utf16(s, utf16_prefix(s, k) as int) == utf8_prefix(s, k),
        utf16_offset_from_bytes(s, utf8_prefix(s, k) as int) == utf16_prefix(s, k),
{
    lemma_reach_of_prefix(s, k, 0);
}

/// A UTF-16 offset converted to a byte offset and back lands on the char
/// boundary that the conversion rounded it up to; an offset already on a
/// boundary comes back unchanged.
pub proof fn lemma_utf16_offset_round_trip(s: Seq<char>, offset16: int)
    ensures
        utf16_offset_from_bytes(s, byte_offset_from_utf16(s, offset16) as int) == utf16_prefix(
            s,
            utf16_reach(s, offset16, 0),
        ),
        0 <= offset16 ==> offset16 <= utf16_prefix(s, utf16_reach(s, offset16, 0)) || utf16_reach(
            s,
            offset16,
            0,
        ) == s.len(),
        (exists|k: int| 0 <= k <= s.len() && utf16_prefix(s, k) == offset16) ==> utf16_offset_from_bytes(
            s,
            byte_offset_from_utf16(s, offset16) as int,
        ) == offset16,
{
    lemma_utf16_reach_bounds(s, offset16, 0);
    lemma_boundary_offsets_round_trip(s, utf16_reach(s, offset16, 0));
    lemma_reach_stops_at_offset(s, offset16, 0);
    if exists|k: int| 0 <= k <= s.len() && utf16_prefix(s, k) == offset16 {
        let k = choose|k: int| 0 <= k <= s.len() && utf16_prefix(s, k) == offset16;
        lemma_reach_of_prefix(s, k, 0);
    }
}

/// Where `utf16_reach` stops before the end, the UTF-16 position has reached
/// the offset.
proof fn lemma_reach_stops_at_offset(s: Seq<char>, offset16: int, from: int)
    requires
        0 <= from <= s.len(),
    ensures
        utf16_reach(s, offset16, from) < s.len() ==> offset16 <= utf16_prefix(
            s,
            utf16_reach(s, offset16, from),
        ),
    decreases s.len() - from,
{
    if from < s.len() && utf16_prefix(s, from) < offset16 {
        lemma_reach_stops_at_offset(s, offset16, from + 1);
    }
}

// ---------------------------------------------------------------------------
// Executable helpers.

/// UTF-8 width of a char.
pub fn char_utf8_width(c: char) -> (w: usize)
    ensures
        w == utf8_width(c),
{
    let code = c as u32;
    if code < 0x80 {
        1
    } else if code < 0x800 {
        2
    } else if code < 0x10000 {
        3
    } else {
        4
    }
}

/// UTF-16 width of a char.
pub fn char_utf16_width(c: char) -> (w: usize)
    ensures
        w == utf16_width(c),
{
    let code = c as u32;
    if code < 0x10000 {
        1
    } else {
        2
    }
}

/// Appends a char to a `String` (`String::push`).
#[verifier::external_body]
fn push_char(s: &mut String, c: char)
    ensures
        final(s)@ == old(s)@.push(c),
{
    s.push(c);
}

/// Lowercases a string (`str::to_lowercase`).
#[verifier::external_body]
fn to_lowercase_string(s: &str) -> (r: String)
    ensures
        r@ == lowercase_of(s@),
        (s@.len() == 0) == (r@.len() == 0),
{
    s.to_lowercase()
}

/// Whether a char is Unicode white space (`char::is_whitespace`).
#[verifier::external_body]
fn char_is_whitespace(c: char) -> (r: bool)
    ensures
        r == whitespace_char(c),
{
    c.is_whitespace()
}

/// Start offsets of the extended grapheme clusters of a string
/// (`UnicodeSegmentation::grapheme_indices` with `is_extended = true`).
#[verifier::external_body]
fn grapheme_starts_of(s: &str) -> (r: Vec<usize>)
    ensures
        r@ == grapheme_start_offsets(s@),
{
    s.grapheme_indices(true).map(|(index, _)| index).collect()
}

/// The chars of a string slice.
pub fn chars_of(s: &str) -> (v: Vec<char>)
    ensures
        v@ == s@,
{
    let n = s.unicode_len();
    let mut v: Vec<char> = Vec::new();
    let mut i: usize = 0;
    while i < n
        invariant
            n == s@.len(),
            i <= n,
            v@ == s@.subrange(0, i as int),
        decreases n - i,
    {
        v.push(s.get_char(i));
        i = i + 1;
    }
    v
}

/// A `String` holding the given chars.
pub fn string_from_chars(chars: &Vec<char>) -> (s: String)
    ensures
        s@ == chars@,
{
    let mut s = String::new();
    let mut i: usize = 0;
    while i < chars.len()
        invariant
            i <= chars.len(),
            s@ == chars@.subrange(0, i as int),
        decreases chars.len() - i,
    {
        push_char(&mut s, chars[i]);
        assert(chars@.subrange(0, i + 1) =~= chars@.subrange(0, i as int).push(chars@[i as int]));
        i = i + 1;
    }
    assert(chars@.subrange(0, chars.len() as int) =~= chars@);
    s
}

/// The chars of the lowercase form of `s`.
pub fn lowercase_chars(s: &str) -> (v: Vec<char>)
    ensures
        v@ == lowercase_of(s@),
        (s@.len() == 0) == (v@.len() == 0),
{
    let lower = to_lowercase_string(s);
    chars_of(lower.as_str())
}

/// Whether `c` is white space.
pub fn is_whitespace(c: char) -> (r: bool)
    ensures
        r == whitespace_char(c),
{
    char_is_whitespace(c)
}

/// Grapheme cluster start offsets of the text made of `chars`.
pub fn grapheme_starts(chars: &Vec<char>) -> (r: Vec<usize>)
    ensures
        r@ == grapheme_start_offsets(chars@),
{
    let s = string_from_chars(chars);
    grapheme_starts_of(s.as_str())
}

/// UTF-8 byte length of the text.
pub fn utf8_length(s: &Vec<char>) -> (n: usize)
    requires
        utf8_len(s@) <= usize::MAX,
    ensures
        n == utf8_len(s@),
{
    let mut n: usize = 0;
    let mut i: usize = 0;
    while i < s.len()
        invariant
            i <= s.len(),
            n == utf8_prefix(s@, i as int),
            utf8_len(s@) <= usize::MAX,
        decreases s.len() - i,
    {
        proof {
            lemma_prefix_mono(s@, i + 1, s.len() as int);
        }
        n = n + char_utf8_width(s[i]);
        i = i + 1;
    }
    n
}

/// Converts a UTF-16 offset into a UTF-8 byte offset by walking whole chars.
///
/// Returns the byte offset and the number of chars walked.
pub fn utf16_to_utf8(s: &Vec<char>, offset16: usize) -> (r: (usize, usize))
    requires
        utf8_len(s@) <= usize::MAX,
    ensures
        r.1 == utf16_reach(s@, offset16 as int, 0),
        r.0 == byte_offset_from_utf16(s@, offset16 as int),
        r.0 == utf8_prefix(s@, r.1 as int),
        r.1 <= s@.len(),
{
    let mut utf8_offset: usize = 0;
    let mut utf16_count: usize = 0;
    let mut i: usize = 0;
    while i < s.len() && utf16_count < offset16
        invariant
            i <= s.len(),
            utf8_offset == utf8_prefix(s@, i as int),
            utf16_count == utf16_prefix(s@, i as int),
            utf16_reach(s@, offset16 as int, 0) == utf16_reach(s@, offset16 as int, i as int),
            utf8_len(s@) <= usize::MAX,
        decreases s.len() - i,
    {
        proof {
            lemma_prefix_mono(s@, i + 1, s.len() as int);
            lemma_prefix_mono(s@, 0, i + 1);
        }
        utf16_count = utf16_count + char_utf16_width(s[i]);
        utf8_offset = utf8_offset + char_utf8_width(s[i]);
        i = i + 1;
    }
    (utf8_offset, i)
}

/// Converts a UTF-8 byte offset into a UTF-16 offset by walking whole chars.
///
/// Returns the UTF-16 offset and the number of chars walked.
pub fn utf8_to_utf16(s: &Vec<char>, offset8: usize) -> (r: (usize, usize))
    requires
        utf8_len(s@) <= usize::MAX,
    ensures
        r.1 == utf8_reach(s@, offset8 as int, 0),
        r.0 == utf16_offset_from_bytes(s@, offset8 as int),
        r.0 == utf16_prefix(s@, r.1 as int),
        r.1 <= s@.len(),
{
    let mut utf16_offset: usize = 0;
    let mut utf8_count: usize = 0;
    let mut i: usize = 0;
    while i < s.len() && utf8_count < offset8
        invariant
            i <= s.len(),
            utf8_count == utf8_prefix(s@, i as int),
            utf16_offset == utf16_prefix(s@, i as int),
            utf8_reach(s@, offset8 as int, 0) == utf8_reach(s@, offset8 as int, i as int),
            utf8_len(s@) <= usize::MAX,
        decreases s.len() - i,
    {
        proof {
            lemma_prefix_mono(s@, i + 1, s.len() as int);
            lemma_prefix_mono(s@, 0, i + 1);
        }
        utf8_count = utf8_count + char_utf8_width(s[i]);
        utf16_offset = utf16_offset + char_utf16_width(s[i]);
        i = i + 1;
    }
    (utf16_offset, i)
}

/// Number of whole chars of `s` that fit in the first `offset` bytes, with the
/// byte length of those chars.
pub fn char_floor_at(s: &Vec<char>, offset: usize) -> (r: (usize, usize))
    requires
        utf8_len(s@) <= usize::MAX,
    ensures
        r.0 == char_floor(s@, offset as int),
        r.1 == utf8_prefix(s@, r.0 as int),
        r.0 <= s@.len(),
        r.1 <= offset,
{
    let mut bytes: usize = 0;
    let mut i: usize = 0;
    proof {
        lemma_floor_bounds(s@, offset as int, 0);
    }
    while i < s.len()
        invariant
            i <= s.len(),
            bytes == utf8_prefix(s@, i as int),
            bytes <= offset,
            char_floor(s@, offset as int) == utf8_floor_from(s@, offset as int, i as int),
            utf8_len(s@) <= usize::MAX,
        ensures
            i <= s.len(),
            bytes == utf8_prefix(s@, i as int),
            bytes <= offset,
            char_floor(s@, offset as int) == i,
        decreases s.len() - i,
    {
        proof {
            lemma_prefix_mono(s@, i + 1, s.len() as int);
        }
        let w = char_utf8_width(s[i]);
        if bytes + w > offset {
            assert(utf8_prefix(s@, i + 1) == bytes + w);
            break;
        }
        bytes = bytes + w;
        i = i + 1;
    }
    (i, bytes)
}

/// `true` when `needle` occurs in `hay`.
pub fn contains_chars(hay: &Vec<char>, needle: &Vec<char>) -> (r: bool)
    ensures
        r == occurs_in(needle@, hay@),
{
    if needle.len() > hay.len() {
        return false;
    }
    let last = hay.len() - needle.len();
    let mut i: usize = 0;
    loop
        invariant
            last == hay.len() - needle.len(),
            needle.len() <= hay.len(),
            i <= last,
            forall|p: int|
                0 <= p < i ==> #[trigger] hay@.subrange(p, p + needle.len()) != needle@,
        decreases last - i,
    {
        let mut j: usize = 0;
        let mut same = true;
        while j < needle.len()
            invariant
                i <= last,
                last == hay.len() - needle.len(),
                j <= needle.len(),
                same ==> forall|q: int| 0 <= q < j ==> hay@[i + q] == needle@[q],
                !same ==> hay@.subrange(i as int, i + needle.len()) != needle@,
            decreases needle.len() - j,
        {
            if hay[i + j] != needle[j] {
                same = false;
                assert(hay@.subrange(i as int, i + needle.len())[j as int] != needle@[j as int]);
            }
            j = j + 1;
        }
        if same {
            assert(hay@.subrange(i as int, i + needle.len()) =~= needle@);
            return true;
        }
        assert(hay@.subrange(i as int, i + needle.len()) != needle@);
        if i == last {
            assert forall|p: int|
                0 <= p && p + needle.len() <= hay.len() implies #[trigger] hay@.subrange(
                p,
                p + needle.len(),
            ) != needle@ by {
                if p < i {
                } else {
                    assert(p == i);
                }
            }
            return false;
        }
        i = i + 1;
    }
}

/// Index of the first occurrence of `needle` in `hay`.
pub fn find_chars(hay: &Vec<char>, needle: &Vec<char>) -> (r: Option<usize>)
    ensures
        match r {
            Some(i) => first_occurrence_from(hay@, needle@, 0) == Some(i as int),
            None => first_occurrence_from(hay@, needle@, 0) is None,
        },
{
    if needle.len() > hay.len() {
        return None;
    }
    let last = hay.len() - needle.len();
    let mut i: usize = 0;
    loop
        invariant
            last == hay.len() - needle.len(),
            needle.len() <= hay.len(),
            i <= last,
            first_occurrence_from(hay@, needle@, 0) == first_occurrence_from(hay@, needle@, i as int),
        decreases last - i,
    {
        let mut j: usize = 0;
        let mut same = true;
        while j < needle.len()
            invariant
                i <= last,
                last == hay.len() - needle.len(),
                j <= needle.len(),
                same ==> forall|q: int| 0 <= q < j ==> hay@[i + q] == needle@[q],
                !same ==> hay@.subrange(i as int, i + needle.len()) != needle@,
            decreases needle.len() - j,
        {
            if hay[i + j] != needle[j] {
                same = false;
                assert(hay@.subrange(i as int, i + needle.len())[j as int] != needle@[j as int]);
            }
            j = j + 1;
        }
        if same {
            assert(hay@.subrange(i as int, i + needle.len()) =~= needle@);
            return Some(i);
        }
        if i == last {
            assert(first_occurrence_from(hay@, needle@, i + 1) is None);
            return None;
        }
        i = i + 1;
    }
}

/// The text with line breaks turned into spaces, so that it fits on one line.
pub fn single_line_chars(text: &Vec<char>) -> (r: Vec<char>)
    ensures
        r@ == single_line(text@),
{
    let mut r: Vec<char> = Vec::new();
    let mut i: usize = 0;
    while i < text.len()
        invariant
            i <= text.len(),
            r@ =~= single_line(text@.subrange(0, i as int)),
        decreases text.len() - i,
    {
        let c = text[i];
        if c == '\r' || c == '\n' {
            r.push(' ');
        } else {
            r.push(c);
        }
        i = i + 1;
        assert(single_line(text@.subrange(0, i as int)) =~= single_line(
            text@.subrange(0, i - 1),
        ).push(if c == '\r' || c == '\n' { ' ' } else { c }));
    }
    assert(text@.subrange(0, text.len() as int) =~= text@);
    r
}

/// Chars `start..end` of `s`.
pub fn slice_chars(s: &Vec<char>, start: usize, end: usize) -> (r: Vec<char>)
    requires
        start <= end <= s.len(),
    ensures
        r@ == s@.subrange(start as int, end as int),
{
    let mut r: Vec<char> = Vec::new();
    let mut i: usize = start;
    while i < end
        invariant
            start <= i <= end <= s.len(),
            r@ == s@.subrange(start as int, i as int),
        decreases end - i,
    {
        r.push(s[i]);
        assert(s@.subrange(start as int, i + 1) =~= s@.subrange(start as int, i as int).push(
            s@[i as int],
        ));
        i = i + 1;
    }
    r
}

/// Concatenation of three char runs.
pub fn concat3(a: &Vec<char>, b: &Vec<char>, c: &Vec<char>) -> (r: Vec<char>)
    ensures
        r@ == a@ + b@ + c@,
{
    let mut r: Vec<char> = Vec::new();
    let mut i: usize = 0;
    while i < a.len()
        invariant
            i <= a.len(),
            r@ == a@.subrange(0, i as int),
        decreases a.len() - i,
    {
        r.push(a[i]);
        assert(a@.subrange(0, i + 1) =~= a@.subrange(0, i as int).push(a@[i as int]));
        i = i + 1;
    }
    assert(a@.subrange(0, a.len() as int) =~= a@);
    let mut j: usize = 0;
    while j < b.len()
        invariant
            j <= b.len(),
            r@ == a@ + b@.subrange(0, j as int),
        decreases b.len() - j,
    {
        r.push(b[j]);
        assert(a@ + b@.subrange(0, j + 1) =~= (a@ + b@.subrange(0, j as int)).push(b@[j as int]));
        j = j + 1;
    }
    assert(b@.subrange(0, b.len() as int) =~= b@);
    let mut k: usize = 0;
    while k < c.len()
        invariant
            k <= c.len(),
            r@ == a@ + b@ + c@.subrange(0, k as int),
        decreases c.len() - k,
    {
        r.push(c[k]);
        assert(a@ + b@ + c@.subrange(0, k + 1) =~= (a@ + b@ + c@.subrange(0, k as int)).push(
            c@[k as int],
        ));
        k = k + 1;
    }
    assert(c@.subrange(0, c.len() as int) =~= c@);
    r
}

/// `s` without leading and trailing white space.
pub fn trim_chars(s: &Vec<char>) -> (r: Vec<char>)
    ensures
        r@ == trimmed(s@),
{
    let mut a: usize = 0;
    while a < s.len() && is_whitespace(s[a])
        invariant
            a <= s.len(),
            first_non_space(s@, 0) == first_non_space(s@, a as int),
        decreases s.len() - a,
    {
        a = a + 1;
    }
    let mut b: usize = s.len();
    while b > 0 && is_whitespace(s[b - 1])
        invariant
            b <= s.len(),
            end_non_space(s@, s@.len() as int) == end_non_space(s@, b as int),
        decreases b,
    {
        b = b - 1;
    }
    if a >= b {
        Vec::new()
    } else {
        slice_chars(s, a, b)
    }
}

/// Lexicographic order of two texts by code point: -1, 0 or 1.
pub fn compare_text(a: &Vec<char>, b: &Vec<char>) -> (r: i8)
    ensures
        r == text_order(a@, b@),
{
    let mut i: usize = 0;
    while i < a.len() && i < b.len()
        invariant
            i <= a.len(),
            i <= b.len(),
            text_order(a@, b@) == text_order_from(a@, b@, i as int),
        decreases a.len() - i,
    {
        let x = a[i] as u32;
        let y = b[i] as u32;
        if x < y {
            return -1;
        }
        if x > y {
            return 1;
        }
        i = i + 1;
    }
    if i < a.len() {
        1
    } else if i < b.len() {
        -1
    } else {
        0
    }
}

/// Whether two char runs are equal.
pub fn chars_equal(a: &Vec<char>, b: &Vec<char>) -> (r: bool)
    ensures
        r == (a@ == b@),
{
    if a.len() != b.len() {
        return false;
    }
    let mut i: usize = 0;
    while i < a.len()
        invariant
            a.len() == b.len(),
            i <= a.len(),
            forall|q: int| 0 <= q < i ==> a@[q] == b@[q],
        decreases a.len() - i,
    {
        if a[i] != b[i] {
            return false;
        }
        i = i + 1;
    }
    assert(a@ =~= b@);
    true
}

/// Whether two strings hold the same chars.
pub fn strings_equal(a: &String, b: &String) -> (r: bool)
    ensures
        r == (a@ == b@),
{
    (*a).eq(b)
}

// ---------------------------------------------------------------------------
// Order of texts.

/// Comparing the other way round flips the sign.
pub proof fn lemma_text_order_flip(a: Seq<char>, b: Seq<char>, i: int)
    requires
        0 <= i,
    ensures
        text_order_from(a, b, i) == -text_order_from(b, a, i),
    decreases a.len() - i,
{
    if i < a.len() && i < b.len() && a[i] as u32 == b[i] as u32 {
        lemma_text_order_flip(a, b, i + 1);
    }
}

/// Texts that compare equal compare alike with any third text.
pub proof fn lemma_text_order_zero(a: Seq<char>, b: Seq<char>, c: Seq<char>, i: int)
    requires
        0 <= i,
        text_order_from(a, b, i) == 0,
    ensures
        text_order_from(a, c, i) == text_order_from(b, c, i),
        text_order_from(c, a, i) == text_order_from(c, b, i),
    decreases a.len() - i,
{
    if i < a.len() && i < b.len() {
        lemma_text_order_zero(a, b, c, i + 1);
    }
}

/// A text is equal to itself in the order.
pub proof fn lemma_text_order_reflexive(a: Seq<char>, i: int)
    requires
        0 <= i,
    ensures
        text_order_from(a, a, i) == 0,
    decreases a.len() - i,
{
    if i < a.len() {
        lemma_text_order_reflexive(a, i + 1);
    }
}

/// The order of texts is transitive.
pub proof fn lemma_text_order_transitive(a: Seq<char>, b: Seq<char>, c: Seq<char>, i: int)
    requires
        0 <= i,
        text_order_from(a, b, i) < 0,
        text_order_from(b, c, i) < 0,
    ensures
        text_order_from(a, c, i) < 0,
    decreases a.len() - i,
{
    if i < a.len() && i < b.len() && i < c.len() && a[i] as u32 == b[i] as u32 && b[i] as u32 == c[i] as u32 {
        lemma_text_order_transitive(a, b, c, i + 1);
    }
}

} // verus!
