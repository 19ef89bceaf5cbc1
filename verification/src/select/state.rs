//! State of `Select`: open flag, chosen value, search text with its caret,
//! selection and IME marked range, filtering and keyboard highlight.
//!
//! Nothing here depends on a window or a renderer; each operation returns a
//! `SelectStateOutcome` that tells the host what changed.

use std::ops::Range;

use vstd::prelude::*;

use super::props::SelectOption;
use crate::text::{
    byte_offset_from_utf16, grapheme_starts, lemma_floor_mono, lemma_len_concat, lemma_len_split,
    lemma_len_take, lemma_prefix_mono, lemma_single_line_len, single_line_chars, slice_chars,
    concat3, char_floor_at, utf16_to_utf8, utf8_to_utf16, utf16_reach, utf16_offset_from_bytes, char_floor, chars_equal, contains_chars, chars_of, lowercase_chars, lowercase_of,
    occurs_in, single_line, string_from_chars, strings_equal, utf8_len, utf8_length, utf8_prefix,
    grapheme_start_offsets,
};

verus! {

/// What one state operation changed.
#[derive(Clone, Copy, Debug, PartialEq, Eq, Structural)]
pub struct SelectStateOutcome {
    /// The chosen value changed.
    pub value_changed: bool,
    /// The open flag changed.
    pub open_changed: bool,
    /// The search text changed.
    pub search_changed: bool,
    /// The caret, selection or IME marked range of the search text changed.
    pub search_selection_changed: bool,
    /// The highlighted option changed.
    pub highlight_changed: bool,
}

impl Default for SelectStateOutcome {
    fn default() -> (o: Self)
        ensures
            o == SelectStateOutcome::none(),
    {
        SelectStateOutcome {
            value_changed: false,
            open_changed: false,
            search_changed: false,
            search_selection_changed: false,
            highlight_changed: false,
        }
    }
}

impl SelectStateOutcome {
    /// The outcome in which nothing changed.
    pub open spec fn none() -> Self {
        SelectStateOutcome {
            value_changed: false,
            open_changed: false,
            search_changed: false,
            search_selection_changed: false,
            highlight_changed: false,
        }
    }

    /// Whether anything changed.
    pub open spec fn any(self) -> bool {
        self.value_changed || self.open_changed || self.search_changed
            || self.search_selection_changed || self.highlight_changed
    }

    /// Field-wise disjunction of two outcomes.
    pub open spec fn spec_merge(self, other: Self) -> Self {
        SelectStateOutcome {
            value_changed: self.value_changed || other.value_changed,
            open_changed: self.open_changed || other.open_changed,
            search_changed: self.search_changed || other.search_changed,
            search_selection_changed: self.search_selection_changed
                || other.search_selection_changed,
            highlight_changed: self.highlight_changed || other.highlight_changed,
        }
    }

    /// Whether the host has to repaint: true exactly when something changed.
    pub fn should_notify(self) -> (r: bool)
        ensures
            r == self.any(),
    {
        self.value_changed || self.open_changed || self.search_changed
            || self.search_selection_changed || self.highlight_changed
    }

    /// Combines the outcomes of two consecutive operations.
    pub fn merge(self, other: Self) -> (r: Self)
        ensures
            r == self.spec_merge(other),
    {
        SelectStateOutcome {
            value_changed: self.value_changed || other.value_changed,
            open_changed: self.open_changed || other.open_changed,
            search_changed: self.search_changed || other.search_changed,
            search_selection_changed: self.search_selection_changed
                || other.search_selection_changed,
            highlight_changed: self.highlight_changed || other.highlight_changed,
        }
    }
}

/// A UTF-16 selection as reported to a platform text-input service.
#[derive(Debug)]
pub struct Utf16Selection {
    /// Selected UTF-16 range.
    pub range: Range<usize>,
    /// Whether the caret sits at the start of the range.
    pub reversed: bool,
}

/// Abstract value of a `SelectState`.
pub struct SelectStateView {
    /// Chosen value.
    pub value: Option<Seq<char>>,
    /// Whether the pop-up is open.
    pub open: bool,
    /// Search text.
    pub search: Seq<char>,
    /// Start of the search selection, in UTF-8 bytes.
    pub sel_start: usize,
    /// End of the search selection, in UTF-8 bytes.
    pub sel_end: usize,
    /// Whether the caret is at the start of the selection.
    pub reversed: bool,
    /// IME marked range, in UTF-8 bytes.
    pub marked: Option<(usize, usize)>,
    /// Highlighted option, an index into the option list.
    pub highlighted: Option<usize>,
}

// ---------------------------------------------------------------------------
// The rules, stated over the abstract value.

/// The value of an option, if any, as chars.
pub open spec fn opt_chars(value: Option<String>) -> Option<Seq<char>> {
    match value {
        Some(v) => Some(v@),
        None => None,
    }
}

/// An option is listed for `search` when its lowercase label contains the
/// lowercase search text.
pub open spec fn option_matches(search: Seq<char>, label: Seq<char>) -> bool {
    lowercase_of(search).len() == 0 || occurs_in(lowercase_of(search), lowercase_of(label))
}

/// Indices among the first `n` options that `search` lists, in list order.
pub open spec fn filtered_upto(search: Seq<char>, options: Seq<SelectOption>, n: int) -> Seq<usize>
    decreases n,
{
    if n <= 0 {
        Seq::empty()
    } else if option_matches(search, options[n - 1].label@) {
        filtered_upto(search, options, n - 1).push((n - 1) as usize)
    } else {
        filtered_upto(search, options, n - 1)
    }
}

/// Indices of the options that `search` lists, in list order.
pub open spec fn filtered(search: Seq<char>, options: Seq<SelectOption>) -> Seq<usize> {
    filtered_upto(search, options, options.len() as int)
}

/// Indices among the first `n` options that `search` lists and that are enabled.
pub open spec fn selectable_upto(search: Seq<char>, options: Seq<SelectOption>, n: int) -> Seq<
    usize,
>
    decreases n,
{
    if n <= 0 {
        Seq::empty()
    } else if option_matches(search, options[n - 1].label@) && !options[n - 1].disabled {
        selectable_upto(search, options, n - 1).push((n - 1) as usize)
    } else {
        selectable_upto(search, options, n - 1)
    }
}

/// Indices of the listed, enabled options, in list order.
pub open spec fn selectable(search: Seq<char>, options: Seq<SelectOption>) -> Seq<usize> {
    selectable_upto(search, options, options.len() as int)
}

/// Index of the first option whose value is `value`, searching from `i`.
pub open spec fn index_of_value_from(value: Seq<char>, options: Seq<SelectOption>, i: int) -> Option<
    usize,
>
    decreases options.len() - i,
{
    if i < 0 || i >= options.len() {
        None
    } else if options[i].value@ == value {
        Some(i as usize)
    } else {
        index_of_value_from(value, options, i + 1)
    }
}

/// Index of the first option that carries the chosen value.
pub open spec fn selected_index_of(value: Option<Seq<char>>, options: Seq<SelectOption>) -> Option<
    usize,
> {
    match value {
        Some(v) => index_of_value_from(v, options, 0),
        None => None,
    }
}

/// The option to highlight: the chosen one when it is listed and enabled,
/// otherwise the first listed, enabled option.
pub open spec fn preferred_highlight(
    value: Option<Seq<char>>,
    search: Seq<char>,
    options: Seq<SelectOption>,
) -> Option<usize> {
    let sel = selectable(search, options);
    match selected_index_of(value, options) {
        Some(i) if sel.contains(i) => Some(i),
        _ => if sel.len() > 0 {
            Some(sel[0])
        } else {
            None
        },
    }
}

/// Position of the first occurrence of `x` in `s`, searching from `i`.
pub open spec fn position_from(s: Seq<usize>, x: usize, i: int) -> Option<int>
    decreases s.len() - i,
{
    if i < 0 || i >= s.len() {
        None
    } else if s[i] == x {
        Some(i)
    } else {
        position_from(s, x, i + 1)
    }
}

/// Highlight after a keyboard move by `delta` over the listed, enabled options.
pub open spec fn moved_highlight(
    current: Option<usize>,
    delta: int,
    search: Seq<char>,
    options: Seq<SelectOption>,
) -> Option<usize> {
    let sel = selectable(search, options);
    if sel.len() == 0 {
        None
    } else {
        let pos = match current {
            Some(h) => position_from(sel, h, 0),
            None => None,
        };
        let next = match pos {
            Some(p) => if delta >= 0 {
                if p + 1 < sel.len() {
                    p + 1
                } else {
                    sel.len() - 1
                }
            } else {
                if p >= 1 {
                    p - 1
                } else {
                    0
                }
            },
            None => if delta >= 0 {
                0
            } else {
                sel.len() - 1
            },
        };
        Some(sel[next])
    }
}

/// Grapheme cluster starts of `s` that lie before `offset`: the last of them
/// when scanning the list from `n` downwards, or 0.
pub open spec fn last_start_below(starts: Seq<usize>, offset: int, n: int) -> int
    decreases n,
{
    if n <= 0 || n > starts.len() {
        0
    } else if starts[n - 1] < offset {
        starts[n - 1] as int
    } else {
        last_start_below(starts, offset, n - 1)
    }
}

/// The first grapheme cluster start after `offset`, scanning from `i`, or `end`.
pub open spec fn first_start_above(starts: Seq<usize>, offset: int, i: int, end: int) -> int
    decreases starts.len() - i,
{
    if i < 0 || i >= starts.len() {
        end
    } else if starts[i] > offset {
        starts[i] as int
    } else {
        first_start_above(starts, offset, i + 1, end)
    }
}

/// The grapheme boundary before `offset` in `s` (what "previous boundary" means
/// for caret movement).
pub open spec fn previous_boundary(s: Seq<char>, offset: int) -> int {
    let starts = grapheme_start_offsets(s);
    last_start_below(starts, offset, starts.len() as int)
}

/// The grapheme boundary after `offset` in `s`.
pub open spec fn next_boundary(s: Seq<char>, offset: int) -> int {
    first_start_above(grapheme_start_offsets(s), offset, 0, utf8_len(s) as int)
}

/// `offset` moved down to the nearest grapheme boundary of `s` (and to the end
/// of the text when it lies beyond it).
pub open spec fn boundary_floor(s: Seq<char>, offset: int) -> int {
    if offset >= utf8_len(s) {
        utf8_len(s) as int
    } else if grapheme_start_offsets(s).contains(offset as usize) && offset >= 0 {
        offset
    } else {
        previous_boundary(s, offset)
    }
}

/// `offset` moved up to the nearest grapheme boundary of `s`.
pub open spec fn boundary_ceil(s: Seq<char>, offset: int) -> int {
    if offset >= utf8_len(s) {
        utf8_len(s) as int
    } else if grapheme_start_offsets(s).contains(offset as usize) && offset >= 0 {
        offset
    } else {
        next_boundary(s, offset)
    }
}

/// Whether the caret, selection or marked range differ between two values.
pub open spec fn selection_differs(a: SelectStateView, b: SelectStateView) -> bool {
    a.sel_start != b.sel_start || a.sel_end != b.sel_end || a.reversed != b.reversed || a.marked
        != b.marked
}

/// Byte range that an edit replaces: the given UTF-16 range, else the marked
/// text, else the selection.
pub open spec fn replacement_bytes(v: SelectStateView, range_utf16: Option<Range<usize>>) -> (
    int,
    int,
) {
    match range_utf16 {
        Some(r) => (
            byte_offset_from_utf16(v.search, r.start as int) as int,
            byte_offset_from_utf16(v.search, r.end as int) as int,
        ),
        None => match v.marked {
            Some(m) => (m.0 as int, m.1 as int),
            None => (v.sel_start as int, v.sel_end as int),
        },
    }
}

/// The search text after replacing the edited range by `text`: the range is
/// first widened to whole grapheme clusters and then to whole chars.
pub open spec fn edited_search(s: Seq<char>, range: (int, int), text: Seq<char>) -> Seq<char> {
    let ka = char_floor(s, boundary_floor(s, range.0));
    let kb = char_floor(s, boundary_ceil(s, range.1));
    s.subrange(0, ka) + single_line(text) + s.subrange(kb, s.len() as int)
}

/// Byte offset at which the inserted text starts.
pub open spec fn edit_start(s: Seq<char>, range: (int, int)) -> int {
    utf8_prefix(s, char_floor(s, boundary_floor(s, range.0))) as int
}

/// Minimum of two integers.
pub open spec fn min_int(a: int, b: int) -> int {
    if a <= b {
        a
    } else {
        b
    }
}

/// The whole search value after an edit, before the selection is normalised.
pub open spec fn raw_edit(
    v: SelectStateView,
    range: (int, int),
    text: Seq<char>,
    new_selected_utf16: Option<Range<usize>>,
    mark: bool,
) -> (Seq<char>, int, int, Option<(int, int)>) {
    let s2 = edited_search(v.search, range, text);
    let start = edit_start(v.search, range);
    let inserted = utf8_len(single_line(text)) as int;
    let marked = if mark && inserted > 0 {
        Some((start, start + inserted))
    } else {
        None
    };
    let (a, b) = match new_selected_utf16 {
        Some(r) => (
            boundary_floor(
                s2,
                start + min_int(byte_offset_from_utf16(single_line(text), r.start as int) as int, inserted),
            ),
            boundary_floor(
                s2,
                start + min_int(byte_offset_from_utf16(single_line(text), r.end as int) as int, inserted),
            ),
        ),
        None => (start + inserted, start + inserted),
    };
    (s2, a, b, marked)
}

/// The state after an edit of the search text.
pub open spec fn edited_view(
    v: SelectStateView,
    range_utf16: Option<Range<usize>>,
    text: Seq<char>,
    new_selected_utf16: Option<Range<usize>>,
    mark: bool,
    options: Seq<SelectOption>,
) -> SelectStateView {
    let range = replacement_bytes(v, range_utf16);
    if range.0 > range.1 {
        v
    } else {
        let (s2, a, b, marked) = raw_edit(v, range, text, new_selected_utf16, mark);
        let len = utf8_len(s2) as int;
        let a2 = min_int(a, len);
        let b2 = min_int(b, len);
        SelectStateView {
            value: v.value,
            open: v.open,
            search: s2,
            sel_start: (if a2 <= b2 {
                a2
            } else {
                b2
            }) as usize,
            sel_end: (if a2 <= b2 {
                b2
            } else {
                a2
            }) as usize,
            reversed: a2 > b2,
            marked: match marked {
                Some(m) => Some((min_int(m.0, len) as usize, min_int(m.1, len) as usize)),
                None => None,
            },
            highlighted: preferred_highlight(v.value, s2, options),
        }
    }
}

/// What an operation reports, given the values before and after it, when the
/// open flag is not involved.
pub open spec fn outcome_between(a: SelectStateView, b: SelectStateView) -> SelectStateOutcome {
    SelectStateOutcome {
        value_changed: a.value != b.value,
        open_changed: a.open != b.open,
        search_changed: a.search != b.search,
        search_selection_changed: selection_differs(a, b),
        highlight_changed: a.highlighted != b.highlighted,
    }
}

/// Core state of a `Select`.
#[derive(Debug)]
pub struct SelectState {
    value: Option<String>,
    open: bool,
    search: Vec<char>,
    search_selected_range: Range<usize>,
    search_selection_reversed: bool,
    search_marked_range: Option<Range<usize>>,
    highlighted: Option<usize>,
}

impl View for SelectState {
    type V = SelectStateView;

    closed spec fn view(&self) -> SelectStateView {
        SelectStateView {
            value: opt_chars(self.value),
            open: self.open,
            search: self.search@,
            sel_start: self.search_selected_range.start,
            sel_end: self.search_selected_range.end,
            reversed: self.search_selection_reversed,
            marked: match self.search_marked_range {
                Some(r) => Some((r.start, r.end)),
                None => None,
            },
            highlighted: self.highlighted,
        }
    }
}

impl Clone for SelectState {
    fn clone(&self) -> (r: Self)
        ensures
            r@ == self@,
    {
        proof {
            use_type_invariant(self);
        }
        SelectState {
            value: match &self.value {
                Some(v) => Some(v.clone()),
                None => None,
            },
            open: self.open,
            search: self.search.clone(),
            search_selected_range: Range {
                start: self.search_selected_range.start,
                end: self.search_selected_range.end,
            },
            search_selection_reversed: self.search_selection_reversed,
            search_marked_range: match &self.search_marked_range {
                Some(m) => Some(Range { start: m.start, end: m.end }),
                None => None,
            },
            highlighted: self.highlighted,
        }
    }
}

// ---------------------------------------------------------------------------
// Helpers for the rules above.

/// Facts about the listed, enabled options: they are increasing indices below
/// `n`, and an index is among them exactly when it is listed and enabled.
pub proof fn lemma_selectable_upto_props(search: Seq<char>, options: Seq<SelectOption>, n: int)
    requires
        0 <= n <= options.len(),
        n <= usize::MAX,
    ensures
        forall|i: int|
            0 <= i < selectable_upto(search, options, n).len() ==> #[trigger] selectable_upto(
                search,
                options,
                n,
            )[i] < n,
        forall|i: int, j: int|
            0 <= i < j < selectable_upto(search, options, n).len() ==> #[trigger] selectable_upto(
                search,
                options,
                n,
            )[i] < #[trigger] selectable_upto(search, options, n)[j],
        forall|k: int|
            0 <= k < n ==> (#[trigger] selectable_upto(search, options, n).contains(k as usize)
                <==> (option_matches(search, options[k].label@) && !options[k].disabled)),
    decreases n,
{
    if n > 0 {
        lemma_selectable_upto_props(search, options, n - 1);
        let prev = selectable_upto(search, options, n - 1);
        let cur = selectable_upto(search, options, n);
        if option_matches(search, options[n - 1].label@) && !options[n - 1].disabled {
            assert(cur == prev.push((n - 1) as usize));
            assert forall|k: int|
                0 <= k < n implies (cur.contains(k as usize) <==> (option_matches(
                search,
                options[k].label@,
            ) && !options[k].disabled)) by {
                if k < n - 1 {
                    if cur.contains(k as usize) {
                        let j = choose|j: int| 0 <= j < cur.len() && cur[j] == k as usize;
                        if j < prev.len() {
                            assert(prev[j] == k as usize);
                        }
                    }
                    if prev.contains(k as usize) {
                        let j = choose|j: int| 0 <= j < prev.len() && prev[j] == k as usize;
                        assert(cur[j] == k as usize);
                    }
                } else {
                    assert(cur[prev.len() as int] == k as usize);
                }
            }
        } else {
            assert forall|k: int|
                0 <= k < n implies (cur.contains(k as usize) <==> (option_matches(
                search,
                options[k].label@,
            ) && !options[k].disabled)) by {
                if k == n - 1 {
                    if cur.contains(k as usize) {
                        let j = choose|j: int| 0 <= j < cur.len() && cur[j] == k as usize;
                        assert(prev[j] < n - 1);
                    }
                }
            }
        }
    }
}

proof fn lemma_index_of_value_bounds(value: Seq<char>, options: Seq<SelectOption>, i: int)
    requires
        0 <= i,
        options.len() <= usize::MAX,
    ensures
        index_of_value_from(value, options, i) matches Some(k) ==> i <= k < options.len()
            && options[k as int].value@ == value,
    decreases options.len() - i,
{
    if i < options.len() && options[i].value@ != value {
        lemma_index_of_value_bounds(value, options, i + 1);
    }
}

/// The state after the caret is moved to byte `offset` (pulled back to a
/// grapheme boundary) with the anchor kept; the selection flips direction when
/// the caret crosses the anchor, and marked text is dropped.
pub open spec fn selected_to_view(v: SelectStateView, offset: usize) -> SelectStateView {
    let off = boundary_floor(v.search, offset as int) as usize;
    let (s0, e0) = if v.reversed { (off, v.sel_end) } else { (v.sel_start, off) };
    SelectStateView {
        sel_start: if e0 < s0 { e0 } else { s0 },
        sel_end: if e0 < s0 { s0 } else { e0 },
        reversed: if e0 < s0 { !v.reversed } else { v.reversed },
        marked: None,
        ..v
    }
}

/// The caret of a state: the start of a reversed selection, else its end.
pub open spec fn caret_of(v: SelectStateView) -> usize {
    if v.reversed { v.sel_start } else { v.sel_end }
}

/// The state a deletion edits: the selection as it is, or, when it is empty,
/// extended to the grapheme boundary before (`backward`) or after the caret.
pub open spec fn deletion_target(v: SelectStateView, backward: bool) -> SelectStateView {
    if v.sel_start == v.sel_end {
        selected_to_view(v, if backward {
            previous_boundary(v.search, caret_of(v) as int) as usize
        } else {
            next_boundary(v.search, caret_of(v) as int) as usize
        })
    } else {
        v
    }
}

proof fn lemma_position_bounds(s: Seq<usize>, x: usize, i: int)
    requires
        0 <= i,
    ensures
        position_from(s, x, i) matches Some(p) ==> i <= p < s.len() && s[p] == x,
    decreases s.len() - i,
{
    if i < s.len() && s[i] != x {
        lemma_position_bounds(s, x, i + 1);
    }
}

impl SelectState {
    /// Whether the search text has a byte length that fits in a `usize`.
    #[verifier::type_invariant]
    closed spec fn search_fits(self) -> bool {
        utf8_len(self.search@) <= usize::MAX
    }

    /// A new state with the given value, closed, with an empty search.
    pub fn new(value: Option<String>, options: &[SelectOption]) -> (s: Self)
        ensures
            s@.value == opt_chars(value),
            !s@.open,
            s@.search.len() == 0,
            s@.sel_start == 0 && s@.sel_end == 0 && !s@.reversed,
            s@.marked is None,
            s@.highlighted == preferred_highlight(opt_chars(value), Seq::empty(), options@),
    {
        let search: Vec<char> = Vec::new();
        let highlighted = compute_preferred(&value, &search, options);
        SelectState {
            value,
            open: false,
            search,
            search_selected_range: Range { start: 0, end: 0 },
            search_selection_reversed: false,
            search_marked_range: None,
            highlighted,
        }
    }

    /// The chosen value.
    pub fn value(&self) -> (r: Option<&String>)
        ensures
            match r {
                Some(v) => self@.value == Some(v@),
                None => self@.value is None,
            },
    {
        self.value.as_ref()
    }

    /// A copy of the chosen value.
    pub fn value_cloned(&self) -> (r: Option<String>)
        ensures
            opt_chars(r) == self@.value,
    {
        match &self.value {
            Some(v) => Some(v.clone()),
            None => None,
        }
    }

    /// Whether the pop-up is open.
    pub fn is_open(&self) -> (r: bool)
        ensures
            r == self@.open,
    {
        self.open
    }

    /// The search text.
    pub fn search(&self) -> (r: String)
        ensures
            r@ == self@.search,
    {
        string_from_chars(&self.search)
    }

    /// The search selection, in UTF-8 bytes.
    pub fn search_selected_range(&self) -> (r: Range<usize>)
        ensures
            r.start == self@.sel_start,
            r.end == self@.sel_end,
    {
        Range { start: self.search_selected_range.start, end: self.search_selected_range.end }
    }

    /// The IME marked range, in UTF-8 bytes.
    pub fn search_marked_range(&self) -> (r: Option<Range<usize>>)
        ensures
            match r {
                Some(m) => self@.marked == Some((m.start, m.end)),
                None => self@.marked is None,
            },
    {
        match &self.search_marked_range {
            Some(m) => Some(Range { start: m.start, end: m.end }),
            None => None,
        }
    }

    /// The caret, in UTF-8 bytes: the start of a reversed selection, else its end.
    pub fn search_cursor_offset(&self) -> (r: usize)
        ensures
            r == if self@.reversed {
                self@.sel_start
            } else {
                self@.sel_end
            },
    {
        if self.search_selection_reversed {
            self.search_selected_range.start
        } else {
            self.search_selected_range.end
        }
    }

    /// The highlighted option.
    pub fn highlighted_index(&self) -> (r: Option<usize>)
        ensures
            r == self@.highlighted,
    {
        self.highlighted
    }

    /// Position of the highlighted option in a list of listed option indices:
    /// its first occurrence, or none when nothing is highlighted or the list
    /// does not hold it.
    pub fn highlighted_visible_index(&self, filtered: &[usize]) -> (r: Option<usize>)
        ensures
            match r {
                Some(p) => self@.highlighted matches Some(h) && p < filtered@.len()
                    && filtered@[p as int] == h
                    && forall|q: int| 0 <= q < p ==> filtered@[q] != h,
                None => self@.highlighted matches Some(h) ==> forall|q: int|
                    0 <= q < filtered@.len() ==> filtered@[q] != h,
            },
    {
        match self.highlighted {
            None => None,
            Some(h) => {
                let mut i: usize = 0;
                while i < filtered.len()
                    invariant
                        i <= filtered@.len(),
                        self@.highlighted == Some(h),
                        forall|q: int| 0 <= q < i ==> filtered@[q] != h,
                    decreases filtered.len() - i,
                {
                    if filtered[i] == h {
                        return Some(i);
                    }
                    i = i + 1;
                }
                None
            },
        }
    }

    /// Index of the first option that carries the chosen value.
    pub fn selected_index(&self, options: &[SelectOption]) -> (r: Option<usize>)
        ensures
            r == selected_index_of(self@.value, options@),
    {
        find_value(&self.value, options)
    }

    /// Label of the first option that carries the chosen value.
    pub fn selected_label(&self, options: &[SelectOption]) -> (r: Option<String>)
        ensures
            match selected_index_of(self@.value, options@) {
                Some(i) => r is Some && r->0@ == options@[i as int].label@,
                None => r is None,
            },
    {
        match find_value(&self.value, options) {
            Some(i) => {
                let n = options.len();
                proof {
                    lemma_index_of_value_bounds(self@.value->0, options@, 0);
                }
                Some(options[i].label.clone())
            },
            None => None,
        }
    }

    /// Replaces the chosen value without user-interaction meaning; the
    /// highlight follows the preferred option.
    pub fn set_value_silent(&mut self, value: Option<String>, options: &[SelectOption]) -> (o:
        SelectStateOutcome)
        ensures
            final(self)@ == (SelectStateView {
                value: opt_chars(value),
                highlighted: preferred_highlight(
                    opt_chars(value),
                    old(self)@.search,
                    options@,
                ),
                ..old(self)@
            }),
            o == outcome_between(old(self)@, final(self)@),
    {
        proof {
            use_type_invariant(&*self);
        }
        let value_changed = !opt_string_eq(&self.value, &value);
        self.value = value;
        let highlight_changed = self.sync_highlight_to_preferred(options);
        SelectStateOutcome {
            value_changed,
            open_changed: false,
            search_changed: false,
            search_selection_changed: false,
            highlight_changed,
        }
    }

    /// Re-evaluates the highlight after the option list was replaced; the value
    /// is kept even when no option carries it any more.
    pub fn sync_options_silent(&mut self, options: &[SelectOption]) -> (o: SelectStateOutcome)
        ensures
            final(self)@ == (SelectStateView {
                highlighted: preferred_highlight(old(self)@.value, old(self)@.search, options@),
                ..old(self)@
            }),
            o == outcome_between(old(self)@, final(self)@),
    {
        proof {
            use_type_invariant(&*self);
        }
        let highlight_changed = self.sync_highlight_to_preferred(options);
        SelectStateOutcome {
            value_changed: false,
            open_changed: false,
            search_changed: false,
            search_selection_changed: false,
            highlight_changed,
        }
    }

    /// Opens the pop-up: the search is emptied and the highlight moves to the
    /// preferred option.
    pub fn open(&mut self, options: &[SelectOption]) -> (o: SelectStateOutcome)
        ensures
            final(self)@ == (SelectStateView {
                open: true,
                search: Seq::empty(),
                sel_start: 0,
                sel_end: 0,
                reversed: false,
                marked: None,
                highlighted: preferred_highlight(old(self)@.value, Seq::empty(), options@),
                ..old(self)@
            }),
            o == outcome_between(old(self)@, final(self)@),
    {
        proof {
            use_type_invariant(&*self);
        }
        let open_changed = !self.open;
        self.open = true;
        let outcome = self.set_search_silent(Vec::new(), options);
        SelectStateOutcome { open_changed, ..outcome }
    }

    /// Closes the pop-up.
    pub fn close(&mut self) -> (o: SelectStateOutcome)
        ensures
            final(self)@ == (SelectStateView { open: false, ..old(self)@ }),
            o == outcome_between(old(self)@, final(self)@),
    {
        proof {
            use_type_invariant(&*self);
        }
        if self.open {
            self.open = false;
            SelectStateOutcome {
                value_changed: false,
                open_changed: true,
                search_changed: false,
                search_selection_changed: false,
                highlight_changed: false,
            }
        } else {
            SelectStateOutcome::default()
        }
    }

    /// Closes an open pop-up, opens a closed one.
    pub fn toggle(&mut self, options: &[SelectOption]) -> (o: SelectStateOutcome)
        ensures
            old(self)@.open ==> final(self)@ == (SelectStateView { open: false, ..old(self)@ }),
            !old(self)@.open ==> final(self)@ == (SelectStateView {
                open: true,
                search: Seq::empty(),
                sel_start: 0,
                sel_end: 0,
                reversed: false,
                marked: None,
                highlighted: preferred_highlight(old(self)@.value, Seq::empty(), options@),
                ..old(self)@
            }),
            o == outcome_between(old(self)@, final(self)@),
    {
        proof {
            use_type_invariant(&*self);
        }
        if self.open {
            self.close()
        } else {
            self.open(options)
        }
    }

    /// Removes the chosen value; the highlight moves to the preferred option.
    pub fn clear(&mut self, options: &[SelectOption]) -> (o: SelectStateOutcome)
        ensures
            final(self)@ == (SelectStateView {
                value: None,
                highlighted: preferred_highlight(None, old(self)@.search, options@),
                ..old(self)@
            }),
            o == outcome_between(old(self)@, final(self)@),
    {
        proof {
            use_type_invariant(&*self);
        }
        let value_changed = self.value.is_some();
        self.value = None;
        let highlight_changed = self.sync_highlight_to_preferred(options);
        SelectStateOutcome {
            value_changed,
            open_changed: false,
            search_changed: false,
            search_selection_changed: false,
            highlight_changed,
        }
    }

    /// Chooses the option at `index`: its value becomes the chosen value, the
    /// pop-up closes and the option is highlighted. An index past the list or a
    /// disabled option changes nothing.
    pub fn select_index(&mut self, index: usize, options: &[SelectOption]) -> (o:
        SelectStateOutcome)
        ensures
            index >= options@.len() || options@[index as int].disabled ==> final(self)@
                == old(self)@,
            index < options@.len() && !options@[index as int].disabled ==> final(self)@ == (
            SelectStateView {
                value: Some(options@[index as int].value@),
                open: false,
                highlighted: Some(index),
                ..old(self)@
            }),
            o == outcome_between(old(self)@, final(self)@),
    {
        proof {
            use_type_invariant(&*self);
        }
        if index >= options.len() {
            return SelectStateOutcome::default();
        }
        if options[index].disabled {
            return SelectStateOutcome::default();
        }
        let value = Some(options[index].value.clone());
        let value_changed = !opt_string_eq(&self.value, &value);
        self.value = value;
        let open_changed = self.open;
        self.open = false;
        let highlight_changed = match self.highlighted {
            Some(h) => h != index,
            None => true,
        };
        self.highlighted = Some(index);
        SelectStateOutcome {
            value_changed,
            open_changed,
            search_changed: false,
            search_selection_changed: false,
            highlight_changed,
        }
    }

    /// Chooses the highlighted option, if any.
    pub fn select_highlighted(&mut self, options: &[SelectOption]) -> (o: SelectStateOutcome)
        ensures
            match old(self)@.highlighted {
                None => final(self)@ == old(self)@,
                Some(index) => {
                    &&& index >= options@.len() || options@[index as int].disabled
                        ==> final(self)@ == old(self)@
                    &&& index < options@.len() && !options@[index as int].disabled
                        ==> final(self)@ == (SelectStateView {
                        value: Some(options@[index as int].value@),
                        open: false,
                        highlighted: Some(index),
                        ..old(self)@
                    })
                },
            },
            o == outcome_between(old(self)@, final(self)@),
    {
        proof {
            use_type_invariant(&*self);
        }
        match self.highlighted {
            Some(index) => self.select_index(index, options),
            None => SelectStateOutcome::default(),
        }
    }

    /// Replaces the whole search text; the caret goes to its end and the
    /// highlight follows the preferred option.
    pub fn set_search(&mut self, search: &str, options: &[SelectOption]) -> (o:
        SelectStateOutcome)
        requires
            utf8_len(search@) <= usize::MAX,
        ensures
            final(self)@ == (SelectStateView {
                search: search@,
                sel_start: utf8_len(search@) as usize,
                sel_end: utf8_len(search@) as usize,
                reversed: false,
                marked: None,
                highlighted: preferred_highlight(old(self)@.value, search@, options@),
                ..old(self)@
            }),
            o == outcome_between(old(self)@, final(self)@),
    {
        proof {
            use_type_invariant(&*self);
        }
        self.set_search_silent(chars_of(search), options)
    }

    /// The options that the current search lists, in list order.
    pub fn filtered_indices(&self, options: &[SelectOption]) -> (r: Vec<usize>)
        ensures
            r@ == filtered(self@.search, options@),
            self@.search.len() == 0 ==> r@ == Seq::new(options@.len(), |i: int| i as usize),
    {
        let lower = lowercase_chars(string_from_chars(&self.search).as_str());
        proof {
            if lower@.len() == 0 {
                lemma_empty_search_lists_all(self@.search, options@, options@.len() as int);
            }
        }
        filtered_with_lower(&lower, Ghost(self.search@), options)
    }

    /// Moves the highlight by one listed, enabled option forwards (`delta >= 0`)
    /// or backwards, stopping at the ends; from no highlight it goes to the
    /// first or last such option.
    pub fn move_highlight(&mut self, delta: isize, options: &[SelectOption]) -> (o:
        SelectStateOutcome)
        ensures
            final(self)@ == (SelectStateView {
                highlighted: moved_highlight(
                    old(self)@.highlighted,
                    delta as int,
                    old(self)@.search,
                    options@,
                ),
                ..old(self)@
            }),
            o == outcome_between(old(self)@, final(self)@),
    {
        proof {
            use_type_invariant(&*self);
        }
        let sel = selectable_indices(&self.search, options);
        if sel.len() == 0 {
            return self.set_highlight(None);
        }
        let pos = match self.highlighted {
            Some(h) => position_in(&sel, h),
            None => None,
        };
        proof {
            if let Some(h) = self.highlighted {
                lemma_position_bounds(sel@, h, 0);
            }
        }
        let next: usize = match pos {
            Some(p) => if delta >= 0 {
                if p + 1 < sel.len() {
                    p + 1
                } else {
                    sel.len() - 1
                }
            } else {
                if p >= 1 {
                    p - 1
                } else {
                    0
                }
            },
            None => if delta >= 0 {
                0
            } else {
                sel.len() - 1
            },
        };
        self.set_highlight(Some(sel[next]))
    }

    /// Highlights the first listed, enabled option.
    pub fn highlight_first(&mut self, options: &[SelectOption]) -> (o: SelectStateOutcome)
        ensures
            final(self)@ == (SelectStateView {
                highlighted: if selectable(old(self)@.search, options@).len() > 0 {
                    Some(selectable(old(self)@.search, options@)[0])
                } else {
                    None
                },
                ..old(self)@
            }),
            o == outcome_between(old(self)@, final(self)@),
    {
        proof {
            use_type_invariant(&*self);
        }
        let sel = selectable_indices(&self.search, options);
        if sel.len() > 0 {
            self.set_highlight(Some(sel[0]))
        } else {
            self.set_highlight(None)
        }
    }

    /// Highlights the last listed, enabled option.
    pub fn highlight_last(&mut self, options: &[SelectOption]) -> (o: SelectStateOutcome)
        ensures
            final(self)@ == (SelectStateView {
                highlighted: if selectable(old(self)@.search, options@).len() > 0 {
                    Some(selectable(old(self)@.search, options@).last())
                } else {
                    None
                },
                ..old(self)@
            }),
            o == outcome_between(old(self)@, final(self)@),
    {
        proof {
            use_type_invariant(&*self);
        }
        let sel = selectable_indices(&self.search, options);
        if sel.len() > 0 {
            self.set_highlight(Some(sel[sel.len() - 1]))
        } else {
            self.set_highlight(None)
        }
    }

    /// Highlights the option at `index` when it exists and is enabled (mouse
    /// hover); otherwise nothing changes.
    pub fn highlight_index_if_selectable(&mut self, index: usize, options: &[SelectOption]) -> (o:
        SelectStateOutcome)
        ensures
            index >= options@.len() || options@[index as int].disabled ==> final(self)@
                == old(self)@,
            index < options@.len() && !options@[index as int].disabled ==> final(self)@ == (
            SelectStateView { highlighted: Some(index), ..old(self)@ }),
            o == outcome_between(old(self)@, final(self)@),
    {
        proof {
            use_type_invariant(&*self);
        }
        if index >= options.len() || options[index].disabled {
            return SelectStateOutcome::default();
        }
        self.set_highlight(Some(index))
    }

    /// Moves the caret to byte `offset`, pulled back to a grapheme boundary;
    /// the selection collapses and any marked text is dropped.
    pub fn move_search_cursor(&mut self, offset: usize) -> (o: SelectStateOutcome)
        ensures
            final(self)@ == (SelectStateView {
                sel_start: boundary_floor(old(self)@.search, offset as int) as usize,
                sel_end: boundary_floor(old(self)@.search, offset as int) as usize,
                reversed: false,
                marked: None,
                ..old(self)@
            }),
            o == outcome_between(old(self)@, final(self)@),
    {
        proof {
            use_type_invariant(&*self);
        }
        let offset = floor_boundary(&self.search, offset);
        let changed = self.search_selected_range.start != offset || self.search_selected_range.end
            != offset || self.search_selection_reversed || self.search_marked_range.is_some();
        self.search_selected_range = Range { start: offset, end: offset };
        self.search_selection_reversed = false;
        self.search_marked_range = None;
        SelectStateOutcome {
            value_changed: false,
            open_changed: false,
            search_changed: false,
            search_selection_changed: changed,
            highlight_changed: false,
        }
    }

    /// Extends the selection so that the caret lands on byte `offset`, pulled
    /// back to a grapheme boundary; the anchor stays, and the selection flips
    /// direction when the caret crosses it. Marked text is dropped.
    pub fn select_search_to(&mut self, offset: usize) -> (o: SelectStateOutcome)
        ensures
            final(self)@ == selected_to_view(old(self)@, offset),
            o == outcome_between(old(self)@, final(self)@),
    {
        proof {
            use_type_invariant(&*self);
        }
        let offset = floor_boundary(&self.search, offset);
        let old_start = self.search_selected_range.start;
        let old_end = self.search_selected_range.end;
        let old_reversed = self.search_selection_reversed;
        let old_marked = self.search_marked_range.is_some();
        let (mut start, mut end) = if self.search_selection_reversed {
            (offset, old_end)
        } else {
            (old_start, offset)
        };
        let mut reversed = old_reversed;
        if end < start {
            let t = start;
            start = end;
            end = t;
            reversed = !reversed;
        }
        self.search_selected_range = Range { start, end };
        self.search_selection_reversed = reversed;
        self.search_marked_range = None;
        SelectStateOutcome {
            value_changed: false,
            open_changed: false,
            search_changed: false,
            search_selection_changed: start != old_start || end != old_end || reversed
                != old_reversed || old_marked,
            highlight_changed: false,
        }
    }

    /// Selects the whole search text.
    pub fn select_all_search(&mut self) -> (o: SelectStateOutcome)
        ensures
            final(self)@ == (SelectStateView {
                sel_start: 0,
                sel_end: utf8_len(old(self)@.search) as usize,
                reversed: false,
                marked: None,
                ..old(self)@
            }),
            o == outcome_between(old(self)@, final(self)@),
    {
        proof {
            use_type_invariant(&*self);
        }
        let len = utf8_length(&self.search);
        let changed = self.search_selected_range.start != 0 || self.search_selected_range.end
            != len || self.search_selection_reversed || self.search_marked_range.is_some();
        self.search_selected_range = Range { start: 0, end: len };
        self.search_selection_reversed = false;
        self.search_marked_range = None;
        SelectStateOutcome {
            value_changed: false,
            open_changed: false,
            search_changed: false,
            search_selection_changed: changed,
            highlight_changed: false,
        }
    }

    /// The last grapheme cluster start before byte `offset`, or 0.
    pub fn previous_search_boundary(&self, offset: usize) -> (r: usize)
        ensures
            r == previous_boundary(self@.search, offset as int),
    {
        let starts = grapheme_starts(&self.search);
        last_below(&starts, offset)
    }

    /// The first grapheme cluster start after byte `offset`, or the end of the
    /// search text.
    pub fn next_search_boundary(&self, offset: usize) -> (r: usize)
        ensures
            r == next_boundary(self@.search, offset as int),
    {
        proof {
            use_type_invariant(self);
        }
        let starts = grapheme_starts(&self.search);
        let len = utf8_length(&self.search);
        first_above(&starts, offset, len)
    }

    /// Replaces the marked text, else the selection, or the given UTF-16 range
    /// when there is one, by `new_text` made single-line. The replaced range is
    /// widened to whole grapheme clusters; a reversed range is ignored. The
    /// caret ends after the inserted text.
    pub fn replace_search_text_in_range(
        &mut self,
        range_utf16: Option<Range<usize>>,
        new_text: &str,
        options: &[SelectOption],
    ) -> (o: SelectStateOutcome)
        requires
            utf8_len(old(self)@.search) + utf8_len(new_text@) <= usize::MAX,
        ensures
            final(self)@ == edited_view(old(self)@, range_utf16, new_text@, None, false, options@),
            o == outcome_between(old(self)@, final(self)@),
    {
        self.replace_search_text(range_utf16, new_text, None, false, options)
    }

    /// Like `replace_search_text_in_range`, and records the inserted text as IME
    /// marked text; `new_selected_range_utf16`, relative to the inserted text,
    /// places the selection, pulled back to grapheme boundaries.
    pub fn replace_and_mark_search_text_in_range(
        &mut self,
        range_utf16: Option<Range<usize>>,
        new_text: &str,
        new_selected_range_utf16: Option<Range<usize>>,
        options: &[SelectOption],
    ) -> (o: SelectStateOutcome)
        requires
            utf8_len(old(self)@.search) + utf8_len(new_text@) <= usize::MAX,
        ensures
            final(self)@ == edited_view(
                old(self)@,
                range_utf16,
                new_text@,
                new_selected_range_utf16,
                true,
                options@,
            ),
            o == outcome_between(old(self)@, final(self)@),
    {
        self.replace_search_text(range_utf16, new_text, new_selected_range_utf16, true, options)
    }

    /// Drops the IME marked range.
    pub fn unmark_search_text(&mut self) -> (o: SelectStateOutcome)
        ensures
            final(self)@ == (SelectStateView { marked: None, ..old(self)@ }),
            o == outcome_between(old(self)@, final(self)@),
    {
        proof {
            use_type_invariant(&*self);
        }
        let had_mark = self.search_marked_range.is_some();
        self.search_marked_range = None;
        SelectStateOutcome {
            value_changed: false,
            open_changed: false,
            search_changed: false,
            search_selection_changed: had_mark,
            highlight_changed: false,
        }
    }

    /// The search text in a UTF-16 range, widened to whole chars; the actual
    /// UTF-16 range is written to `actual_range`. A reversed range gives `None`
    /// and leaves `actual_range` alone.
    pub fn search_text_for_range_utf16(
        &self,
        range_utf16: Range<usize>,
        actual_range: &mut Option<Range<usize>>,
    ) -> (r: Option<String>)
        ensures
            ({
                let s = self@.search;
                let ka = utf16_reach(s, range_utf16.start as int, 0);
                let kb = utf16_reach(s, range_utf16.end as int, 0);
                if ka > kb {
                    r is None && *final(actual_range) == *old(actual_range)
                } else {
                    &&& r is Some
                    &&& r->0@ == s.subrange(ka, kb)
                    &&& *final(actual_range) is Some
                    &&& (*final(actual_range))->0.start == utf16_offset_from_bytes(
                        s,
                        utf8_prefix(s, ka) as int,
                    )
                    &&& (*final(actual_range))->0.end == utf16_offset_from_bytes(
                        s,
                        utf8_prefix(s, kb) as int,
                    )
                }
            }),
    {
        proof {
            use_type_invariant(self);
        }
        let (start, ka) = utf16_to_utf8(&self.search, range_utf16.start);
        let (end, kb) = utf16_to_utf8(&self.search, range_utf16.end);
        if ka > kb {
            return None;
        }
        let (start16, _) = utf8_to_utf16(&self.search, start);
        let (end16, _) = utf8_to_utf16(&self.search, end);
        *actual_range = Some(Range { start: start16, end: end16 });
        let chars = slice_chars(&self.search, ka, kb);
        Some(string_from_chars(&chars))
    }

    /// The selection in UTF-16 units.
    pub fn search_selected_text_range_utf16(&self) -> (r: Utf16Selection)
        ensures
            r.range.start == utf16_offset_from_bytes(self@.search, self@.sel_start as int),
            r.range.end == utf16_offset_from_bytes(self@.search, self@.sel_end as int),
            r.reversed == self@.reversed,
    {
        proof {
            use_type_invariant(self);
        }
        let (start, _) = utf8_to_utf16(&self.search, self.search_selected_range.start);
        let (end, _) = utf8_to_utf16(&self.search, self.search_selected_range.end);
        Utf16Selection { range: Range { start, end }, reversed: self.search_selection_reversed }
    }

    /// A UTF-16 range of the search text as a UTF-8 byte range.
    pub fn search_range_from_utf16(&self, range_utf16: &Range<usize>) -> (r: Range<usize>)
        ensures
            r.start == byte_offset_from_utf16(self@.search, range_utf16.start as int),
            r.end == byte_offset_from_utf16(self@.search, range_utf16.end as int),
    {
        proof {
            use_type_invariant(self);
        }
        let (start, _) = utf16_to_utf8(&self.search, range_utf16.start);
        let (end, _) = utf16_to_utf8(&self.search, range_utf16.end);
        Range { start, end }
    }

    /// A UTF-8 byte range of the search text as a UTF-16 range.
    pub fn search_range_to_utf16(&self, range: &Range<usize>) -> (r: Range<usize>)
        ensures
            r.start == utf16_offset_from_bytes(self@.search, range.start as int),
            r.end == utf16_offset_from_bytes(self@.search, range.end as int),
    {
        proof {
            use_type_invariant(self);
        }
        let (start, _) = utf8_to_utf16(&self.search, range.start);
        let (end, _) = utf8_to_utf16(&self.search, range.end);
        Range { start, end }
    }

    /// A UTF-8 byte offset of the search text as a UTF-16 offset.
    pub fn search_offset_to_utf16(&self, offset: usize) -> (r: usize)
        ensures
            r == utf16_offset_from_bytes(self@.search, offset as int),
    {
        proof {
            use_type_invariant(self);
        }
        utf8_to_utf16(&self.search, offset).0
    }

    // -----------------------------------------------------------------------
    // Private helpers.

    fn set_search_silent(&mut self, search: Vec<char>, options: &[SelectOption]) -> (o:
        SelectStateOutcome)
        requires
            utf8_len(search@) <= usize::MAX,
        ensures
            final(self)@ == (SelectStateView {
                search: search@,
                sel_start: utf8_len(search@) as usize,
                sel_end: utf8_len(search@) as usize,
                reversed: false,
                marked: None,
                highlighted: preferred_highlight(old(self)@.value, search@, options@),
                ..old(self)@
            }),
            o == outcome_between(old(self)@, final(self)@),
    {
        proof {
            use_type_invariant(&*self);
        }
        let search_changed = !chars_equal(&self.search, &search);
        let old_start = self.search_selected_range.start;
        let old_end = self.search_selected_range.end;
        let old_reversed = self.search_selection_reversed;
        let old_marked = self.search_marked_range.is_some();
        let len = utf8_length(&search);
        self.search = search;
        self.search_selected_range = Range { start: len, end: len };
        self.search_selection_reversed = false;
        self.search_marked_range = None;
        let highlight_changed = self.sync_highlight_to_preferred(options);
        SelectStateOutcome {
            value_changed: false,
            open_changed: false,
            search_changed,
            search_selection_changed: old_start != len || old_end != len || old_reversed
                || old_marked,
            highlight_changed,
        }
    }

    fn edit_range(&self, range_utf16: &Option<Range<usize>>) -> (r: (usize, usize))
        ensures
            replacement_bytes(self@, *range_utf16) == (r.0 as int, r.1 as int),
    {
        proof {
            use_type_invariant(self);
        }
        match range_utf16 {
            Some(r) => (utf16_to_utf8(&self.search, r.start).0, utf16_to_utf8(&self.search, r.end).0),
            None => match &self.search_marked_range {
                Some(m) => (m.start, m.end),
                None => (self.search_selected_range.start, self.search_selected_range.end),
            },
        }
    }

    fn replace_search_text(
        &mut self,
        range_utf16: Option<Range<usize>>,
        new_text: &str,
        new_selected_range_utf16: Option<Range<usize>>,
        mark: bool,
        options: &[SelectOption],
    ) -> (o: SelectStateOutcome)
        requires
            utf8_len(old(self)@.search) + utf8_len(new_text@) <= usize::MAX,
        ensures
            final(self)@ == edited_view(
                old(self)@,
                range_utf16,
                new_text@,
                new_selected_range_utf16,
                mark,
                options@,
            ),
            o == outcome_between(old(self)@, final(self)@),
    {
        proof {
            use_type_invariant(&*self);
        }
        let ghost v = self@;
        let (rs, re) = self.edit_range(&range_utf16);
        if rs > re {
            return SelectStateOutcome::default();
        }
        let (next, text, start, inserted) = build_edit(&self.search, rs, re, new_text);
        let next_len = utf8_length(&next);
        let marked = if mark && inserted > 0 {
            Some(Range { start, end: start + inserted })
        } else {
            None
        };
        let (sa, sb) = edit_selection(&next, &text, start, inserted, &new_selected_range_utf16);
        assert(raw_edit(v, (rs as int, re as int), new_text@, new_selected_range_utf16, mark) == (
            next@,
            sa as int,
            sb as int,
            match marked {
                Some(m) => Some((m.start as int, m.end as int)),
                None => None,
            },
        ));
        let a2 = min_usize(sa, next_len);
        let b2 = min_usize(sb, next_len);
        let (new_start, new_end, reversed) = if a2 <= b2 {
            (a2, b2, false)
        } else {
            (b2, a2, true)
        };
        let new_marked = match marked {
            Some(m) => Some(Range { start: min_usize(m.start, next_len), end: min_usize(m.end, next_len) }),
            None => None,
        };
        let search_changed = !chars_equal(&self.search, &next);
        let selection_changed = new_start != self.search_selected_range.start || new_end
            != self.search_selected_range.end || reversed != self.search_selection_reversed
            || !opt_range_eq(&new_marked, &self.search_marked_range);
        self.search = next;
        self.search_selected_range = Range { start: new_start, end: new_end };
        self.search_selection_reversed = reversed;
        self.search_marked_range = new_marked;
        let highlight_changed = self.sync_highlight_to_preferred(options);
        SelectStateOutcome {
            value_changed: false,
            open_changed: false,
            search_changed,
            search_selection_changed: selection_changed,
            highlight_changed,
        }
    }

    fn sync_highlight_to_preferred(&mut self, options: &[SelectOption]) -> (changed: bool)
        ensures
            final(self)@ == (SelectStateView {
                highlighted: preferred_highlight(old(self)@.value, old(self)@.search, options@),
                ..old(self)@
            }),
            changed == (old(self)@.highlighted != final(self)@.highlighted),
    {
        proof {
            use_type_invariant(&*self);
        }
        let next = compute_preferred(&self.value, &self.search, options);
        let changed = !opt_usize_eq(self.highlighted, next);
        self.highlighted = next;
        changed
    }

    fn set_highlight(&mut self, highlighted: Option<usize>) -> (o: SelectStateOutcome)
        ensures
            final(self)@ == (SelectStateView { highlighted, ..old(self)@ }),
            o == outcome_between(old(self)@, final(self)@),
    {
        proof {
            use_type_invariant(&*self);
        }
        let highlight_changed = !opt_usize_eq(self.highlighted, highlighted);
        self.highlighted = highlighted;
        SelectStateOutcome {
            value_changed: false,
            open_changed: false,
            search_changed: false,
            search_selection_changed: false,
            highlight_changed,
        }
    }
}

/// Indices of the options that `search` lists, in list order.
///
/// The match is a case-insensitive substring match on the label.
pub fn filtered_indices_for(search: &str, options: &[SelectOption]) -> (r: Vec<usize>)
    ensures
        r@ == filtered(search@, options@),
        search@.len() == 0 ==> r@ == Seq::new(options@.len(), |i: int| i as usize),
{
    let lower = lowercase_chars(search);
    proof {
        if lower@.len() == 0 {
            lemma_empty_search_lists_all(search@, options@, options@.len() as int);
        }
    }
    filtered_with_lower(&lower, Ghost(search@), options)
}

/// A search whose lowercase form is empty lists every option.
proof fn lemma_empty_search_lists_all(search: Seq<char>, options: Seq<SelectOption>, n: int)
    requires
        lowercase_of(search).len() == 0,
        0 <= n <= options.len(),
    ensures
        filtered_upto(search, options, n) == Seq::new(n as nat, |i: int| i as usize),
    decreases n,
{
    if n > 0 {
        lemma_empty_search_lists_all(search, options, n - 1);
        assert(Seq::new(n as nat, |i: int| i as usize) =~= Seq::new((n - 1) as nat, |i: int| i as usize).push(
            (n - 1) as usize,
        ));
    }
}

fn label_matches(lower_search: &Vec<char>, search: Ghost<Seq<char>>, label: &String) -> (r: bool)
    requires
        lower_search@ == lowercase_of(search@),
    ensures
        r == option_matches(search@, label@),
{
    if lower_search.len() == 0 {
        return true;
    }
    let lower_label = lowercase_chars(label.as_str());
    contains_chars(&lower_label, lower_search)
}

fn filtered_with_lower(lower_search: &Vec<char>, search: Ghost<Seq<char>>, options: &[SelectOption]) -> (r: Vec<usize>)
    requires
        lower_search@ == lowercase_of(search@),
    ensures
        r@ == filtered(search@, options@),
{
    let mut r: Vec<usize> = Vec::new();
    let mut i: usize = 0;
    while i < options.len()
        invariant
            i <= options.len(),
            lower_search@ == lowercase_of(search@),
            r@ == filtered_upto(search@, options@, i as int),
        decreases options.len() - i,
    {
        if label_matches(lower_search, search, &options[i].label) {
            r.push(i);
        }
        i = i + 1;
    }
    r
}

fn selectable_indices(search: &Vec<char>, options: &[SelectOption]) -> (r: Vec<usize>)
    ensures
        r@ == selectable(search@, options@),
{
    let lower = lowercase_chars(string_from_chars(search).as_str());
    let mut r: Vec<usize> = Vec::new();
    let mut i: usize = 0;
    while i < options.len()
        invariant
            i <= options.len(),
            lower@ == lowercase_of(search@),
            r@ == selectable_upto(search@, options@, i as int),
        decreases options.len() - i,
    {
        if !options[i].disabled && label_matches(&lower, Ghost(search@), &options[i].label) {
            r.push(i);
        }
        i = i + 1;
    }
    r
}

fn find_value(value: &Option<String>, options: &[SelectOption]) -> (r: Option<usize>)
    ensures
        r == selected_index_of(opt_chars(*value), options@),
{
    match value {
        None => None,
        Some(v) => {
            assert(opt_chars(*value) == Some(v@));
            let mut i: usize = 0;
            while i < options.len()
                invariant
                    i <= options.len(),
                    opt_chars(*value) == Some(v@),
                    index_of_value_from(v@, options@, 0) == index_of_value_from(
                        v@,
                        options@,
                        i as int,
                    ),
                decreases options.len() - i,
            {
                if strings_equal(&options[i].value, v) {
                    assert(options@[i as int].value@ == v@);
                    assert(index_of_value_from(v@, options@, i as int) == Some(i));
                    return Some(i);
                }
                i = i + 1;
            }
            None
        },
    }
}

fn position_in(s: &Vec<usize>, x: usize) -> (r: Option<usize>)
    ensures
        match r {
            Some(p) => position_from(s@, x, 0) == Some(p as int),
            None => position_from(s@, x, 0) is None,
        },
{
    let mut i: usize = 0;
    while i < s.len()
        invariant
            i <= s.len(),
            position_from(s@, x, 0) == position_from(s@, x, i as int),
        decreases s.len() - i,
    {
        if s[i] == x {
            return Some(i);
        }
        i = i + 1;
    }
    None
}

fn contains_usize(s: &Vec<usize>, x: usize) -> (r: bool)
    ensures
        r == s@.contains(x),
{
    let mut i: usize = 0;
    while i < s.len()
        invariant
            i <= s.len(),
            forall|j: int| 0 <= j < i ==> s@[j] != x,
        decreases s.len() - i,
    {
        if s[i] == x {
            return true;
        }
        i = i + 1;
    }
    false
}

fn compute_preferred(value: &Option<String>, search: &Vec<char>, options: &[SelectOption]) -> (r:
    Option<usize>)
    ensures
        r == preferred_highlight(opt_chars(*value), search@, options@),
{
    let sel = selectable_indices(search, options);
    match find_value(value, options) {
        Some(i) => {
            if contains_usize(&sel, i) {
                return Some(i);
            }
        },
        None => {},
    }
    if sel.len() > 0 {
        Some(sel[0])
    } else {
        None
    }
}

fn opt_string_eq(a: &Option<String>, b: &Option<String>) -> (r: bool)
    ensures
        r == (opt_chars(*a) == opt_chars(*b)),
{
    match (a, b) {
        (Some(x), Some(y)) => strings_equal(x, y),
        (None, None) => true,
        _ => false,
    }
}

fn build_edit(s: &Vec<char>, rs: usize, re: usize, new_text: &str) -> (r: (
    Vec<char>,
    Vec<char>,
    usize,
    usize,
))
    requires
        rs <= re,
        utf8_len(s@) + utf8_len(new_text@) <= usize::MAX,
    ensures
        r.0@ == edited_search(s@, (rs as int, re as int), new_text@),
        r.1@ == single_line(new_text@),
        r.2 == edit_start(s@, (rs as int, re as int)),
        r.3 == utf8_len(single_line(new_text@)),
        utf8_len(r.0@) <= usize::MAX,
        r.2 + r.3 <= utf8_len(r.0@),
{
    let a = floor_boundary(s, rs);
    let b = ceil_boundary(s, re);
    let (ka, start) = char_floor_at(s, a);
    let (kb, _) = char_floor_at(s, b);
    proof {
        lemma_floor_mono(s@, a as int, b as int, 0);
        lemma_len_split(s@, kb as int);
        lemma_prefix_mono(s@, ka as int, kb as int);
    }
    let typed = chars_of(new_text);
    let text = single_line_chars(&typed);
    proof {
        lemma_single_line_len(typed@, typed@.len() as int);
    }
    let inserted = utf8_length(&text);
    let prefix = slice_chars(s, 0, ka);
    let suffix = slice_chars(s, kb, s.len());
    let next = concat3(&prefix, &text, &suffix);
    proof {
        lemma_len_concat(prefix@ + text@, suffix@);
        lemma_len_concat(prefix@, text@);
        lemma_len_take(s@, ka as int);
    }
    (next, text, start, inserted)
}

fn edit_selection(
    next: &Vec<char>,
    text: &Vec<char>,
    start: usize,
    inserted: usize,
    new_selected_range_utf16: &Option<Range<usize>>,
) -> (r: (usize, usize))
    requires
        utf8_len(next@) <= usize::MAX,
        utf8_len(text@) <= usize::MAX,
        inserted == utf8_len(text@),
        start + inserted <= utf8_len(next@),
    ensures
        (r.0 as int, r.1 as int) == match *new_selected_range_utf16 {
            Some(rr) => (
                boundary_floor(
                    next@,
                    start + min_int(byte_offset_from_utf16(text@, rr.start as int) as int, inserted as int),
                ),
                boundary_floor(
                    next@,
                    start + min_int(byte_offset_from_utf16(text@, rr.end as int) as int, inserted as int),
                ),
            ),
            None => (start + inserted, start + inserted),
        },
{
    match new_selected_range_utf16 {
        Some(rr) => {
            let rel_a = min_usize(utf16_to_utf8(text, rr.start).0, inserted);
            let rel_b = min_usize(utf16_to_utf8(text, rr.end).0, inserted);
            (floor_boundary(next, start + rel_a), floor_boundary(next, start + rel_b))
        },
        None => (start + inserted, start + inserted),
    }
}

fn opt_range_eq(a: &Option<Range<usize>>, b: &Option<Range<usize>>) -> (r: bool)
    ensures
        r == (match *a {
            Some(x) => Some((x.start, x.end)),
            None => None,
        } == match *b {
            Some(y) => Some((y.start, y.end)),
            None => None,
        }),
{
    match (a, b) {
        (Some(x), Some(y)) => x.start == y.start && x.end == y.end,
        (None, None) => true,
        _ => false,
    }
}

fn min_usize(a: usize, b: usize) -> (r: usize)
    ensures
        r == min_int(a as int, b as int),
{
    if a <= b {
        a
    } else {
        b
    }
}

fn last_below(starts: &Vec<usize>, offset: usize) -> (r: usize)
    ensures
        r == last_start_below(starts@, offset as int, starts@.len() as int),
        r <= offset,
{
    let mut n: usize = starts.len();
    while n > 0
        invariant
            n <= starts.len(),
            last_start_below(starts@, offset as int, starts@.len() as int) == last_start_below(
                starts@,
                offset as int,
                n as int,
            ),
        decreases n,
    {
        if starts[n - 1] < offset {
            return starts[n - 1];
        }
        n = n - 1;
    }
    0
}

fn first_above(starts: &Vec<usize>, offset: usize, end: usize) -> (r: usize)
    ensures
        r == first_start_above(starts@, offset as int, 0, end as int),
        offset <= end ==> r >= offset,
{
    let mut i: usize = 0;
    while i < starts.len()
        invariant
            i <= starts.len(),
            first_start_above(starts@, offset as int, 0, end as int) == first_start_above(
                starts@,
                offset as int,
                i as int,
                end as int,
            ),
        decreases starts.len() - i,
    {
        if starts[i] > offset {
            return starts[i];
        }
        i = i + 1;
    }
    end
}

fn floor_boundary(s: &Vec<char>, offset: usize) -> (r: usize)
    requires
        utf8_len(s@) <= usize::MAX,
    ensures
        r == boundary_floor(s@, offset as int),
        r <= utf8_len(s@),
        r <= offset || offset >= utf8_len(s@),
{
    let len = utf8_length(s);
    if offset >= len {
        return len;
    }
    let starts = grapheme_starts(s);
    if contains_usize(&starts, offset) {
        offset
    } else {
        last_below(&starts, offset)
    }
}

fn ceil_boundary(s: &Vec<char>, offset: usize) -> (r: usize)
    requires
        utf8_len(s@) <= usize::MAX,
    ensures
        r == boundary_ceil(s@, offset as int),
        r >= offset || offset >= utf8_len(s@),
        offset >= utf8_len(s@) ==> r == utf8_len(s@),
{
    let len = utf8_length(s);
    if offset >= len {
        return len;
    }
    let starts = grapheme_starts(s);
    if contains_usize(&starts, offset) {
        offset
    } else {
        first_above(&starts, offset, len)
    }
}

fn opt_usize_eq(a: Option<usize>, b: Option<usize>) -> (r: bool)
    ensures
        r == (a == b),
{
    match (a, b) {
        (Some(x), Some(y)) => x == y,
        (None, None) => true,
        _ => false,
    }
}

// ---------------------------------------------------------------------------
// Laws.

/// Merging outcomes is commutative, associative and idempotent, and a merged
/// outcome asks for a repaint exactly when one of its parts does.
pub proof fn lemma_outcome_merge_laws(a: SelectStateOutcome, b: SelectStateOutcome, c: SelectStateOutcome)
    ensures
        a.spec_merge(b) == b.spec_merge(a),
        a.spec_merge(b).spec_merge(c) == a.spec_merge(b.spec_merge(c)),
        a.spec_merge(a) == a,
        a.spec_merge(SelectStateOutcome::none()) == a,
        a.spec_merge(b).any() == (a.any() || b.any()),
{
}

/// Whether option `k` can take the highlight: it exists, is enabled and the
/// search lists it.
pub open spec fn highlightable(search: Seq<char>, options: Seq<SelectOption>, k: int) -> bool {
    0 <= k < options.len() && !options[k].disabled && option_matches(search, options[k].label@)
}

proof fn lemma_position_found(s: Seq<usize>, x: usize, i: int, j: int)
    requires
        0 <= i <= j < s.len(),
        s[j] == x,
        forall|t: int| i <= t < j ==> s[t] != x,
    ensures
        position_from(s, x, i) == Some(j),
    decreases j - i,
{
    if i < j {
        lemma_position_found(s, x, i + 1, j);
    }
}

/// A keyboard move steps to the neighbouring option that can take the
/// highlight: moving up (`delta < 0`) from a highlighted option goes to the
/// nearest such option above it, moving down to the nearest one below it, and
/// at the top (bottom) the highlight stays where it is.
pub proof fn lemma_move_highlight_steps_to_neighbour(
    h: usize,
    delta: int,
    search: Seq<char>,
    options: Seq<SelectOption>,
)
    requires
        options.len() <= usize::MAX,
        highlightable(search, options, h as int),
    ensures
        delta < 0 ==> (moved_highlight(Some(h), delta, search, options) matches Some(u) && u <= h
            && highlightable(search, options, u as int) && forall|k: int|
            #![trigger highlightable(search, options, k)]
            highlightable(search, options, k) && k < h ==> k <= u && u < h),
        delta >= 0 ==> (moved_highlight(Some(h), delta, search, options) matches Some(u) && u >= h
            && highlightable(search, options, u as int) && forall|k: int|
            #![trigger highlightable(search, options, k)]
            highlightable(search, options, k) && k > h ==> u <= k && h < u),
{
    let n = options.len() as int;
    lemma_selectable_upto_props(search, options, n);
    let sel = selectable(search, options);
    assert(selectable_upto(search, options, n).contains((h as int) as usize));
    assert(sel.contains(h));
    assert forall|t: int| 0 <= t < sel.len() implies highlightable(search, options, sel[t] as int) by {
        assert(sel[t] < n);
        assert(sel.contains(sel[t]));
        assert(selectable_upto(search, options, n).contains(((sel[t]) as int) as usize));
    }
    let j = choose|j: int| 0 <= j < sel.len() && sel[j] == h;
    assert forall|t: int| 0 <= t < j implies sel[t] != h by {
        assert(sel[t] < sel[j]);
    }
    lemma_position_found(sel, h, 0, j);
    assert forall|k: int| #![trigger highlightable(search, options, k)]
        highlightable(search, options, k) implies exists|t: int| 0 <= t < sel.len() && sel[t] == k by {
        assert(sel.contains(k as usize));
    }
    if delta < 0 {
        let u = if j >= 1 { sel[j - 1] } else { sel[0] };
        assert(moved_highlight(Some(h), delta, search, options) == Some(u));
        assert(sel.contains(u));
        if j >= 1 {
            assert(sel[j - 1] < sel[j]);
        }
        assert forall|k: int| #![trigger highlightable(search, options, k)]
            highlightable(search, options, k) && k < h implies k <= u && u < h by {
            let t = choose|t: int| 0 <= t < sel.len() && sel[t] == k;
            if t >= j {
                if t > j {
                    assert(sel[j] < sel[t]);
                }
            }
            assert(t < j);
            if t < j - 1 {
                assert(sel[t] < sel[j - 1]);
            }
            assert(sel[j - 1] < sel[j]);
        }
    } else {
        let u = if j + 1 < sel.len() { sel[j + 1] } else { sel[sel.len() - 1] };
        assert(moved_highlight(Some(h), delta, search, options) == Some(u));
        assert(sel.contains(u));
        if j + 1 < sel.len() {
            assert(sel[j] < sel[j + 1]);
        }
        assert forall|k: int| #![trigger highlightable(search, options, k)]
            highlightable(search, options, k) && k > h implies u <= k && h < u by {
            let t = choose|t: int| 0 <= t < sel.len() && sel[t] == k;
            if t <= j {
                if t < j {
                    assert(sel[t] < sel[j]);
                }
            }
            assert(t > j);
            if t > j + 1 {
                assert(sel[j + 1] < sel[t]);
            }
            assert(sel[j] < sel[j + 1]);
        }
    }
}

/// The keyboard highlight, whether moved or placed on opening or searching,
/// only ever rests on an enabled option that the search lists.
pub proof fn lemma_highlight_is_selectable(
    current: Option<usize>,
    value: Option<Seq<char>>,
    delta: int,
    search: Seq<char>,
    options: Seq<SelectOption>,
)
    requires
        options.len() <= usize::MAX,
    ensures
        moved_highlight(current, delta, search, options) matches Some(i) ==> i < options.len()
            && !options[i as int].disabled && option_matches(search, options[i as int].label@),
        preferred_highlight(value, search, options) matches Some(i) ==> i < options.len()
            && !options[i as int].disabled && option_matches(search, options[i as int].label@),
{
    let n = options.len() as int;
    lemma_selectable_upto_props(search, options, n);
    let sel = selectable(search, options);
    if let Some(i) = moved_highlight(current, delta, search, options) {
        let pos = match current {
            Some(h) => position_from(sel, h, 0),
            None => None,
        };
        let next = match pos {
            Some(p) => if delta >= 0 {
                if p + 1 < sel.len() { p + 1 } else { sel.len() - 1 }
            } else {
                if p >= 1 { p - 1 } else { 0 }
            },
            None => if delta >= 0 { 0 } else { sel.len() - 1 },
        };
        if let Some(h) = current {
            lemma_position_bounds(sel, h, 0);
        }
        assert(0 <= next < sel.len());
        assert(sel[next] == i);
        assert(sel.contains(i));
        assert(sel.contains((i as int) as usize));
    }
    if let Some(i) = preferred_highlight(value, search, options) {
        assert(sel.contains(i)) by {
            if sel.len() > 0 && i == sel[0] {
                assert(sel[0] == i);
            }
        }
        assert(sel.contains((i as int) as usize));
        assert(i < n) by {
            let k = choose|k: int| 0 <= k < sel.len() && sel[k] == i;
        }
    }
}

impl SelectState {
    /// Backspace in the search text: deletes the selection, or the grapheme
    /// cluster before the caret when nothing is selected.
    pub fn delete_search_backward(&mut self, options: &[SelectOption]) -> (o: SelectStateOutcome)
        ensures
            ({
                let mid = deletion_target(old(self)@, true);
                &&& final(self)@ == edited_view(mid, None, Seq::empty(), None, false, options@)
                &&& o == outcome_between(mid, final(self)@)
            }),
    {
        proof {
            use_type_invariant(&*self);
        }
        if self.search_selected_range.start == self.search_selected_range.end {
            let target = self.previous_search_boundary(self.search_cursor_offset());
            self.select_search_to(target);
        }
        proof {
            use_type_invariant(&*self);
            reveal_strlit("");
        }
        self.replace_search_text_in_range(None, "", options)
    }

    /// Delete in the search text: deletes the selection, or the grapheme
    /// cluster after the caret when nothing is selected.
    pub fn delete_search_forward(&mut self, options: &[SelectOption]) -> (o: SelectStateOutcome)
        ensures
            ({
                let mid = deletion_target(old(self)@, false);
                &&& final(self)@ == edited_view(mid, None, Seq::empty(), None, false, options@)
                &&& o == outcome_between(mid, final(self)@)
            }),
    {
        proof {
            use_type_invariant(&*self);
        }
        if self.search_selected_range.start == self.search_selected_range.end {
            let target = self.next_search_boundary(self.search_cursor_offset());
            self.select_search_to(target);
        }
        proof {
            use_type_invariant(&*self);
            reveal_strlit("");
        }
        self.replace_search_text_in_range(None, "", options)
    }
}

/// Search text as typed: line breaks become spaces, so that the text fits on one line.
pub fn normalize_search_text(text: &str) -> (r: String)
    ensures
        r@ == single_line(text@),
{
    let chars = chars_of(text);
    let line = single_line_chars(&chars);
    string_from_chars(&line)
}

/// UTF-8 byte offset in `text` of the UTF-16 offset `offset`, walking whole
/// chars; an offset past the end gives the byte length.
pub fn offset_from_utf16_in(text: &str, offset: usize) -> (r: usize)
    requires
        utf8_len(text@) <= usize::MAX,
    ensures
        r == byte_offset_from_utf16(text@, offset as int),
{
    let chars = chars_of(text);
    let (r, _) = utf16_to_utf8(&chars, offset);
    r
}

/// UTF-16 offset in `text` of the UTF-8 byte offset `offset`, walking whole
/// chars; an offset inside a char counts that whole char.
pub fn offset_to_utf16_in(text: &str, offset: usize) -> (r: usize)
    requires
        utf8_len(text@) <= usize::MAX,
    ensures
        r == utf16_offset_from_bytes(text@, offset as int),
{
    let chars = chars_of(text);
    let (r, _) = utf8_to_utf16(&chars, offset);
    r
}

/// UTF-8 byte range in `text` of a UTF-16 range, each end converted by
/// `offset_from_utf16_in`.
pub fn range_from_utf16_in(text: &str, range_utf16: &Range<usize>) -> (r: Range<usize>)
    requires
        utf8_len(text@) <= usize::MAX,
    ensures
        r.start == byte_offset_from_utf16(text@, range_utf16.start as int),
        r.end == byte_offset_from_utf16(text@, range_utf16.end as int),
{
    let start = offset_from_utf16_in(text, range_utf16.start);
    let end = offset_from_utf16_in(text, range_utf16.end);
    start..end
}

} // verus!
