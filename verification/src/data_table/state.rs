//! State of `DataTable`: filter text, sort, page, page size, selected row
//! keys and the keyboard-active row, and the view derived from them.
//!
//! Rows are identified by stable keys; a key that occurs twice keeps only its
//! first row. Filtering is a case-insensitive substring match over the
//! filterable text columns; sorting is by the lowercase text of one column,
//! ties kept in row order.

use vstd::hash_set::StringHashSet;
use vstd::prelude::*;

use super::props::{
    DataTableColumn, DataTablePageState, DataTableProps, DataTableRow, DataTableSelectionMode,
    DataTableSort, DataTableSortDirection,
};
use crate::text::{
    lemma_text_order_flip, lemma_text_order_reflexive, lemma_text_order_transitive,
    lemma_text_order_zero, chars_of, compare_text, contains_chars, lowercase_chars, lowercase_of, occurs_in,
    strings_equal, text_order, trim_chars, trimmed,
};

verus! {

/// What one state operation changed.
#[derive(Clone, Copy, Debug, PartialEq, Eq, Structural)]
pub struct DataTableStateOutcome {
    /// The filter text changed.
    pub filter_changed: bool,
    /// The sort changed.
    pub sort_changed: bool,
    /// The page or the page size changed.
    pub page_changed: bool,
    /// The selected keys changed.
    pub selection_changed: bool,
    /// The keyboard-active row changed.
    pub active_changed: bool,
}

impl DataTableStateOutcome {
    /// The outcome in which nothing changed.
    pub open spec fn none() -> Self {
        DataTableStateOutcome {
            filter_changed: false,
            sort_changed: false,
            page_changed: false,
            selection_changed: false,
            active_changed: false,
        }
    }

    /// Whether anything changed.
    pub open spec fn any(self) -> bool {
        self.filter_changed || self.sort_changed || self.page_changed || self.selection_changed
            || self.active_changed
    }

    /// Whether the host has to repaint: true exactly when something changed.
    pub fn should_notify(self) -> (r: bool)
        ensures
            r == self.any(),
    {
        self.filter_changed || self.sort_changed || self.page_changed || self.selection_changed
            || self.active_changed
    }
}

impl Default for DataTableStateOutcome {
    fn default() -> (o: Self)
        ensures
            o == DataTableStateOutcome::none(),
    {
        DataTableStateOutcome {
            filter_changed: false,
            sort_changed: false,
            page_changed: false,
            selection_changed: false,
            active_changed: false,
        }
    }
}

/// A row as kept by the table after duplicate keys are dropped.
#[derive(Debug)]
pub struct DataTableRowRecord {
    /// Position of the row in the input rows.
    pub row_index: usize,
    /// Stable key of the row.
    pub row_key: String,
    /// Whether the row is disabled.
    pub disabled: bool,
}

impl Clone for DataTableRowRecord {
    fn clone(&self) -> (r: Self)
        ensures
            record_view(r) == record_view(*self),
    {
        DataTableRowRecord {
            row_index: self.row_index,
            row_key: self.row_key.clone(),
            disabled: self.disabled,
        }
    }
}

/// Abstract value of a row record.
pub struct RecordView {
    /// Position of the row in the input rows.
    pub row_index: usize,
    /// Key of the row.
    pub row_key: Seq<char>,
    /// Whether the row is disabled.
    pub disabled: bool,
}

/// Abstract value of a record.
pub open spec fn record_view(r: DataTableRowRecord) -> RecordView {
    RecordView { row_index: r.row_index, row_key: r.row_key@, disabled: r.disabled }
}

/// Abstract value of a list of records.
pub open spec fn records_view(v: Seq<DataTableRowRecord>) -> Seq<RecordView> {
    v.map_values(|r: DataTableRowRecord| record_view(r))
}

/// Abstract value of a list of keys.
pub open spec fn keys_view(v: Seq<String>) -> Seq<Seq<char>> {
    v.map_values(|s: String| s@)
}

/// The derived view of a table.
#[derive(Debug)]
pub struct DataTableView {
    /// All rows, duplicate keys dropped.
    pub records: Vec<DataTableRowRecord>,
    /// Filtered and sorted rows.
    pub processed_rows: Vec<DataTableRowRecord>,
    /// Rows of the current page.
    pub page_rows: Vec<DataTableRowRecord>,
    /// Pagination state.
    pub page_state: DataTablePageState,
}

// ---------------------------------------------------------------------------
// Records.

/// Whether the row at `k` repeats the key of an earlier row.
pub open spec fn key_taken(rows: Seq<DataTableRow>, k: int) -> bool {
    exists|j: int| 0 <= j < k && #[trigger] rows[j].key@ == rows[k].key@
}

/// Records of the first `n` rows: each key with its first row.
pub open spec fn records_upto(rows: Seq<DataTableRow>, n: int) -> Seq<RecordView>
    decreases n,
{
    if n <= 0 {
        Seq::empty()
    } else if key_taken(rows, n - 1) {
        records_upto(rows, n - 1)
    } else {
        records_upto(rows, n - 1).push(
            RecordView {
                row_index: (n - 1) as usize,
                row_key: rows[n - 1].key@,
                disabled: rows[n - 1].disabled,
            },
        )
    }
}

/// Whether some record carries `key`.
pub open spec fn has_record_key(recs: Seq<RecordView>, key: Seq<char>) -> bool {
    exists|p: int| 0 <= p < recs.len() && #[trigger] recs[p].row_key == key
}

/// Whether one of the first `n` rows carries `key`.
pub open spec fn has_row_key(rows: Seq<DataTableRow>, n: int, key: Seq<char>) -> bool {
    exists|j: int| 0 <= j < n && #[trigger] rows[j].key@ == key
}

/// Records view of a list with one more record.
pub proof fn lemma_records_view_push(v: Seq<DataTableRowRecord>, x: DataTableRowRecord)
    ensures
        records_view(v.push(x)) == records_view(v).push(record_view(x)),
{
    assert(records_view(v.push(x)) =~= records_view(v).push(record_view(x)));
}

/// Keys view of a list with one more key.
pub proof fn lemma_keys_view_push(v: Seq<String>, x: String)
    ensures
        keys_view(v.push(x)) == keys_view(v).push(x@),
{
    assert(keys_view(v.push(x)) =~= keys_view(v).push(x@));
}

proof fn lemma_has_row_key_step(rows: Seq<DataTableRow>, i: int, key: Seq<char>)
    requires
        0 <= i < rows.len(),
    ensures
        has_row_key(rows, i + 1, key) == (has_row_key(rows, i, key) || rows[i].key@ == key),
{
    if has_row_key(rows, i + 1, key) {
        let j = choose|j: int| 0 <= j < i + 1 && #[trigger] rows[j].key@ == key;
        if j < i {
            assert(has_row_key(rows, i, key));
        }
    }
    if has_row_key(rows, i, key) {
        let j = choose|j: int| 0 <= j < i && #[trigger] rows[j].key@ == key;
        assert(has_row_key(rows, i + 1, key));
    }
    if rows[i].key@ == key {
        assert(has_row_key(rows, i + 1, key));
    }
}

proof fn lemma_has_record_key_push(recs: Seq<RecordView>, x: RecordView, key: Seq<char>)
    ensures
        has_record_key(recs.push(x), key) == (has_record_key(recs, key) || x.row_key == key),
{
    if has_record_key(recs.push(x), key) {
        let p = choose|p: int| 0 <= p < recs.len() + 1 && #[trigger] recs.push(x)[p].row_key == key;
        if p < recs.len() {
            assert(recs[p] == recs.push(x)[p]);
            assert(has_record_key(recs, key));
        }
    }
    if has_record_key(recs, key) {
        let p = choose|p: int| 0 <= p < recs.len() && #[trigger] recs[p].row_key == key;
        assert(recs.push(x)[p] == recs[p]);
        assert(has_record_key(recs.push(x), key));
    }
    if x.row_key == key {
        assert(recs.push(x)[recs.len() as int] == x);
        assert(has_record_key(recs.push(x), key));
    }
}

/// Records of all rows.
pub open spec fn table_records(rows: Seq<DataTableRow>) -> Seq<RecordView> {
    records_upto(rows, rows.len() as int)
}

// ---------------------------------------------------------------------------
// Filtering.

/// Text of column `c` in `row`; empty when the row has no such cell.
pub open spec fn cell_text(row: DataTableRow, c: int) -> Seq<char> {
    if 0 <= c < row.cells.len() {
        row.cells[c]@
    } else {
        Seq::empty()
    }
}

/// The filter as it is matched: trimmed and lowercase.
pub open spec fn normalized_filter(filter: Seq<char>) -> Seq<char> {
    lowercase_of(trimmed(filter))
}

/// Whether some filterable column of `row` contains `needle`, ignoring case.
pub open spec fn row_matches(needle: Seq<char>, row: DataTableRow, columns: Seq<DataTableColumn>) -> bool {
    exists|c: int|
        0 <= c < columns.len() && columns[c].spec_is_filterable() && #[trigger] occurs_in(
            needle,
            lowercase_of(cell_text(row, c)),
        )
}

/// Records among the first `n` of `recs` whose row matches `needle`.
pub open spec fn filter_upto(
    recs: Seq<RecordView>,
    rows: Seq<DataTableRow>,
    columns: Seq<DataTableColumn>,
    needle: Seq<char>,
    n: int,
) -> Seq<RecordView>
    decreases n,
{
    if n <= 0 {
        Seq::empty()
    } else if row_matches(needle, rows[recs[n - 1].row_index as int], columns) {
        filter_upto(recs, rows, columns, needle, n - 1).push(recs[n - 1])
    } else {
        filter_upto(recs, rows, columns, needle, n - 1)
    }
}

/// Records kept by the filter; an empty filter keeps them all.
pub open spec fn filtered_records(
    recs: Seq<RecordView>,
    rows: Seq<DataTableRow>,
    columns: Seq<DataTableColumn>,
    filter: Seq<char>,
) -> Seq<RecordView> {
    let needle = normalized_filter(filter);
    if needle.len() == 0 {
        recs
    } else {
        filter_upto(recs, rows, columns, needle, recs.len() as int)
    }
}

// ---------------------------------------------------------------------------
// Sorting.

/// Abstract value of a sort.
pub open spec fn sort_view(sort: Option<DataTableSort>) -> Option<(Seq<char>, DataTableSortDirection)> {
    match sort {
        Some(s) => Some((s.column_key@, s.direction)),
        None => None,
    }
}

/// First sortable column, at or after `i`, whose key is `key`.
pub open spec fn sortable_column_from(key: Seq<char>, columns: Seq<DataTableColumn>, i: int) -> Option<int>
    decreases columns.len() - i,
{
    if i < 0 || i >= columns.len() {
        None
    } else if columns[i].key@ == key && columns[i].spec_is_sortable() {
        Some(i)
    } else {
        sortable_column_from(key, columns, i + 1)
    }
}

/// Lowercase text by which a record sorts on column `c`.
pub open spec fn sort_text(rows: Seq<DataTableRow>, r: RecordView, c: int) -> Seq<char> {
    lowercase_of(cell_text(rows[r.row_index as int], c))
}

/// Whether `a` comes before `b` when sorting on column `c` in `dir`: by the
/// lowercase text in the given direction, then by row position.
pub open spec fn goes_before(
    rows: Seq<DataTableRow>,
    c: int,
    dir: DataTableSortDirection,
    a: RecordView,
    b: RecordView,
) -> bool {
    let o = match dir {
        DataTableSortDirection::Asc => text_order(sort_text(rows, a, c), sort_text(rows, b, c)),
        DataTableSortDirection::Desc => text_order(sort_text(rows, b, c), sort_text(rows, a, c)),
    };
    o < 0 || (o == 0 && a.row_index < b.row_index)
}

/// Position, at or after `i`, of the first element of `sorted` that `x` goes
/// before; the length when there is none.
pub open spec fn insert_position(
    sorted: Seq<RecordView>,
    x: RecordView,
    rows: Seq<DataTableRow>,
    c: int,
    dir: DataTableSortDirection,
    i: int,
) -> int
    decreases sorted.len() - i,
{
    if i < 0 || i >= sorted.len() {
        sorted.len() as int
    } else if goes_before(rows, c, dir, x, sorted[i]) {
        i
    } else {
        insert_position(sorted, x, rows, c, dir, i + 1)
    }
}

/// The first `n` records in sorted order.
pub open spec fn sort_upto(
    recs: Seq<RecordView>,
    rows: Seq<DataTableRow>,
    c: int,
    dir: DataTableSortDirection,
    n: int,
) -> Seq<RecordView>
    decreases n,
{
    if n <= 0 {
        Seq::empty()
    } else {
        let s = sort_upto(recs, rows, c, dir, n - 1);
        s.insert(insert_position(s, recs[n - 1], rows, c, dir, 0), recs[n - 1])
    }
}

/// Records in the order the sort asks for; unsorted when there is no sort or
/// no sortable column carries its key.
pub open spec fn sorted_records(
    recs: Seq<RecordView>,
    rows: Seq<DataTableRow>,
    columns: Seq<DataTableColumn>,
    sort: Option<(Seq<char>, DataTableSortDirection)>,
) -> Seq<RecordView> {
    match sort {
        None => recs,
        Some((key, dir)) => match sortable_column_from(key, columns, 0) {
            None => recs,
            Some(c) => sort_upto(recs, rows, c, dir, recs.len() as int),
        },
    }
}

/// Filtered and sorted records.
pub open spec fn processed_records(
    filter: Seq<char>,
    sort: Option<(Seq<char>, DataTableSortDirection)>,
    rows: Seq<DataTableRow>,
    columns: Seq<DataTableColumn>,
) -> Seq<RecordView> {
    sorted_records(
        filtered_records(table_records(rows), rows, columns, filter),
        rows,
        columns,
        sort,
    )
}

// ---------------------------------------------------------------------------
// Pagination.

/// Number of pages for `total` rows, at least one.
pub open spec fn total_pages_for(total: int, page_size: int) -> int {
    let size = if page_size < 1 {
        1
    } else {
        page_size
    };
    let pages = total / size + if total % size == 0 {
        0int
    } else {
        1int
    };
    if pages < 1 {
        1
    } else {
        pages
    }
}

/// `x` clamped into `lo..=hi`.
pub open spec fn clamp_int(x: int, lo: int, hi: int) -> int {
    if x < lo {
        lo
    } else if x > hi {
        hi
    } else {
        x
    }
}

/// Pagination state for `total` rows: the page is clamped into the page range
/// and a page size of 0 counts as 1.
pub open spec fn page_state_for(total: int, page: int, page_size: int) -> DataTablePageState {
    let size = if page_size < 1 {
        1
    } else {
        page_size
    };
    let pages = total_pages_for(total, size);
    DataTablePageState {
        page: clamp_int(page, 1, pages) as usize,
        page_size: size as usize,
        total_rows: total as usize,
        total_pages: pages as usize,
    }
}

/// Rows of the page that `ps` describes.
pub open spec fn page_slice(recs: Seq<RecordView>, ps: DataTablePageState) -> Seq<RecordView> {
    let start = (ps.page - 1) * ps.page_size;
    let end = if start + ps.page_size < recs.len() {
        start + ps.page_size
    } else {
        recs.len() as int
    };
    if start >= recs.len() {
        Seq::empty()
    } else {
        recs.subrange(start, end)
    }
}

// ---------------------------------------------------------------------------
// Selection keys.

/// The first `n` keys without repeats, first occurrences kept.
pub open spec fn dedup_upto(keys: Seq<Seq<char>>, n: int) -> Seq<Seq<char>>
    decreases n,
{
    if n <= 0 {
        Seq::empty()
    } else if dedup_upto(keys, n - 1).contains(keys[n - 1]) {
        dedup_upto(keys, n - 1)
    } else {
        dedup_upto(keys, n - 1).push(keys[n - 1])
    }
}

/// `keys` without repeats, first occurrences kept.
pub open spec fn dedup(keys: Seq<Seq<char>>) -> Seq<Seq<char>> {
    dedup_upto(keys, keys.len() as int)
}

/// Selected keys as a selection mode allows them.
pub open spec fn normalized_keys(keys: Seq<Seq<char>>, mode: DataTableSelectionMode) -> Seq<Seq<char>> {
    match mode {
        DataTableSelectionMode::NoSelection => Seq::empty(),
        DataTableSelectionMode::Single => if keys.len() > 0 {
            seq![keys[0]]
        } else {
            Seq::empty()
        },
        DataTableSelectionMode::Multiple => dedup(keys),
    }
}

/// The first `n` keys that are not in `drop`.
pub open spec fn without_upto(keys: Seq<Seq<char>>, drop: Seq<Seq<char>>, n: int) -> Seq<Seq<char>>
    decreases n,
{
    if n <= 0 {
        Seq::empty()
    } else if drop.contains(keys[n - 1]) {
        without_upto(keys, drop, n - 1)
    } else {
        without_upto(keys, drop, n - 1).push(keys[n - 1])
    }
}

/// `base` followed by those of the first `n` of `add` not yet present.
pub open spec fn append_missing_upto(base: Seq<Seq<char>>, add: Seq<Seq<char>>, n: int) -> Seq<Seq<char>>
    decreases n,
{
    if n <= 0 {
        base
    } else if append_missing_upto(base, add, n - 1).contains(add[n - 1]) {
        append_missing_upto(base, add, n - 1)
    } else {
        append_missing_upto(base, add, n - 1).push(add[n - 1])
    }
}

/// Keys of the enabled records among the first `n`, in order.
pub open spec fn enabled_keys_upto(recs: Seq<RecordView>, n: int) -> Seq<Seq<char>>
    decreases n,
{
    if n <= 0 {
        Seq::empty()
    } else if recs[n - 1].disabled {
        enabled_keys_upto(recs, n - 1)
    } else {
        enabled_keys_upto(recs, n - 1).push(recs[n - 1].row_key)
    }
}

/// Selected keys after toggling one row.
pub open spec fn toggled_row(
    selected: Seq<Seq<char>>,
    key: Seq<char>,
    disabled: bool,
    mode: DataTableSelectionMode,
) -> Seq<Seq<char>> {
    if disabled {
        selected
    } else {
        match mode {
            DataTableSelectionMode::NoSelection => selected,
            DataTableSelectionMode::Single => seq![key],
            DataTableSelectionMode::Multiple => if selected.contains(key) {
                dedup(without_upto(selected, seq![key], selected.len() as int))
            } else {
                dedup(selected.push(key))
            },
        }
    }
}

/// Selected keys after toggling the enabled rows of a page: when they are all
/// selected they are removed, otherwise the missing ones are appended in page
/// order.
pub open spec fn toggled_page(
    selected: Seq<Seq<char>>,
    page: Seq<RecordView>,
    mode: DataTableSelectionMode,
) -> Seq<Seq<char>> {
    let keys = enabled_keys_upto(page, page.len() as int);
    if mode != DataTableSelectionMode::Multiple || keys.len() == 0 {
        selected
    } else if forall|i: int| 0 <= i < keys.len() ==> selected.contains(#[trigger] keys[i]) {
        dedup(without_upto(selected, keys, selected.len() as int))
    } else {
        dedup(append_missing_upto(selected, keys, keys.len() as int))
    }
}

// ---------------------------------------------------------------------------
// Keyboard-active row.

/// Positions of the enabled records among the first `n`, in order.
pub open spec fn enabled_positions_upto(recs: Seq<RecordView>, n: int) -> Seq<int>
    decreases n,
{
    if n <= 0 {
        Seq::empty()
    } else if recs[n - 1].disabled {
        enabled_positions_upto(recs, n - 1)
    } else {
        enabled_positions_upto(recs, n - 1).push(n - 1)
    }
}

/// Positions of the enabled records, in order.
pub open spec fn enabled_positions(recs: Seq<RecordView>) -> Seq<int> {
    enabled_positions_upto(recs, recs.len() as int)
}

/// First `q`, at or after `i`, at which `pos` points to a record with `key`.
pub open spec fn key_position_from(
    recs: Seq<RecordView>,
    pos: Seq<int>,
    key: Seq<char>,
    i: int,
) -> Option<int>
    decreases pos.len() - i,
{
    if i < 0 || i >= pos.len() {
        None
    } else if recs[pos[i]].row_key == key {
        Some(i)
    } else {
        key_position_from(recs, pos, key, i + 1)
    }
}

/// Active row key after moving by `delta` enabled rows on a page.
pub open spec fn moved_active(page: Seq<RecordView>, active: Option<Seq<char>>, delta: int) -> Option<
    Seq<char>,
> {
    let pos = enabled_positions(page);
    if pos.len() == 0 {
        None
    } else {
        let current = match active {
            Some(k) => match key_position_from(page, pos, k, 0) {
                Some(q) => q,
                None => 0,
            },
            None => 0,
        };
        let next = if delta < 0 {
            if current + delta < 0 {
                0
            } else {
                current + delta
            }
        } else {
            if current + delta > pos.len() - 1 {
                pos.len() - 1
            } else {
                current + delta
            }
        };
        Some(page[pos[next]].row_key)
    }
}

/// First record of `recs`, at or after `i`, whose key is `key`.
pub open spec fn record_with_key_from(recs: Seq<RecordView>, key: Seq<char>, i: int) -> Option<int>
    decreases recs.len() - i,
{
    if i < 0 || i >= recs.len() {
        None
    } else if recs[i].row_key == key {
        Some(i)
    } else {
        record_with_key_from(recs, key, i + 1)
    }
}

// ---------------------------------------------------------------------------
// The state.

/// Abstract value of a `DataTableState`.
pub struct DataTableStateView {
    /// Filter text.
    pub filter: Seq<char>,
    /// Sort: column key and direction.
    pub sort: Option<(Seq<char>, DataTableSortDirection)>,
    /// Requested page, at least 1.
    pub page: usize,
    /// Rows per page, at least 1.
    pub page_size: usize,
    /// Selected row keys.
    pub selected: Seq<Seq<char>>,
    /// Keyboard-active row key.
    pub active: Option<Seq<char>>,
}

/// Filtered and sorted records for a state.
pub open spec fn view_processed(
    v: DataTableStateView,
    rows: Seq<DataTableRow>,
    columns: Seq<DataTableColumn>,
) -> Seq<RecordView> {
    processed_records(v.filter, v.sort, rows, columns)
}

/// Pagination state for a state.
pub open spec fn view_page_state(
    v: DataTableStateView,
    rows: Seq<DataTableRow>,
    columns: Seq<DataTableColumn>,
) -> DataTablePageState {
    page_state_for(view_processed(v, rows, columns).len() as int, v.page as int, v.page_size as int)
}

/// Rows of the current page for a state.
pub open spec fn view_page_rows(
    v: DataTableStateView,
    rows: Seq<DataTableRow>,
    columns: Seq<DataTableColumn>,
) -> Seq<RecordView> {
    page_slice(view_processed(v, rows, columns), view_page_state(v, rows, columns))
}

/// The state with its page clamped into the page range.
pub open spec fn with_page_clamped(
    v: DataTableStateView,
    rows: Seq<DataTableRow>,
    columns: Seq<DataTableColumn>,
) -> DataTableStateView {
    DataTableStateView { page: view_page_state(v, rows, columns).page, ..v }
}

/// Key of the first enabled record at or after `i`.
pub open spec fn first_enabled_key_from(recs: Seq<RecordView>, i: int) -> Option<Seq<char>>
    decreases recs.len() - i,
{
    if i < 0 || i >= recs.len() {
        None
    } else if !recs[i].disabled {
        Some(recs[i].row_key)
    } else {
        first_enabled_key_from(recs, i + 1)
    }
}

/// Whether `key` is the key of an enabled record.
pub open spec fn is_enabled_key(recs: Seq<RecordView>, key: Seq<char>) -> bool {
    exists|i: int| 0 <= i < recs.len() && !recs[i].disabled && #[trigger] recs[i].row_key == key
}

/// The state with the active row kept when it is an enabled row of the
/// current page, and moved to the first such row otherwise.
pub open spec fn with_active_synced(
    v: DataTableStateView,
    rows: Seq<DataTableRow>,
    columns: Seq<DataTableColumn>,
) -> DataTableStateView {
    let page = view_page_rows(v, rows, columns);
    match v.active {
        Some(k) if is_enabled_key(page, k) => v,
        _ => DataTableStateView { active: first_enabled_key_from(page, 0), ..v },
    }
}

/// The state after its derived parts are brought in line with the data:
/// the page is clamped, then the active row is synchronised.
pub open spec fn settled(
    v: DataTableStateView,
    rows: Seq<DataTableRow>,
    columns: Seq<DataTableColumn>,
) -> DataTableStateView {
    with_active_synced(with_page_clamped(v, rows, columns), rows, columns)
}

/// A sort kept only when a sortable column carries its key.
pub open spec fn normalized_sort(
    sort: Option<(Seq<char>, DataTableSortDirection)>,
    columns: Seq<DataTableColumn>,
) -> Option<(Seq<char>, DataTableSortDirection)> {
    match sort {
        Some((key, dir)) => if sortable_column_from(key, columns, 0) is Some {
            Some((key, dir))
        } else {
            None
        },
        None => None,
    }
}

/// The sort after a click on the header of the sortable column `key`:
/// none, ascending, descending, none.
pub open spec fn cycled_sort(
    sort: Option<(Seq<char>, DataTableSortDirection)>,
    key: Seq<char>,
) -> Option<(Seq<char>, DataTableSortDirection)> {
    match sort {
        Some((k, DataTableSortDirection::Asc)) if k == key => Some(
            (key, DataTableSortDirection::Desc),
        ),
        Some((k, DataTableSortDirection::Desc)) if k == key => None,
        _ => Some((key, DataTableSortDirection::Asc)),
    }
}

/// Core state of a `DataTable`.
#[derive(Debug)]
pub struct DataTableState {
    filter_text: String,
    sort: Option<DataTableSort>,
    page: usize,
    page_size: usize,
    selected_row_keys: Vec<String>,
    active_row_key: Option<String>,
}

impl DataTableState {
    /// Abstract value of the state.
    pub closed spec fn model(&self) -> DataTableStateView {
        DataTableStateView {
            filter: self.filter_text@,
            sort: sort_view(self.sort),
            page: self.page,
            page_size: self.page_size,
            selected: keys_view(self.selected_row_keys@),
            active: match self.active_row_key {
                Some(k) => Some(k@),
                None => None,
            },
        }
    }
}

/// What an operation reports, given the values before and after it.
pub open spec fn table_outcome(a: DataTableStateView, b: DataTableStateView) -> DataTableStateOutcome {
    DataTableStateOutcome {
        filter_changed: a.filter != b.filter,
        sort_changed: a.sort != b.sort,
        page_changed: a.page != b.page || a.page_size != b.page_size,
        selection_changed: a.selected != b.selected,
        active_changed: a.active != b.active,
    }
}

impl DataTableState {
    /// A new state; page and page size below 1 become 1 and the selected keys
    /// are normalised for the selection mode.
    pub fn new(
        filter_text: String,
        sort: Option<DataTableSort>,
        page: usize,
        page_size: usize,
        selected_row_keys: Vec<String>,
        selection_mode: DataTableSelectionMode,
    ) -> (s: Self)
        ensures
            s.model() == (DataTableStateView {
                filter: filter_text@,
                sort: sort_view(sort),
                page: if page < 1 {
                    1
                } else {
                    page
                },
                page_size: if page_size < 1 {
                    1
                } else {
                    page_size
                },
                selected: normalized_keys(keys_view(selected_row_keys@), selection_mode),
                active: None,
            }),
    {
        let keys = normalize_selected_keys(&selected_row_keys, selection_mode);
        DataTableState {
            filter_text,
            sort,
            page: if page < 1 {
                1
            } else {
                page
            },
            page_size: if page_size < 1 {
                1
            } else {
                page_size
            },
            selected_row_keys: keys,
            active_row_key: None,
        }
    }

    /// The state a table starts in: built from the initial filter, sort, page,
    /// page size and selection of `props`, then brought in line with its rows
    /// and columns.
    pub fn from_props(props: &DataTableProps) -> (s: Self)
        ensures
            ({
                let init = DataTableStateView {
                    filter: props.filter_text@,
                    sort: normalized_sort(sort_view(props.sort), props.columns@),
                    page: if props.page < 1 {
                        1
                    } else {
                        props.page
                    },
                    page_size: if props.page_size < 1 {
                        1
                    } else {
                        props.page_size
                    },
                    selected: normalized_keys(keys_view(props.selected_row_keys@), props.selection_mode),
                    active: None,
                };
                s.model() == settled(init, props.rows@, props.columns@)
            }),
    {
        let keys = normalize_selected_keys(&props.selected_row_keys, props.selection_mode);
        let mut state = DataTableState {
            filter_text: props.filter_text.clone(),
            sort: copy_sort(&props.sort),
            page: if props.page < 1 {
                1
            } else {
                props.page
            },
            page_size: if props.page_size < 1 {
                1
            } else {
                props.page_size
            },
            selected_row_keys: keys,
            active_row_key: None,
        };
        state.sync_inputs_silent(props.rows.as_slice(), props.columns.as_slice());
        state
    }

    /// The filter text.
    pub fn filter_text(&self) -> (r: &String)
        ensures
            r@ == self.model().filter,
    {
        &self.filter_text
    }

    /// The sort.
    pub fn sort(&self) -> (r: Option<&DataTableSort>)
        ensures
            match r {
                Some(s) => self.model().sort == Some((s.column_key@, s.direction)),
                None => self.model().sort is None,
            },
    {
        self.sort.as_ref()
    }

    /// The requested page.
    pub fn page(&self) -> (r: usize)
        ensures
            r == self.model().page,
    {
        self.page
    }

    /// Rows per page.
    pub fn page_size(&self) -> (r: usize)
        ensures
            r == self.model().page_size,
    {
        self.page_size
    }

    /// The selected row keys.
    pub fn selected_row_keys(&self) -> (r: &[String])
        ensures
            keys_view(r@) == self.model().selected,
    {
        self.selected_row_keys.as_slice()
    }

    /// The keyboard-active row key.
    pub fn active_row_key(&self) -> (r: Option<&String>)
        ensures
            match r {
                Some(k) => self.model().active == Some(k@),
                None => self.model().active is None,
            },
    {
        self.active_row_key.as_ref()
    }

    /// The derived view: records, processed rows, current page rows and
    /// pagination state.
    pub fn view(&self, rows: &[DataTableRow], columns: &[DataTableColumn]) -> (v: DataTableView)
        ensures
            records_view(v.records@) == table_records(rows@),
            records_view(v.processed_rows@) == view_processed(self.model(), rows@, columns@),
            v.page_state == view_page_state(self.model(), rows@, columns@),
            records_view(v.page_rows@) == view_page_rows(self.model(), rows@, columns@),
            trimmed(self.model().filter).len() == 0 ==> records_view(v.processed_rows@) == sorted_records(
                table_records(rows@),
                rows@,
                columns@,
                self.model().sort,
            ),
    {
        let records = build_records(rows);
        let filtered = filter_records(rows, columns, &records, &self.filter_text);
        let processed = sort_records(rows, columns, &filtered, &self.sort);
        let ps = page_state(processed.len(), self.page, self.page_size);
        let page_rows = page_records(&processed, ps);
        DataTableView { records, processed_rows: processed, page_rows, page_state: ps }
    }

    /// The selected row keys as a set.
    pub fn selected_set(&self) -> (r: StringHashSet)
        ensures
            r@ == self.model().selected.to_set(),
    {
        let mut set = StringHashSet::new();
        let n = self.selected_row_keys.len();
        let mut i: usize = 0;
        while i < n
            invariant
                n == self.selected_row_keys@.len(),
                i <= n,
                set@ == keys_view(self.selected_row_keys@.subrange(0, i as int)).to_set(),
            decreases n - i,
        {
            let key = self.selected_row_keys[i].clone();
            proof {
                let v = self.selected_row_keys@;
                assert(keys_view(v.subrange(0, i + 1)) =~= keys_view(v.subrange(0, i as int)).push(
                    v[i as int]@,
                ));
                keys_view(v.subrange(0, i as int)).lemma_push_to_set_commute(v[i as int]@);
            }
            set.insert(key);
            i = i + 1;
        }
        assert(self.selected_row_keys@.subrange(0, n as int) =~= self.selected_row_keys@);
        set
    }

    /// Number of rows left after filtering.
    pub fn filtered_row_count(&self, rows: &[DataTableRow], columns: &[DataTableColumn]) -> (r: usize)
        ensures
            r == view_processed(self.model(), rows@, columns@).len(),
    {
        let v = self.view(rows, columns);
        v.processed_rows.len()
    }

    /// Replaces the filter text, then settles page and active row.
    pub fn set_filter_text_silent(
        &mut self,
        filter_text: String,
        rows: &[DataTableRow],
        columns: &[DataTableColumn],
    ) -> (o: DataTableStateOutcome)
        ensures
            final(self).model() == settled(
                DataTableStateView { filter: filter_text@, ..old(self).model() },
                rows@,
                columns@,
            ),
            o == table_outcome(old(self).model(), final(self).model()),
    {
        let filter_changed = !strings_equal(&self.filter_text, &filter_text);
        self.filter_text = filter_text;
        let settle = self.settle(rows, columns);
        DataTableStateOutcome { filter_changed, ..settle }
    }

    /// Replaces the sort (dropped when no sortable column has its key), then
    /// settles page and active row.
    pub fn set_sort_silent(
        &mut self,
        sort: Option<DataTableSort>,
        rows: &[DataTableRow],
        columns: &[DataTableColumn],
    ) -> (o: DataTableStateOutcome)
        ensures
            final(self).model() == settled(
                DataTableStateView {
                    sort: normalized_sort(sort_view(sort), columns@),
                    ..old(self).model()
                },
                rows@,
                columns@,
            ),
            o == table_outcome(old(self).model(), final(self).model()),
    {
        let sort = normalize_sort(sort, columns);
        let sort_changed = !sort_eq(&self.sort, &sort);
        self.sort = sort;
        let settle = self.settle(rows, columns);
        DataTableStateOutcome { sort_changed, ..settle }
    }

    /// Asks for page `page` (at least 1), then settles page and active row.
    pub fn set_page_silent(&mut self, page: usize, rows: &[DataTableRow], columns: &[DataTableColumn]) -> (o:
        DataTableStateOutcome)
        ensures
            final(self).model() == settled(
                DataTableStateView {
                    page: if page < 1 {
                        1
                    } else {
                        page
                    },
                    ..old(self).model()
                },
                rows@,
                columns@,
            ),
            o == table_outcome(old(self).model(), final(self).model()),
    {
        let before = self.page;
        self.page = if page < 1 {
            1
        } else {
            page
        };
        let settle = self.settle(rows, columns);
        DataTableStateOutcome { page_changed: self.page != before, ..settle }
    }

    /// Sets the page size (at least 1), then settles page and active row.
    pub fn set_page_size_silent(
        &mut self,
        page_size: usize,
        rows: &[DataTableRow],
        columns: &[DataTableColumn],
    ) -> (o: DataTableStateOutcome)
        ensures
            final(self).model() == settled(
                DataTableStateView {
                    page_size: if page_size < 1 {
                        1
                    } else {
                        page_size
                    },
                    ..old(self).model()
                },
                rows@,
                columns@,
            ),
            o == table_outcome(old(self).model(), final(self).model()),
    {
        let before_size = self.page_size;
        let before_page = self.page;
        self.page_size = if page_size < 1 {
            1
        } else {
            page_size
        };
        let settle = self.settle(rows, columns);
        DataTableStateOutcome {
            page_changed: self.page_size != before_size || self.page != before_page,
            ..settle
        }
    }

    /// Replaces the selected keys, normalised for the selection mode.
    pub fn set_selected_row_keys_silent(
        &mut self,
        selected_row_keys: Vec<String>,
        selection_mode: DataTableSelectionMode,
    ) -> (o: DataTableStateOutcome)
        ensures
            final(self).model() == (DataTableStateView {
                selected: normalized_keys(keys_view(selected_row_keys@), selection_mode),
                ..old(self).model()
            }),
            o == table_outcome(old(self).model(), final(self).model()),
    {
        let keys = normalize_selected_keys(&selected_row_keys, selection_mode);
        let changed = !keys_equal(&self.selected_row_keys, &keys);
        self.selected_row_keys = keys;
        DataTableStateOutcome {
            filter_changed: false,
            sort_changed: false,
            page_changed: false,
            selection_changed: changed,
            active_changed: false,
        }
    }

    /// Brings the state in line with new rows or columns: the sort is dropped
    /// when its column is gone or not sortable, then page and active row are
    /// settled.
    pub fn sync_inputs_silent(&mut self, rows: &[DataTableRow], columns: &[DataTableColumn]) -> (o:
        DataTableStateOutcome)
        ensures
            final(self).model() == settled(
                DataTableStateView { sort: normalized_sort(old(self).model().sort, columns@), ..old(self).model() },
                rows@,
                columns@,
            ),
            o == table_outcome(old(self).model(), final(self).model()),
    {
        let current = copy_sort(&self.sort);
        let sort = normalize_sort(current, columns);
        let sort_changed = !sort_eq(&self.sort, &sort);
        self.sort = sort;
        let settle = self.settle(rows, columns);
        DataTableStateOutcome { sort_changed, ..settle }
    }

    /// Header click on column `column_key`: when it is a sortable column the
    /// sort cycles none, ascending, descending; otherwise nothing changes.
    pub fn cycle_sort(
        &mut self,
        column_key: &String,
        rows: &[DataTableRow],
        columns: &[DataTableColumn],
    ) -> (o: DataTableStateOutcome)
        ensures
            sortable_column_from(column_key@, columns@, 0) is None ==> final(self).model() == old(self).model(),
            sortable_column_from(column_key@, columns@, 0) is Some ==> final(self).model() == settled(
                DataTableStateView {
                    sort: cycled_sort(old(self).model().sort, column_key@),
                    ..old(self).model()
                },
                rows@,
                columns@,
            ),
            o == table_outcome(old(self).model(), final(self).model()),
    {
        let found = find_sortable_column(&column_key, columns);
        if found.is_none() {
            return DataTableStateOutcome::default();
        }
        let next = match &self.sort {
            Some(sort) => {
                if strings_equal(&sort.column_key, column_key) {
                    match sort.direction {
                        DataTableSortDirection::Asc => Some(
                            DataTableSort {
                                column_key: column_key.clone(),
                                direction: DataTableSortDirection::Desc,
                            },
                        ),
                        DataTableSortDirection::Desc => None,
                    }
                } else {
                    Some(
                        DataTableSort {
                            column_key: column_key.clone(),
                            direction: DataTableSortDirection::Asc,
                        },
                    )
                }
            },
            None => Some(
                DataTableSort {
                    column_key: column_key.clone(),
                    direction: DataTableSortDirection::Asc,
                },
            ),
        };
        proof {
            assert(normalized_sort(sort_view(next), columns@) == sort_view(next));
        }
        self.set_sort_silent(next, rows, columns)
    }

    /// Toggles the selection of one row; disabled rows and the mode without
    /// selection change nothing.
    pub fn toggle_row_selection(
        &mut self,
        row_key: &String,
        disabled: bool,
        selection_mode: DataTableSelectionMode,
    ) -> (o: DataTableStateOutcome)
        ensures
            final(self).model() == (DataTableStateView {
                selected: toggled_row(old(self).model().selected, row_key@, disabled, selection_mode),
                ..old(self).model()
            }),
            o == table_outcome(old(self).model(), final(self).model()),
    {
        if disabled {
            return DataTableStateOutcome::default();
        }
        let next: Vec<String> = match selection_mode {
            DataTableSelectionMode::NoSelection => {
                return DataTableStateOutcome::default();
            },
            DataTableSelectionMode::Single => {
                let mut v: Vec<String> = Vec::new();
                v.push(row_key.clone());
                proof {
                    assert(keys_view(v@) =~= seq![row_key@]);
                }
                v
            },
            DataTableSelectionMode::Multiple => {
                if contains_key(&self.selected_row_keys, row_key) {
                    let single = vec![row_key.clone()];
                    proof {
                        assert(keys_view(single@) =~= seq![row_key@]);
                    }
                    let rest = keys_without(&self.selected_row_keys, &single);
                    dedupe_keys(&rest)
                } else {
                    let mut grown = clone_keys(&self.selected_row_keys);
                    grown.push(row_key.clone());
                    proof {
                        assert(keys_view(grown@) =~= keys_view(self.selected_row_keys@).push(row_key@));
                    }
                    dedupe_keys(&grown)
                }
            },
        };
        let changed = !keys_equal(&self.selected_row_keys, &next);
        self.selected_row_keys = next;
        DataTableStateOutcome {
            filter_changed: false,
            sort_changed: false,
            page_changed: false,
            selection_changed: changed,
            active_changed: false,
        }
    }

    /// Toggles all enabled rows of a page in multiple selection: when they are
    /// all selected they are removed, otherwise the missing ones are added in
    /// page order. Other modes, and pages without enabled rows, change nothing.
    pub fn toggle_page_selection(
        &mut self,
        page_rows: &[DataTableRowRecord],
        selection_mode: DataTableSelectionMode,
    ) -> (o: DataTableStateOutcome)
        ensures
            final(self).model() == (DataTableStateView {
                selected: toggled_page(old(self).model().selected, records_view(page_rows@), selection_mode),
                ..old(self).model()
            }),
            o == table_outcome(old(self).model(), final(self).model()),
    {
        if selection_mode != DataTableSelectionMode::Multiple {
            return DataTableStateOutcome::default();
        }
        let keys = enabled_keys(page_rows);
        if keys.len() == 0 {
            return DataTableStateOutcome::default();
        }
        let all = all_contained(&keys, &self.selected_row_keys);
        let next = if all {
            let rest = keys_without(&self.selected_row_keys, &keys);
            dedupe_keys(&rest)
        } else {
            let grown = append_missing(&self.selected_row_keys, &keys);
            dedupe_keys(&grown)
        };
        let changed = !keys_equal(&self.selected_row_keys, &next);
        self.selected_row_keys = next;
        DataTableStateOutcome {
            filter_changed: false,
            sort_changed: false,
            page_changed: false,
            selection_changed: changed,
            active_changed: false,
        }
    }

    /// Empties the filter text, then settles page and active row.
    pub fn clear_filter(&mut self, rows: &[DataTableRow], columns: &[DataTableColumn]) -> (o:
        DataTableStateOutcome)
        ensures
            final(self).model() == settled(
                DataTableStateView { filter: Seq::empty(), ..old(self).model() },
                rows@,
                columns@,
            ),
            o == table_outcome(old(self).model(), final(self).model()),
    {
        self.set_filter_text_silent(String::new(), rows, columns)
    }

    /// Empties the selection.
    pub fn clear_selection(&mut self) -> (o: DataTableStateOutcome)
        ensures
            final(self).model() == (DataTableStateView { selected: Seq::empty(), ..old(self).model() }),
            o == table_outcome(old(self).model(), final(self).model()),
    {
        let changed = self.selected_row_keys.len() > 0;
        assert(keys_view(self.selected_row_keys@).len() == self.selected_row_keys@.len());
        if !changed {
            assert(keys_view(self.selected_row_keys@) =~= Seq::empty());
        }
        self.selected_row_keys = Vec::new();
        proof {
            assert(keys_view(self.selected_row_keys@) =~= Seq::empty());
        }
        DataTableStateOutcome {
            filter_changed: false,
            sort_changed: false,
            page_changed: false,
            selection_changed: changed,
            active_changed: false,
        }
    }

    /// Moves the active row by `delta` enabled rows of the page, stopping at
    /// the ends; a missing or unknown active row counts as the first one. A
    /// page without enabled rows clears the active row.
    pub fn move_active_by(&mut self, page_rows: &[DataTableRowRecord], delta: isize) -> (o:
        DataTableStateOutcome)
        ensures
            final(self).model() == (DataTableStateView {
                active: moved_active(records_view(page_rows@), old(self).model().active, delta as int),
                ..old(self).model()
            }),
            o == table_outcome(old(self).model(), final(self).model()),
    {
        let next = active_after_move(page_rows, &self.active_row_key, delta);
        self.set_active(next)
    }

    /// Makes the first enabled row of the page active (none when there is none).
    pub fn move_active_first(&mut self, page_rows: &[DataTableRowRecord]) -> (o:
        DataTableStateOutcome)
        ensures
            final(self).model() == (DataTableStateView {
                active: first_enabled_key_from(records_view(page_rows@), 0),
                ..old(self).model()
            }),
            o == table_outcome(old(self).model(), final(self).model()),
    {
        let next = first_enabled_key(page_rows);
        self.set_active(next)
    }

    /// Makes the last enabled row of the page active (none when there is none).
    pub fn move_active_last(&mut self, page_rows: &[DataTableRowRecord]) -> (o:
        DataTableStateOutcome)
        ensures
            final(self).model() == (DataTableStateView {
                active: {
                    let pos = enabled_positions(records_view(page_rows@));
                    if pos.len() == 0 {
                        None
                    } else {
                        Some(records_view(page_rows@)[pos.last()].row_key)
                    }
                },
                ..old(self).model()
            }),
            o == table_outcome(old(self).model(), final(self).model()),
    {
        let pos = enabled_page_positions(page_rows);
        if pos.len() == 0 {
            return self.set_active(None);
        }
        let p = pos[pos.len() - 1];
        let key = page_rows[p].row_key.clone();
        self.set_active(Some(key))
    }

    /// Toggles the selection of the active row of the page, if there is one.
    pub fn toggle_active_selection(
        &mut self,
        page_rows: &[DataTableRowRecord],
        selection_mode: DataTableSelectionMode,
    ) -> (o: DataTableStateOutcome)
        ensures
            ({
                let page = records_view(page_rows@);
                match old(self).model().active {
                    None => final(self).model() == old(self).model(),
                    Some(k) => match record_with_key_from(page, k, 0) {
                        None => final(self).model() == old(self).model(),
                        Some(i) => final(self).model() == (DataTableStateView {
                            selected: toggled_row(
                                old(self).model().selected,
                                page[i].row_key,
                                page[i].disabled,
                                selection_mode,
                            ),
                            ..old(self).model()
                        }),
                    },
                }
            }),
            o == table_outcome(old(self).model(), final(self).model()),
    {
        let active = match &self.active_row_key {
            Some(k) => k.clone(),
            None => {
                return DataTableStateOutcome::default();
            },
        };
        match find_record(page_rows, &active) {
            Some(i) => {
                let key = page_rows[i].row_key.clone();
                self.toggle_row_selection(&key, page_rows[i].disabled, selection_mode)
            },
            None => DataTableStateOutcome::default(),
        }
    }

    // -----------------------------------------------------------------------
    // Private helpers.

    /// Clamps the page, then synchronises the active row.
    fn settle(&mut self, rows: &[DataTableRow], columns: &[DataTableColumn]) -> (o:
        DataTableStateOutcome)
        ensures
            final(self).model() == settled(old(self).model(), rows@, columns@),
            o == (DataTableStateOutcome {
                filter_changed: false,
                sort_changed: false,
                page_changed: old(self).model().page != final(self).model().page,
                selection_changed: false,
                active_changed: old(self).model().active != final(self).model().active,
            }),
    {
        let before = self.page;
        let view = self.view(rows, columns);
        self.page = view.page_state.page;
        let active_changed = self.sync_active(rows, columns);
        DataTableStateOutcome {
            filter_changed: false,
            sort_changed: false,
            page_changed: self.page != before,
            selection_changed: false,
            active_changed,
        }
    }

    fn sync_active(&mut self, rows: &[DataTableRow], columns: &[DataTableColumn]) -> (changed: bool)
        ensures
            final(self).model() == with_active_synced(old(self).model(), rows@, columns@),
            changed == (old(self).model().active != final(self).model().active),
    {
        let view = self.view(rows, columns);
        match &self.active_row_key {
            Some(k) => {
                if has_enabled_key(&view.page_rows, k) {
                    return false;
                }
            },
            None => {},
        }
        let next = first_enabled_key(&view.page_rows);
        let changed = !opt_key_eq(&self.active_row_key, &next);
        self.active_row_key = next;
        changed
    }

    fn set_active(&mut self, next: Option<String>) -> (o: DataTableStateOutcome)
        ensures
            final(self).model() == (DataTableStateView {
                active: match next {
                    Some(k) => Some(k@),
                    None => None,
                },
                ..old(self).model()
            }),
            o == table_outcome(old(self).model(), final(self).model()),
    {
        let changed = !opt_key_eq(&self.active_row_key, &next);
        self.active_row_key = next;
        DataTableStateOutcome {
            filter_changed: false,
            sort_changed: false,
            page_changed: false,
            selection_changed: false,
            active_changed: changed,
        }
    }
}

// ---------------------------------------------------------------------------
// Free functions.

/// Records of the rows, duplicate keys dropped (the first row of a key wins).
pub fn build_records(rows: &[DataTableRow]) -> (r: Vec<DataTableRowRecord>)
    ensures
        records_view(r@) == table_records(rows@),
        forall|p: int| 0 <= p < r@.len() ==> #[trigger] r@[p].row_index < rows@.len(),
{
    let mut records: Vec<DataTableRowRecord> = Vec::new();
    let mut i: usize = 0;
    while i < rows.len()
        invariant
            i <= rows.len(),
            records_view(records@) == records_upto(rows@, i as int),
            forall|key: Seq<char>|
                #[trigger] has_record_key(records_view(records@), key) == has_row_key(
                    rows@,
                    i as int,
                    key,
                ),
            forall|p: int| 0 <= p < records@.len() ==> #[trigger] records@[p].row_index < i,
        decreases rows.len() - i,
    {
        let ghost before = records@;
        let taken = record_has_key(&records, &rows[i].key);
        proof {
            assert(has_row_key(rows@, i as int, rows@[i as int].key@) == key_taken(rows@, i as int));
        }
        if !taken {
            let rec = DataTableRowRecord {
                row_index: i,
                row_key: rows[i].key.clone(),
                disabled: rows[i].disabled,
            };
            records.push(rec);
            proof {
                lemma_records_view_push(before, rec);
            }
        }
        proof {
            assert(records_view(records@) =~= records_upto(rows@, i + 1));
            assert forall|key: Seq<char>|
                #[trigger] has_record_key(records_view(records@), key) == has_row_key(
                    rows@,
                    i + 1,
                    key,
                ) by {
                lemma_has_row_key_step(rows@, i as int, key);
                if !taken {
                    lemma_has_record_key_push(records_view(before), records_view(records@).last(), key);
                }
            }
        }
        i = i + 1;
    }
    records
}

/// Pagination state for `total_rows` rows: a page size of 0 counts as 1 and the
/// page is clamped into `1..=total_pages`, where there is always one page.
pub fn page_state(total_rows: usize, page: usize, page_size: usize) -> (ps: DataTablePageState)
    ensures
        ps == page_state_for(total_rows as int, page as int, page_size as int),
{
    let size: usize = if page_size < 1 {
        1
    } else {
        page_size
    };
    let mut pages: usize = total_rows / size;
    if total_rows % size != 0 {
        proof {
            assert(total_rows / size < total_rows || total_rows / size == 0) by (nonlinear_arith)
                requires
                    size >= 1,
                    total_rows % size != 0,
            ;
        }
        pages = pages + 1;
    }
    if pages < 1 {
        pages = 1;
    }
    let clamped = if page < 1 {
        1
    } else if page > pages {
        pages
    } else {
        page
    };
    DataTablePageState { page: clamped, page_size: size, total_rows, total_pages: pages }
}

/// Page sizes offered for choice: the positive `options` and the current page
/// size (at least 1), ascending, without repeats.
pub fn normalized_page_sizes(options: &[usize], current_page_size: usize) -> (r: Vec<usize>)
    ensures
        forall|i: int, j: int| 0 <= i < j < r@.len() ==> r@[i] < r@[j],
        forall|x: usize|
            r@.contains(x) <==> ((options@.contains(x) && x > 0) || x == if current_page_size < 1 {
                1
            } else {
                current_page_size
            }),
{
    let current: usize = if current_page_size < 1 {
        1
    } else {
        current_page_size
    };
    let mut r: Vec<usize> = Vec::new();
    r.push(current);
    proof {
        assert forall|x: usize| r@.contains(x) <==> x == current by {
            if r@.contains(x) {
                let k = choose|k: int| 0 <= k < r@.len() && r@[k] == x;
                assert(k == 0);
            }
            if x == current {
                assert(r@[0] == x);
            }
        }
    }
    let mut i: usize = 0;
    while i < options.len()
        invariant
            i <= options.len(),
            forall|a: int, b: int| 0 <= a < b < r@.len() ==> r@[a] < r@[b],
            forall|x: usize| #[trigger] r@.contains(x) <==> (size_offered(options@, i as int, x) || x == current),
        decreases options.len() - i,
    {
        let x = options[i];
        let ghost before = r@;
        if x > 0 {
            let mut p: usize = 0;
            while p < r.len() && r[p] < x
                invariant
                    p <= r.len(),
                    forall|a: int| 0 <= a < p ==> r@[a] < x,
                decreases r.len() - p,
            {
                p = p + 1;
            }
            if p == r.len() || r[p] != x {
                proof {
                    assert forall|a: int| p <= a < r@.len() implies r@[a] > x by {
                        if a > p {
                            assert(r@[p as int] < r@[a]);
                        }
                    }
                }
                r.insert(p, x);
                proof {
                    lemma_insert_contains(before, p as int, x);
                    assert forall|a: int, b: int| 0 <= a < b < r@.len() implies r@[a] < r@[b] by {
                        if b < p {
                        } else if b == p {
                        } else if a < p {
                            assert(r@[b] == before[b - 1]);
                        } else if a == p {
                            assert(r@[b] == before[b - 1]);
                        } else {
                            assert(r@[a] == before[a - 1]);
                            assert(r@[b] == before[b - 1]);
                        }
                    }
                }
            } else {
                assert(r@.contains(x));
            }
        }
        proof {
            assert forall|y: usize| #[trigger] r@.contains(y) <==> (size_offered(options@, i + 1, y) || y == current) by {
                lemma_size_offered_step(options@, i as int, y);
            }
        }
        i = i + 1;
    }
    proof {
        assert forall|x: usize|
            r@.contains(x) <==> ((options@.contains(x) && x > 0) || x == current) by {
            if options@.contains(x) && x > 0 {
                let j = choose|j: int| 0 <= j < options@.len() && options@[j] == x;
                assert(size_offered(options@, options@.len() as int, x));
            }
            if size_offered(options@, options@.len() as int, x) {
                let j = choose|j: int| 0 <= j < options@.len() && #[trigger] options@[j] == x && x > 0;
                assert(options@.contains(x));
            }
        }
    }
    r
}

/// Whether one of the first `n` options is the positive size `x`.
pub open spec fn size_offered(options: Seq<usize>, n: int, x: usize) -> bool {
    exists|j: int| 0 <= j < n && #[trigger] options[j] == x && x > 0
}

proof fn lemma_size_offered_step(options: Seq<usize>, i: int, x: usize)
    requires
        0 <= i < options.len(),
    ensures
        size_offered(options, i + 1, x) == (size_offered(options, i, x) || (options[i] == x && x > 0)),
{
    if size_offered(options, i + 1, x) {
        let j = choose|j: int| 0 <= j < i + 1 && #[trigger] options[j] == x && x > 0;
        if j < i {
            assert(size_offered(options, i, x));
        }
    }
    if size_offered(options, i, x) {
        let j = choose|j: int| 0 <= j < i && #[trigger] options[j] == x && x > 0;
        assert(size_offered(options, i + 1, x));
    }
    if options[i] == x && x > 0 {
        assert(size_offered(options, i + 1, x));
    }
}

proof fn lemma_insert_contains(s: Seq<usize>, p: int, x: usize)
    requires
        0 <= p <= s.len(),
    ensures
        forall|y: usize| #[trigger] s.insert(p, x).contains(y) <==> (s.contains(y) || y == x),
{
    assert forall|y: usize| #[trigger] s.insert(p, x).contains(y) <==> (s.contains(y) || y == x) by {
        let t = s.insert(p, x);
        if t.contains(y) {
            let k = choose|k: int| 0 <= k < t.len() && t[k] == y;
            if k < p {
                assert(s[k] == y);
            } else if k > p {
                assert(s[k - 1] == y);
            }
        }
        if s.contains(y) {
            let k = choose|k: int| 0 <= k < s.len() && s[k] == y;
            if k < p {
                assert(t[k] == y);
            } else {
                assert(t[k + 1] == y);
            }
        }
        if y == x {
            assert(t[p] == y);
        }
    }
}

fn record_has_key(records: &Vec<DataTableRowRecord>, key: &String) -> (r: bool)
    ensures
        r == has_record_key(records_view(records@), key@),
{
    let mut i: usize = 0;
    while i < records.len()
        invariant
            i <= records.len(),
            forall|p: int| 0 <= p < i ==> #[trigger] records_view(records@)[p].row_key != key@,
        decreases records.len() - i,
    {
        if strings_equal(&records[i].row_key, key) {
            assert(records_view(records@)[i as int].row_key == key@);
            return true;
        }
        i = i + 1;
    }
    false
}

fn cell_chars(row: &DataTableRow, c: usize) -> (r: Vec<char>)
    ensures
        r@ == cell_text(*row, c as int),
{
    if c < row.cells.len() {
        chars_of(row.cells[c].as_str())
    } else {
        Vec::new()
    }
}

fn row_matches_needle(needle: &Vec<char>, row: &DataTableRow, columns: &[DataTableColumn]) -> (r:
    bool)
    ensures
        r == row_matches(needle@, *row, columns@),
{
    let mut c: usize = 0;
    while c < columns.len()
        invariant
            c <= columns.len(),
            forall|k: int|
                0 <= k < c ==> !(columns@[k].spec_is_filterable() && #[trigger] occurs_in(
                    needle@,
                    lowercase_of(cell_text(*row, k)),
                )),
        decreases columns.len() - c,
    {
        if columns[c].is_filterable() {
            let text = cell_chars(row, c);
            let lower = lowercase_chars(crate::text::string_from_chars(&text).as_str());
            if contains_chars(&lower, needle) {
                return true;
            }
        }
        c = c + 1;
    }
    false
}

fn filter_records(
    rows: &[DataTableRow],
    columns: &[DataTableColumn],
    records: &Vec<DataTableRowRecord>,
    filter_text: &String,
) -> (r: Vec<DataTableRowRecord>)
    requires
        forall|p: int| 0 <= p < records@.len() ==> #[trigger] records@[p].row_index < rows@.len(),
    ensures
        records_view(r@) == filtered_records(records_view(records@), rows@, columns@, filter_text@),
        trimmed(filter_text@).len() == 0 ==> records_view(r@) == records_view(records@),
        forall|p: int| 0 <= p < r@.len() ==> #[trigger] r@[p].row_index < rows@.len(),
{
    let text = chars_of(filter_text.as_str());
    let trimmed_text = trim_chars(&text);
    let needle = lowercase_chars(crate::text::string_from_chars(&trimmed_text).as_str());
    let mut r: Vec<DataTableRowRecord> = Vec::new();
    if needle.len() == 0 {
        let mut i: usize = 0;
        while i < records.len()
            invariant
                i <= records.len(),
                records_view(r@) == records_view(records@).subrange(0, i as int),
                forall|p: int| 0 <= p < r@.len() ==> #[trigger] r@[p].row_index < rows@.len(),
                forall|p: int|
                    0 <= p < records@.len() ==> #[trigger] records@[p].row_index < rows@.len(),
            decreases records.len() - i,
        {
            let ghost before = r@;
            let x = records[i].clone();
            r.push(x);
            proof {
                lemma_records_view_push(before, x);
                assert(records_view(r@) =~= records_view(records@).subrange(0, i + 1));
            }
            i = i + 1;
        }
        proof {
            assert(records_view(records@).subrange(0, records@.len() as int) =~= records_view(
                records@,
            ));
        }
        return r;
    }
    let mut i: usize = 0;
    while i < records.len()
        invariant
            i <= records.len(),
            needle@ == normalized_filter(filter_text@),
            records_view(r@) == filter_upto(
                records_view(records@),
                rows@,
                columns@,
                needle@,
                i as int,
            ),
            forall|p: int| 0 <= p < r@.len() ==> #[trigger] r@[p].row_index < rows@.len(),
            forall|p: int| 0 <= p < records@.len() ==> #[trigger] records@[p].row_index < rows@.len(),
        decreases records.len() - i,
    {
        let row_index = records[i].row_index;
        let ghost before = r@;
        if row_matches_needle(&needle, &rows[row_index], columns) {
            let x = records[i].clone();
            r.push(x);
            proof {
                lemma_records_view_push(before, x);
            }
        }
        proof {
            assert(records_view(r@) =~= filter_upto(
                records_view(records@),
                rows@,
                columns@,
                needle@,
                i + 1,
            ));
        }
        i = i + 1;
    }
    r
}

fn find_sortable_column(key: &String, columns: &[DataTableColumn]) -> (r: Option<usize>)
    ensures
        match r {
            Some(c) => sortable_column_from(key@, columns@, 0) == Some(c as int) && c
                < columns@.len(),
            None => sortable_column_from(key@, columns@, 0) is None,
        },
{
    let mut i: usize = 0;
    while i < columns.len()
        invariant
            i <= columns.len(),
            sortable_column_from(key@, columns@, 0) == sortable_column_from(
                key@,
                columns@,
                i as int,
            ),
        decreases columns.len() - i,
    {
        if strings_equal(&columns[i].key, key) && columns[i].is_sortable() {
            return Some(i);
        }
        i = i + 1;
    }
    None
}

fn goes_before_exec(
    dir: DataTableSortDirection,
    a_key: &Vec<char>,
    a_index: usize,
    b_key: &Vec<char>,
    b_index: usize,
) -> (r: bool)
    ensures
        r == ({
            let o = match dir {
                DataTableSortDirection::Asc => text_order(a_key@, b_key@),
                DataTableSortDirection::Desc => text_order(b_key@, a_key@),
            };
            o < 0 || (o == 0 && a_index < b_index)
        }),
{
    let o = match dir {
        DataTableSortDirection::Asc => compare_text(a_key, b_key),
        DataTableSortDirection::Desc => compare_text(b_key, a_key),
    };
    o < 0 || (o == 0 && a_index < b_index)
}

fn sort_key_of(rows: &[DataTableRow], r: &DataTableRowRecord, c: usize) -> (k: Vec<char>)
    requires
        r.row_index < rows@.len(),
    ensures
        k@ == sort_text(rows@, record_view(*r), c as int),
{
    let text = cell_chars(&rows[r.row_index], c);
    lowercase_chars(crate::text::string_from_chars(&text).as_str())
}

fn sort_records(
    rows: &[DataTableRow],
    columns: &[DataTableColumn],
    records: &Vec<DataTableRowRecord>,
    sort: &Option<DataTableSort>,
) -> (r: Vec<DataTableRowRecord>)
    requires
        forall|p: int| 0 <= p < records@.len() ==> #[trigger] records@[p].row_index < rows@.len(),
    ensures
        records_view(r@) == sorted_records(records_view(records@), rows@, columns@, sort_view(*sort)),
{
    let found = match sort {
        Some(s) => match find_sortable_column(&s.column_key, columns) {
            Some(c) => Some((c, s.direction)),
            None => None,
        },
        None => None,
    };
    let mut out: Vec<DataTableRowRecord> = Vec::new();
    match found {
        None => {
            let mut i: usize = 0;
            while i < records.len()
                invariant
                    i <= records.len(),
                    records_view(out@) == records_view(records@).subrange(0, i as int),
                decreases records.len() - i,
            {
                let ghost before = out@;
                let x = records[i].clone();
                out.push(x);
                proof {
                    lemma_records_view_push(before, x);
                    assert(records_view(out@) =~= records_view(records@).subrange(0, i + 1));
                }
                i = i + 1;
            }
            proof {
                assert(records_view(records@).subrange(0, records@.len() as int) =~= records_view(
                    records@,
                ));
            }
            out
        },
        Some((c, dir)) => {
            let ghost recs = records_view(records@);
            let mut keys: Vec<Vec<char>> = Vec::new();
            let mut i: usize = 0;
            while i < records.len()
                invariant
                    i <= records.len(),
                    recs == records_view(records@),
                    records_view(out@) == sort_upto(recs, rows@, c as int, dir, i as int),
                    keys@.len() == out@.len(),
                    forall|p: int|
                        0 <= p < out@.len() ==> #[trigger] keys@[p]@ == sort_text(
                            rows@,
                            record_view(out@[p]),
                            c as int,
                        ),
                    forall|p: int|
                        0 <= p < records@.len() ==> #[trigger] records@[p].row_index < rows@.len(),
                decreases records.len() - i,
            {
                let x = records[i].clone();
                let kx = sort_key_of(rows, &x, c);
                let ghost sorted = records_view(out@);
                let mut p: usize = 0;
                while p < out.len() && !goes_before_exec(
                    dir,
                    &kx,
                    x.row_index,
                    &keys[p],
                    out[p].row_index,
                )
                    invariant
                        p <= out@.len(),
                        sorted == records_view(out@),
                        keys@.len() == out@.len(),
                        forall|q: int|
                            0 <= q < out@.len() ==> #[trigger] keys@[q]@ == sort_text(
                                rows@,
                                record_view(out@[q]),
                                c as int,
                            ),
                        kx@ == sort_text(rows@, record_view(x), c as int),
                        insert_position(sorted, record_view(x), rows@, c as int, dir, 0)
                            == insert_position(sorted, record_view(x), rows@, c as int, dir, p as int),
                    decreases out@.len() - p,
                {
                    p = p + 1;
                }
                proof {
                    assert(insert_position(sorted, record_view(x), rows@, c as int, dir, p as int)
                        == p);
                    assert(record_view(x) == recs[i as int]);
                }
                out.insert(p, x);
                keys.insert(p, kx);
                proof {
                    assert(records_view(out@) =~= sorted.insert(p as int, recs[i as int]));
                    assert forall|q: int|
                        0 <= q < out@.len() implies #[trigger] keys@[q]@ == sort_text(
                            rows@,
                            record_view(out@[q]),
                            c as int,
                        ) by {
                        if q < p {
                        } else if q == p {
                        } else {
                        }
                    }
                }
                i = i + 1;
            }
            out
        },
    }
}

fn page_records(records: &Vec<DataTableRowRecord>, ps: DataTablePageState) -> (r: Vec<
    DataTableRowRecord,
>)
    requires
        ps.page >= 1,
    ensures
        records_view(r@) == page_slice(records_view(records@), ps),
{
    let mut r: Vec<DataTableRowRecord> = Vec::new();
    let len = records.len();
    let before = ps.page - 1;
    if len == 0 || (ps.page_size > 0 && before > (len - 1) / ps.page_size) {
        proof {
            if len > 0 {
                assert((ps.page - 1) * ps.page_size >= len) by (nonlinear_arith)
                    requires
                        ps.page_size > 0,
                        before > ((len - 1) as usize) / ps.page_size,
                        before == ps.page - 1,
                        len > 0,
                ;
            }
        }
        return r;
    }
    let start: usize = if ps.page_size == 0 {
        0
    } else {
        proof {
            assert((ps.page - 1) * ps.page_size <= len - 1) by (nonlinear_arith)
                requires
                    ps.page_size > 0,
                    before <= ((len - 1) as usize) / ps.page_size,
                    before == ps.page - 1,
                    len > 0,
            ;
        }
        before * ps.page_size
    };
    let end: usize = if ps.page_size >= len - start {
        len
    } else {
        start + ps.page_size
    };
    let mut i: usize = start;
    while i < end
        invariant
            start <= i <= end <= len,
            len == records@.len(),
            records_view(r@) == records_view(records@).subrange(start as int, i as int),
        decreases end - i,
    {
        let ghost before = r@;
        let x = records[i].clone();
        r.push(x);
        proof {
            lemma_records_view_push(before, x);
            assert(records_view(r@) =~= records_view(records@).subrange(start as int, i + 1));
        }
        i = i + 1;
    }
    r
}

fn normalize_sort(sort: Option<DataTableSort>, columns: &[DataTableColumn]) -> (r: Option<
    DataTableSort,
>)
    ensures
        sort_view(r) == normalized_sort(sort_view(sort), columns@),
{
    match sort {
        Some(s) => {
            if find_sortable_column(&s.column_key, columns).is_some() {
                Some(s)
            } else {
                None
            }
        },
        None => None,
    }
}

fn copy_sort(sort: &Option<DataTableSort>) -> (r: Option<DataTableSort>)
    ensures
        sort_view(r) == sort_view(*sort),
{
    match sort {
        Some(s) => Some(DataTableSort { column_key: s.column_key.clone(), direction: s.direction }),
        None => None,
    }
}

fn sort_eq(a: &Option<DataTableSort>, b: &Option<DataTableSort>) -> (r: bool)
    ensures
        r == (sort_view(*a) == sort_view(*b)),
{
    match (a, b) {
        (Some(x), Some(y)) => strings_equal(&x.column_key, &y.column_key) && x.direction
            == y.direction,
        (None, None) => true,
        _ => false,
    }
}

fn opt_key_eq(a: &Option<String>, b: &Option<String>) -> (r: bool)
    ensures
        r == (match *a {
            Some(k) => Some(k@),
            None => None,
        } == match *b {
            Some(k) => Some(k@),
            None => None,
        }),
{
    match (a, b) {
        (Some(x), Some(y)) => strings_equal(x, y),
        (None, None) => true,
        _ => false,
    }
}

fn contains_key(keys: &Vec<String>, key: &String) -> (r: bool)
    ensures
        r == keys_view(keys@).contains(key@),
{
    let mut i: usize = 0;
    while i < keys.len()
        invariant
            i <= keys.len(),
            forall|p: int| 0 <= p < i ==> keys_view(keys@)[p] != key@,
        decreases keys.len() - i,
    {
        if strings_equal(&keys[i], key) {
            assert(keys_view(keys@)[i as int] == key@);
            return true;
        }
        i = i + 1;
    }
    false
}

fn keys_equal(a: &Vec<String>, b: &Vec<String>) -> (r: bool)
    ensures
        r == (keys_view(a@) == keys_view(b@)),
{
    if a.len() != b.len() {
        assert(keys_view(a@).len() != keys_view(b@).len());
        return false;
    }
    let mut i: usize = 0;
    while i < a.len()
        invariant
            i <= a.len(),
            a.len() == b.len(),
            forall|p: int| 0 <= p < i ==> keys_view(a@)[p] == keys_view(b@)[p],
        decreases a.len() - i,
    {
        if !strings_equal(&a[i], &b[i]) {
            assert(keys_view(a@)[i as int] != keys_view(b@)[i as int]);
            return false;
        }
        i = i + 1;
    }
    assert(keys_view(a@) =~= keys_view(b@));
    true
}

fn clone_keys(keys: &Vec<String>) -> (r: Vec<String>)
    ensures
        keys_view(r@) == keys_view(keys@),
{
    let mut r: Vec<String> = Vec::new();
    let mut i: usize = 0;
    while i < keys.len()
        invariant
            i <= keys.len(),
            keys_view(r@) == keys_view(keys@).subrange(0, i as int),
        decreases keys.len() - i,
    {
        let ghost before = r@;
        let k = keys[i].clone();
        r.push(k);
        proof {
            lemma_keys_view_push(before, k);
            assert(keys_view(r@) =~= keys_view(keys@).subrange(0, i + 1));
        }
        i = i + 1;
    }
    proof {
        assert(keys_view(keys@).subrange(0, keys@.len() as int) =~= keys_view(keys@));
    }
    r
}

fn dedupe_keys(keys: &Vec<String>) -> (r: Vec<String>)
    ensures
        keys_view(r@) == dedup(keys_view(keys@)),
{
    let mut r: Vec<String> = Vec::new();
    let mut i: usize = 0;
    while i < keys.len()
        invariant
            i <= keys.len(),
            keys_view(r@) == dedup_upto(keys_view(keys@), i as int),
        decreases keys.len() - i,
    {
        let ghost before = r@;
        if !contains_key(&r, &keys[i]) {
            let k = keys[i].clone();
            r.push(k);
            proof {
                lemma_keys_view_push(before, k);
            }
        }
        proof {
            assert(keys_view(r@) =~= dedup_upto(keys_view(keys@), i + 1));
        }
        i = i + 1;
    }
    r
}

fn normalize_selected_keys(keys: &Vec<String>, mode: DataTableSelectionMode) -> (r: Vec<String>)
    ensures
        keys_view(r@) == normalized_keys(keys_view(keys@), mode),
{
    match mode {
        DataTableSelectionMode::NoSelection => {
            let r: Vec<String> = Vec::new();
            proof {
                assert(keys_view(r@) =~= Seq::empty());
            }
            r
        },
        DataTableSelectionMode::Single => {
            let mut r: Vec<String> = Vec::new();
            if keys.len() > 0 {
                r.push(keys[0].clone());
                proof {
                    assert(keys_view(r@) =~= seq![keys_view(keys@)[0]]);
                }
            } else {
                proof {
                    assert(keys_view(r@) =~= Seq::empty());
                }
            }
            r
        },
        DataTableSelectionMode::Multiple => dedupe_keys(keys),
    }
}

fn keys_without(keys: &Vec<String>, drop: &Vec<String>) -> (r: Vec<String>)
    ensures
        keys_view(r@) == without_upto(keys_view(keys@), keys_view(drop@), keys@.len() as int),
{
    let mut r: Vec<String> = Vec::new();
    let mut i: usize = 0;
    while i < keys.len()
        invariant
            i <= keys.len(),
            keys_view(r@) == without_upto(keys_view(keys@), keys_view(drop@), i as int),
        decreases keys.len() - i,
    {
        let ghost before = r@;
        if !contains_key(drop, &keys[i]) {
            let k = keys[i].clone();
            r.push(k);
            proof {
                lemma_keys_view_push(before, k);
            }
        }
        proof {
            assert(keys_view(r@) =~= without_upto(keys_view(keys@), keys_view(drop@), i + 1));
        }
        i = i + 1;
    }
    r
}

fn append_missing(base: &Vec<String>, add: &Vec<String>) -> (r: Vec<String>)
    ensures
        keys_view(r@) == append_missing_upto(keys_view(base@), keys_view(add@), add@.len() as int),
{
    let mut r = clone_keys(base);
    let mut i: usize = 0;
    while i < add.len()
        invariant
            i <= add.len(),
            keys_view(r@) == append_missing_upto(keys_view(base@), keys_view(add@), i as int),
        decreases add.len() - i,
    {
        let ghost before = r@;
        if !contains_key(&r, &add[i]) {
            let k = add[i].clone();
            r.push(k);
            proof {
                lemma_keys_view_push(before, k);
            }
        }
        proof {
            assert(keys_view(r@) =~= append_missing_upto(
                keys_view(base@),
                keys_view(add@),
                i + 1,
            ));
        }
        i = i + 1;
    }
    r
}

pub(crate) fn all_contained(keys: &Vec<String>, selected: &Vec<String>) -> (r: bool)
    ensures
        r == forall|i: int|
            0 <= i < keys_view(keys@).len() ==> keys_view(selected@).contains(
                #[trigger] keys_view(keys@)[i],
            ),
{
    let mut i: usize = 0;
    while i < keys.len()
        invariant
            i <= keys.len(),
            forall|p: int| 0 <= p < i ==> keys_view(selected@).contains(#[trigger] keys_view(keys@)[p]),
        decreases keys.len() - i,
    {
        if !contains_key(selected, &keys[i]) {
            assert(keys_view(keys@)[i as int] == keys@[i as int]@);
            return false;
        }
        i = i + 1;
    }
    true
}

pub(crate) fn enabled_keys(page_rows: &[DataTableRowRecord]) -> (r: Vec<String>)
    ensures
        keys_view(r@) == enabled_keys_upto(records_view(page_rows@), page_rows@.len() as int),
{
    let mut r: Vec<String> = Vec::new();
    let mut i: usize = 0;
    while i < page_rows.len()
        invariant
            i <= page_rows.len(),
            keys_view(r@) == enabled_keys_upto(records_view(page_rows@), i as int),
        decreases page_rows.len() - i,
    {
        let ghost before = r@;
        if !page_rows[i].disabled {
            let k = page_rows[i].row_key.clone();
            r.push(k);
            proof {
                lemma_keys_view_push(before, k);
            }
        }
        proof {
            assert(keys_view(r@) =~= enabled_keys_upto(records_view(page_rows@), i + 1));
        }
        i = i + 1;
    }
    r
}

fn enabled_page_positions(page_rows: &[DataTableRowRecord]) -> (r: Vec<usize>)
    ensures
        r@.map_values(|p: usize| p as int) == enabled_positions(records_view(page_rows@)),
        forall|q: int| 0 <= q < r@.len() ==> #[trigger] r@[q] < page_rows@.len(),
{
    let mut r: Vec<usize> = Vec::new();
    let mut i: usize = 0;
    while i < page_rows.len()
        invariant
            i <= page_rows.len(),
            r@.map_values(|p: usize| p as int) == enabled_positions_upto(
                records_view(page_rows@),
                i as int,
            ),
            forall|q: int| 0 <= q < r@.len() ==> #[trigger] r@[q] < i,
        decreases page_rows.len() - i,
    {
        if !page_rows[i].disabled {
            r.push(i);
        }
        proof {
            assert(r@.map_values(|p: usize| p as int) =~= enabled_positions_upto(
                records_view(page_rows@),
                i + 1,
            ));
        }
        i = i + 1;
    }
    r
}

fn first_enabled_key(recs: &[DataTableRowRecord]) -> (r: Option<String>)
    ensures
        match r {
            Some(k) => first_enabled_key_from(records_view(recs@), 0) == Some(k@),
            None => first_enabled_key_from(records_view(recs@), 0) is None,
        },
{
    let mut i: usize = 0;
    while i < recs.len()
        invariant
            i <= recs.len(),
            first_enabled_key_from(records_view(recs@), 0) == first_enabled_key_from(
                records_view(recs@),
                i as int,
            ),
        decreases recs.len() - i,
    {
        if !recs[i].disabled {
            return Some(recs[i].row_key.clone());
        }
        i = i + 1;
    }
    None
}

fn has_enabled_key(recs: &Vec<DataTableRowRecord>, key: &String) -> (r: bool)
    ensures
        r == is_enabled_key(records_view(recs@), key@),
{
    let mut i: usize = 0;
    while i < recs.len()
        invariant
            i <= recs.len(),
            forall|p: int|
                0 <= p < i ==> !(!records_view(recs@)[p].disabled && #[trigger] records_view(
                    recs@,
                )[p].row_key == key@),
        decreases recs.len() - i,
    {
        if !recs[i].disabled && strings_equal(&recs[i].row_key, key) {
            assert(records_view(recs@)[i as int].row_key == key@);
            return true;
        }
        i = i + 1;
    }
    false
}

fn find_record(recs: &[DataTableRowRecord], key: &String) -> (r: Option<usize>)
    ensures
        match r {
            Some(i) => record_with_key_from(records_view(recs@), key@, 0) == Some(i as int) && i
                < recs@.len(),
            None => record_with_key_from(records_view(recs@), key@, 0) is None,
        },
{
    let mut i: usize = 0;
    while i < recs.len()
        invariant
            i <= recs.len(),
            record_with_key_from(records_view(recs@), key@, 0) == record_with_key_from(
                records_view(recs@),
                key@,
                i as int,
            ),
        decreases recs.len() - i,
    {
        if strings_equal(&recs[i].row_key, key) {
            return Some(i);
        }
        i = i + 1;
    }
    None
}

fn enabled_key_position(page_rows: &[DataTableRowRecord], pos: &Vec<usize>, key: &String) -> (r:
    Option<usize>)
    requires
        forall|x: int| 0 <= x < pos@.len() ==> #[trigger] pos@[x] < page_rows@.len(),
    ensures
        ({
            let spos = pos@.map_values(|p: usize| p as int);
            match r {
                Some(q) => key_position_from(records_view(page_rows@), spos, key@, 0) == Some(
                    q as int,
                ) && q < pos@.len(),
                None => key_position_from(records_view(page_rows@), spos, key@, 0) is None,
            }
        }),
{
    let ghost spos = pos@.map_values(|p: usize| p as int);
    let ghost page = records_view(page_rows@);
    let mut q: usize = 0;
    while q < pos.len()
        invariant
            q <= pos.len(),
            spos == pos@.map_values(|p: usize| p as int),
            page == records_view(page_rows@),
            forall|x: int| 0 <= x < pos@.len() ==> #[trigger] pos@[x] < page_rows@.len(),
            key_position_from(page, spos, key@, 0) == key_position_from(page, spos, key@, q as int),
        decreases pos.len() - q,
    {
        if strings_equal(&page_rows[pos[q]].row_key, key) {
            assert(page[spos[q as int]].row_key == key@);
            return Some(q);
        }
        assert(page[spos[q as int]].row_key != key@);
        q = q + 1;
    }
    None
}

fn active_after_move(page_rows: &[DataTableRowRecord], active: &Option<String>, delta: isize) -> (r:
    Option<String>)
    ensures
        match r {
            Some(k) => moved_active(
                records_view(page_rows@),
                match *active {
                    Some(a) => Some(a@),
                    None => None,
                },
                delta as int,
            ) == Some(k@),
            None => moved_active(
                records_view(page_rows@),
                match *active {
                    Some(a) => Some(a@),
                    None => None,
                },
                delta as int,
            ) is None,
        },
{
    let pos = enabled_page_positions(page_rows);
    let ghost page = records_view(page_rows@);
    let ghost spos = enabled_positions(page);
    assert(spos.len() == pos@.len());
    if pos.len() == 0 {
        return None;
    }
    let current: usize = match active {
        Some(k) => match enabled_key_position(page_rows, &pos, k) {
            Some(q) => q,
            None => 0,
        },
        None => 0,
    };
    let last = pos.len() - 1;
    let next: usize = if delta < 0 {
        let back: usize = if delta == isize::MIN {
            (isize::MAX as usize) + 1
        } else {
            (-delta) as usize
        };
        if back > current {
            0
        } else {
            current - back
        }
    } else {
        let fwd = delta as usize;
        if fwd > last - current {
            last
        } else {
            current + fwd
        }
    };
    assert(spos[next as int] == pos@[next as int] as int);
    let key = page_rows[pos[next]].row_key.clone();
    assert(page[spos[next as int]].row_key == key@);
    Some(key)
}

impl DataTableState {
    /// The select-all checkbox of a page: it is checked when the page has
    /// enabled rows and all of them are selected; it takes clicks only when
    /// the page has enabled rows (`has_selectable`).
    pub fn page_selection_header(&self, page_rows: &[DataTableRowRecord]) -> (r: (bool, bool))
        ensures
            ({
                let keys = enabled_keys_upto(records_view(page_rows@), page_rows@.len() as int);
                &&& r.1 == (keys.len() > 0)
                &&& r.0 == (keys.len() > 0 && forall|i: int| 0 <= i < keys.len()
                    ==> self.model().selected.contains(#[trigger] keys[i]))
            }),
    {
        let keys = enabled_keys(page_rows);
        let has_selectable = keys.len() > 0;
        let all = all_contained(&keys, &self.selected_row_keys);
        (has_selectable && all, has_selectable)
    }
}

// ---------------------------------------------------------------------------
// Laws.

proof fn lemma_filter_upto_keeps_match(
    recs: Seq<RecordView>,
    rows: Seq<DataTableRow>,
    columns: Seq<DataTableColumn>,
    needle: Seq<char>,
    n: int,
    i: int,
)
    requires
        0 <= i < n <= recs.len(),
        row_matches(needle, rows[recs[i].row_index as int], columns),
    ensures
        filter_upto(recs, rows, columns, needle, n).contains(recs[i]),
    decreases n,
{
    let f = filter_upto(recs, rows, columns, needle, n);
    if i == n - 1 {
        assert(f[f.len() - 1] == recs[i]);
    } else {
        lemma_filter_upto_keeps_match(recs, rows, columns, needle, n - 1, i);
        let g = filter_upto(recs, rows, columns, needle, n - 1);
        let q = choose|q: int| 0 <= q < g.len() && g[q] == recs[i];
        if row_matches(needle, rows[recs[n - 1].row_index as int], columns) {
            assert(f[q] == g[q]);
        }
    }
}

/// The filter ignores case: two filter texts that are the same once trimmed
/// and lowercased keep the same rows, and a row is kept whenever one of its
/// filterable cells, lowercased, is the trimmed filter text lowercased (so a
/// cell equal to the trimmed filter text is always kept).
pub proof fn lemma_filter_ignores_case(
    recs: Seq<RecordView>,
    rows: Seq<DataTableRow>,
    columns: Seq<DataTableColumn>,
    filter: Seq<char>,
    other: Seq<char>,
    i: int,
    c: int,
)
    ensures
        lowercase_of(trimmed(filter)) == lowercase_of(trimmed(other)) ==> filtered_records(
            recs,
            rows,
            columns,
            filter,
        ) == filtered_records(recs, rows, columns, other),
        0 <= i < recs.len() && 0 <= c < columns.len() && columns[c].spec_is_filterable()
            && lowercase_of(cell_text(rows[recs[i].row_index as int], c)) == lowercase_of(
            trimmed(filter),
        ) ==> filtered_records(recs, rows, columns, filter).contains(recs[i]),
{
    if 0 <= i < recs.len() && 0 <= c < columns.len() && columns[c].spec_is_filterable()
        && lowercase_of(cell_text(rows[recs[i].row_index as int], c)) == lowercase_of(trimmed(filter)) {
        let needle = lowercase_of(trimmed(filter));
        if needle.len() != 0 {
            let hay = lowercase_of(cell_text(rows[recs[i].row_index as int], c));
            assert(hay.subrange(0, 0 + needle.len() as int) =~= needle);
            assert(occurs_in(needle, hay));
            assert(row_matches(needle, rows[recs[i].row_index as int], columns));
            lemma_filter_upto_keeps_match(recs, rows, columns, needle, recs.len() as int, i);
        } else {
            assert(recs.contains(recs[i]));
        }
    }
}

/// The pages split the rows in order: row `k` is row `k % page_size` of page
/// `k / page_size + 1`, and every page before the last holds exactly
/// `page_size` rows.
pub proof fn lemma_pages_partition_rows(recs: Seq<RecordView>, page_size: usize, k: int, page: usize)
    requires
        recs.len() <= usize::MAX,
        page_size >= 1,
    ensures
        0 <= k < recs.len() ==> ({
            let size = page_size as int;
            let ps = page_state_for(recs.len() as int, k / size + 1, size);
            &&& ps.page == k / size + 1
            &&& (k % size) < page_slice(recs, ps).len()
            &&& page_slice(recs, ps)[k % size] == recs[k]
        }),
        ({
            let ps = page_state_for(recs.len() as int, page as int, page_size as int);
            1 <= page < ps.total_pages ==> page_slice(recs, ps).len() == page_size
        }),
{
    let total = recs.len() as int;
    let size = page_size as int;
    if 0 <= k < total {
        let q = k / size;
        let r = k % size;
        vstd::arithmetic::div_mod::lemma_fundamental_div_mod(k, size);
        vstd::arithmetic::div_mod::lemma_mod_bound(k, size);
        assert(0 <= q <= k) by (nonlinear_arith)
            requires k >= 0, size >= 1, k == size * q + r, 0 <= r < size;
        lemma_page_state_bounds(recs, (q + 1) as usize, page_size);
        let ps = page_state_for(total, q + 1, size);
        let pages = ps.total_pages as int;
        assert(q < pages) by (nonlinear_arith)
            requires pages * size >= total, k < total, k == size * q + r, 0 <= r, size >= 1;
        assert(ps.page == q + 1);
        assert((ps.page - 1) * ps.page_size == q * size) by (nonlinear_arith)
            requires ps.page == q + 1, ps.page_size == size;
        assert(q * size == size * q) by (nonlinear_arith);
        let start = q * size;
        assert(start + r == k);
        let pg = page_slice(recs, ps);
        assert(start < total);
    }
    lemma_page_state_bounds(recs, page, page_size);
    let ps = page_state_for(total, page as int, size);
    if 1 <= page < ps.total_pages {
        let pages = ps.total_pages as int;
        assert(ps.page == page);
        assert((page - 1) * size + size <= (pages - 1) * size) by (nonlinear_arith)
            requires 1 <= page < pages, size >= 1;
        assert((ps.page - 1) * ps.page_size == (page - 1) * size);
    }
}

proof fn lemma_dedup_upto_contains(keys: Seq<Seq<char>>, n: int)
    requires
        0 <= n <= keys.len(),
    ensures
        forall|x: Seq<char>| #[trigger] dedup_upto(keys, n).contains(x) <==> keys.subrange(0, n).contains(x),
    decreases n,
{
    if n > 0 {
        lemma_dedup_upto_contains(keys, n - 1);
        let prev = keys.subrange(0, n - 1);
        let cur = keys.subrange(0, n);
        assert(cur =~= prev.push(keys[n - 1]));
        let d = dedup_upto(keys, n - 1);
        assert forall|x: Seq<char>| #[trigger] dedup_upto(keys, n).contains(x) <==> cur.contains(x) by {
            if d.contains(keys[n - 1]) {
                assert(dedup_upto(keys, n) == d);
            } else {
                assert(dedup_upto(keys, n) == d.push(keys[n - 1]));
                if d.push(keys[n - 1]).contains(x) {
                    let j = choose|j: int| 0 <= j < d.len() + 1 && #[trigger] d.push(keys[n - 1])[j] == x;
                    if j < d.len() {
                        assert(d[j] == x);
                    }
                }
                if d.contains(x) {
                    let j = choose|j: int| 0 <= j < d.len() && #[trigger] d[j] == x;
                    assert(d.push(keys[n - 1])[j] == x);
                }
                assert(d.push(keys[n - 1])[d.len() as int] == keys[n - 1]);
            }
            if cur.contains(x) {
                let j = choose|j: int| 0 <= j < n && #[trigger] cur[j] == x;
                if j < n - 1 {
                    assert(prev[j] == x);
                }
            }
            if prev.contains(x) {
                let j = choose|j: int| 0 <= j < n - 1 && #[trigger] prev[j] == x;
                assert(cur[j] == x);
            }
            assert(cur[n - 1] == keys[n - 1]);
        }
    }
}

proof fn lemma_without_upto_contains(keys: Seq<Seq<char>>, drop: Seq<Seq<char>>, n: int)
    requires
        0 <= n <= keys.len(),
    ensures
        forall|x: Seq<char>| #[trigger] without_upto(keys, drop, n).contains(x) <==> (keys.subrange(0, n).contains(x)
            && !drop.contains(x)),
    decreases n,
{
    if n > 0 {
        lemma_without_upto_contains(keys, drop, n - 1);
        let prev = keys.subrange(0, n - 1);
        let cur = keys.subrange(0, n);
        let w = without_upto(keys, drop, n - 1);
        assert forall|x: Seq<char>| #[trigger] without_upto(keys, drop, n).contains(x) <==> (cur.contains(x)
            && !drop.contains(x)) by {
            if !drop.contains(keys[n - 1]) {
                assert(without_upto(keys, drop, n) == w.push(keys[n - 1]));
                if w.push(keys[n - 1]).contains(x) {
                    let j = choose|j: int| 0 <= j < w.len() + 1 && #[trigger] w.push(keys[n - 1])[j] == x;
                    if j < w.len() {
                        assert(w[j] == x);
                    }
                }
                if w.contains(x) {
                    let j = choose|j: int| 0 <= j < w.len() && #[trigger] w[j] == x;
                    assert(w.push(keys[n - 1])[j] == x);
                }
                assert(w.push(keys[n - 1])[w.len() as int] == keys[n - 1]);
            }
            if cur.contains(x) {
                let j = choose|j: int| 0 <= j < n && #[trigger] cur[j] == x;
                if j < n - 1 {
                    assert(prev[j] == x);
                }
            }
            if prev.contains(x) {
                let j = choose|j: int| 0 <= j < n - 1 && #[trigger] prev[j] == x;
                assert(cur[j] == x);
            }
            assert(cur[n - 1] == keys[n - 1]);
        }
    }
}

proof fn lemma_append_missing_upto_contains(base: Seq<Seq<char>>, add: Seq<Seq<char>>, n: int)
    requires
        0 <= n <= add.len(),
    ensures
        forall|x: Seq<char>| #[trigger] append_missing_upto(base, add, n).contains(x) <==> (base.contains(x)
            || add.subrange(0, n).contains(x)),
    decreases n,
{
    if n > 0 {
        lemma_append_missing_upto_contains(base, add, n - 1);
        let prev = add.subrange(0, n - 1);
        let cur = add.subrange(0, n);
        let a = append_missing_upto(base, add, n - 1);
        assert forall|x: Seq<char>| #[trigger] append_missing_upto(base, add, n).contains(x) <==> (base.contains(x)
            || cur.contains(x)) by {
            if !a.contains(add[n - 1]) {
                assert(append_missing_upto(base, add, n) == a.push(add[n - 1]));
                if a.push(add[n - 1]).contains(x) {
                    let j = choose|j: int| 0 <= j < a.len() + 1 && #[trigger] a.push(add[n - 1])[j] == x;
                    if j < a.len() {
                        assert(a[j] == x);
                    }
                }
                if a.contains(x) {
                    let j = choose|j: int| 0 <= j < a.len() && #[trigger] a[j] == x;
                    assert(a.push(add[n - 1])[j] == x);
                }
                assert(a.push(add[n - 1])[a.len() as int] == add[n - 1]);
            }
            if cur.contains(x) {
                let j = choose|j: int| 0 <= j < n && #[trigger] cur[j] == x;
                if j < n - 1 {
                    assert(prev[j] == x);
                }
            }
            if prev.contains(x) {
                let j = choose|j: int| 0 <= j < n - 1 && #[trigger] prev[j] == x;
                assert(cur[j] == x);
            }
            assert(cur[n - 1] == add[n - 1]);
        }
    }
}

/// Whether `key` is the key of an enabled row among the first `n` records.
pub open spec fn enabled_key_among(recs: Seq<RecordView>, n: int, key: Seq<char>) -> bool {
    exists|i: int| 0 <= i < n && !recs[i].disabled && #[trigger] recs[i].row_key == key
}

proof fn lemma_enabled_keys_upto_contains(recs: Seq<RecordView>, n: int)
    requires
        0 <= n <= recs.len(),
    ensures
        forall|x: Seq<char>| #[trigger] enabled_keys_upto(recs, n).contains(x) <==> enabled_key_among(recs, n, x),
    decreases n,
{
    if n > 0 {
        lemma_enabled_keys_upto_contains(recs, n - 1);
        let e = enabled_keys_upto(recs, n - 1);
        assert forall|x: Seq<char>| #[trigger] enabled_keys_upto(recs, n).contains(x) <==> enabled_key_among(
            recs,
            n,
            x,
        ) by {
            if enabled_key_among(recs, n, x) {
                let i = choose|i: int| 0 <= i < n && !recs[i].disabled && #[trigger] recs[i].row_key == x;
                if i < n - 1 {
                    assert(enabled_key_among(recs, n - 1, x));
                }
            }
            if enabled_key_among(recs, n - 1, x) {
                let i = choose|i: int| 0 <= i < n - 1 && !recs[i].disabled && #[trigger] recs[i].row_key == x;
                assert(enabled_key_among(recs, n, x));
            }
            if !recs[n - 1].disabled {
                assert(enabled_keys_upto(recs, n) == e.push(recs[n - 1].row_key));
                if e.push(recs[n - 1].row_key).contains(x) {
                    let j = choose|j: int| 0 <= j < e.len() + 1 && #[trigger] e.push(recs[n - 1].row_key)[j] == x;
                    if j < e.len() {
                        assert(e[j] == x);
                    } else {
                        assert(recs[n - 1].row_key == x);
                        assert(enabled_key_among(recs, n, x));
                    }
                }
                if e.contains(x) {
                    let j = choose|j: int| 0 <= j < e.len() && #[trigger] e[j] == x;
                    assert(e.push(recs[n - 1].row_key)[j] == x);
                }
                if recs[n - 1].row_key == x {
                    assert(e.push(recs[n - 1].row_key)[e.len() as int] == x);
                }
            } else {
                if enabled_key_among(recs, n, x) {
                    let i = choose|i: int| 0 <= i < n && !recs[i].disabled && #[trigger] recs[i].row_key == x;
                    assert(i < n - 1);
                    assert(enabled_key_among(recs, n - 1, x));
                }
            }
        }
    }
}

/// Select-all on a page in multiple selection: when every enabled row of the
/// page is already selected it deselects exactly those rows, keeping every
/// other selected key; otherwise it adds the page's enabled rows to the
/// selection, keeping what was selected. Either way no key is selected twice.
/// In another mode, or on a page without enabled rows, nothing changes.
pub proof fn lemma_toggle_page_selects_or_clears_page(
    selected: Seq<Seq<char>>,
    page: Seq<RecordView>,
    mode: DataTableSelectionMode,
)
    ensures
        ({
            let n = page.len() as int;
            let r = toggled_page(selected, page, mode);
            let all_selected = forall|i: int|
                0 <= i < n && !page[i].disabled ==> selected.contains(#[trigger] page[i].row_key);
            let has_enabled = exists|i: int| 0 <= i < n && !(#[trigger] page[i]).disabled;
            &&& (mode != DataTableSelectionMode::Multiple || !has_enabled) ==> r == selected
            &&& (mode == DataTableSelectionMode::Multiple && has_enabled) ==> {
                &&& r.no_duplicates()
                &&& all_selected ==> forall|x: Seq<char>| #[trigger] r.contains(x) <==> (selected.contains(x)
                    && !enabled_key_among(page, n, x))
                &&& !all_selected ==> forall|x: Seq<char>| #[trigger] r.contains(x) <==> (selected.contains(x)
                    || enabled_key_among(page, n, x))
            }
        }),
{
    let n = page.len() as int;
    let keys = enabled_keys_upto(page, n);
    lemma_enabled_keys_upto_contains(page, n);
    let has_enabled = exists|i: int| 0 <= i < n && !(#[trigger] page[i]).disabled;
    if has_enabled {
        let i = choose|i: int| 0 <= i < n && !(#[trigger] page[i]).disabled;
        assert(enabled_key_among(page, n, page[i].row_key));
        assert(keys.contains(page[i].row_key));
    } else {
        if keys.len() > 0 {
            assert(keys.contains(keys[0]));
            let i = choose|i: int| 0 <= i < n && !page[i].disabled && #[trigger] page[i].row_key == keys[0];
            assert(!page[i].disabled);
        }
    }
    let all_selected = forall|i: int|
        0 <= i < n && !page[i].disabled ==> selected.contains(#[trigger] page[i].row_key);
    let all_keys = forall|i: int| 0 <= i < keys.len() ==> selected.contains(#[trigger] keys[i]);
    assert(all_selected == all_keys) by {
        if all_selected {
            assert forall|i: int| 0 <= i < keys.len() implies selected.contains(#[trigger] keys[i]) by {
                assert(keys.contains(keys[i]));
                let j = choose|j: int| 0 <= j < n && !page[j].disabled && #[trigger] page[j].row_key == keys[i];
            }
        }
        if all_keys {
            assert forall|i: int| 0 <= i < n && !page[i].disabled implies selected.contains(#[trigger] page[i].row_key) by {
                assert(enabled_key_among(page, n, page[i].row_key));
                assert(keys.contains(page[i].row_key));
                let j = choose|j: int| 0 <= j < keys.len() && #[trigger] keys[j] == page[i].row_key;
            }
        }
    }
    if mode == DataTableSelectionMode::Multiple && has_enabled {
        let r = toggled_page(selected, page, mode);
        if all_keys {
            let w = without_upto(selected, keys, selected.len() as int);
            lemma_without_upto_contains(selected, keys, selected.len() as int);
            lemma_dedup_upto_contains(w, w.len() as int);
            lemma_dedup_has_no_repeats(w, w.len() as int);
            assert(selected.subrange(0, selected.len() as int) =~= selected);
            assert(w.subrange(0, w.len() as int) =~= w);
        } else {
            let a = append_missing_upto(selected, keys, keys.len() as int);
            lemma_append_missing_upto_contains(selected, keys, keys.len() as int);
            lemma_dedup_upto_contains(a, a.len() as int);
            lemma_dedup_has_no_repeats(a, a.len() as int);
            assert(keys.subrange(0, keys.len() as int) =~= keys);
            assert(a.subrange(0, a.len() as int) =~= a);
        }
    }
}

/// In multiple selection, select-all on a page whose enabled rows are none of
/// them selected, done twice, gives back the selected keys it started from.
pub proof fn lemma_toggle_page_twice_restores(selected: Seq<Seq<char>>, page: Seq<RecordView>)
    requires
        forall|i: int| 0 <= i < page.len() && !page[i].disabled ==> !selected.contains(#[trigger] page[i].row_key),
    ensures
        ({
            let m = DataTableSelectionMode::Multiple;
            forall|x: Seq<char>| #[trigger] toggled_page(toggled_page(selected, page, m), page, m).contains(x)
                <==> selected.contains(x)
        }),
{
    let m = DataTableSelectionMode::Multiple;
    let n = page.len() as int;
    let once = toggled_page(selected, page, m);
    lemma_toggle_page_selects_or_clears_page(selected, page, m);
    lemma_toggle_page_selects_or_clears_page(once, page, m);
    let has_enabled = exists|i: int| 0 <= i < n && !(#[trigger] page[i]).disabled;
    if has_enabled {
        let i = choose|i: int| 0 <= i < n && !(#[trigger] page[i]).disabled;
        assert(!selected.contains(page[i].row_key));
        assert(!(forall|i: int|
            0 <= i < n && !page[i].disabled ==> selected.contains(#[trigger] page[i].row_key)));
        assert forall|i: int| 0 <= i < n && !page[i].disabled implies once.contains(#[trigger] page[i].row_key) by {
            assert(enabled_key_among(page, n, page[i].row_key));
        }
        assert forall|x: Seq<char>| #[trigger] toggled_page(once, page, m).contains(x) <==> selected.contains(x) by {
            if selected.contains(x) && enabled_key_among(page, n, x) {
                let j = choose|j: int| 0 <= j < n && !page[j].disabled && #[trigger] page[j].row_key == x;
                assert(!selected.contains(page[j].row_key));
            }
        }
    }
}

/// Pagination always has a page to show: the page lies in `1..=total_pages`,
/// the pages cover every row with no empty page after the first, and a page
/// holds at most `page_size` rows.
pub proof fn lemma_page_state_bounds(recs: Seq<RecordView>, page: usize, page_size: usize)
    requires
        recs.len() <= usize::MAX,
    ensures
        ({
            let ps = page_state_for(recs.len() as int, page as int, page_size as int);
            &&& 1 <= ps.page <= ps.total_pages
            &&& ps.page_size >= 1
            &&& ps.total_pages * ps.page_size >= recs.len()
            &&& (recs.len() > 0 ==> (ps.total_pages - 1) * ps.page_size < recs.len())
            &&& page_slice(recs, ps).len() <= ps.page_size
        }),
{
    let total = recs.len() as int;
    let size: int = if page_size < 1 { 1 } else { page_size as int };
    let q = total / size;
    let r = total % size;
    vstd::arithmetic::div_mod::lemma_fundamental_div_mod(total, size);
    assert(0 <= r < size) by {
        vstd::arithmetic::div_mod::lemma_mod_bound(total, size);
    }
    assert(0 <= q <= total) by (nonlinear_arith)
        requires total >= 0, size >= 1, q == total / size, total == size * q + r, 0 <= r < size;
    let pages = total_pages_for(total, size);
    if r == 0 {
        if q < 1 {
            assert(total == 0) by (nonlinear_arith)
                requires total == size * q + r, r == 0, q < 1, q >= 0;
            assert(pages * size >= total) by (nonlinear_arith)
                requires pages == 1, size >= 1, total == 0;
        } else {
            assert(pages * size >= total && (pages - 1) * size < total) by (nonlinear_arith)
                requires pages == q, total == size * q, size >= 1, q >= 1;
        }
    } else {
        assert(q < total) by (nonlinear_arith)
            requires total == size * q + r, 0 < r < size, size >= 1, q >= 0;
        assert(pages == q + 1);
        assert(pages * size >= total && (pages - 1) * size < total) by (nonlinear_arith)
            requires pages == q + 1, total == size * q + r, 0 < r < size, size >= 1, q >= 0;
    }
    assert(1 <= pages <= usize::MAX);
    let ps = page_state_for(total, page as int, page_size as int);
    assert(ps.page_size == size);
    assert(ps.total_pages == pages);
}

/// Removing a key that is not there keeps the keys as they are.
proof fn lemma_without_absent(keys: Seq<Seq<char>>, key: Seq<char>, n: int)
    requires
        0 <= n <= keys.len(),
        !keys.subrange(0, n).contains(key),
    ensures
        without_upto(keys, seq![key], n) == keys.subrange(0, n),
    decreases n,
{
    if n > 0 {
        assert(keys.subrange(0, n - 1) =~= keys.subrange(0, n).drop_last());
        assert(!keys.subrange(0, n - 1).contains(key)) by {
            if keys.subrange(0, n - 1).contains(key) {
                let i = choose|i: int| 0 <= i < n - 1 && #[trigger] keys.subrange(0, n - 1)[i] == key;
                assert(keys.subrange(0, n)[i] == key);
            }
        }
        lemma_without_absent(keys, key, n - 1);
        assert(keys.subrange(0, n)[n - 1] == keys[n - 1]);
        assert(!seq![key].contains(keys[n - 1])) by {
            if seq![key].contains(keys[n - 1]) {
                assert(keys[n - 1] == key);
            }
        }
        assert(keys.subrange(0, n) =~= keys.subrange(0, n - 1).push(keys[n - 1]));
    }
}

/// Keys without repeats are their own dedup.
proof fn lemma_dedup_unique(keys: Seq<Seq<char>>, n: int)
    requires
        0 <= n <= keys.len(),
        keys.no_duplicates(),
    ensures
        dedup_upto(keys, n) == keys.subrange(0, n),
    decreases n,
{
    if n > 0 {
        lemma_dedup_unique(keys, n - 1);
        assert(!keys.subrange(0, n - 1).contains(keys[n - 1])) by {
            if keys.subrange(0, n - 1).contains(keys[n - 1]) {
                let i = choose|i: int| 0 <= i < n - 1 && #[trigger] keys.subrange(0, n - 1)[i] == keys[n - 1];
                assert(keys[i] == keys[n - 1]);
            }
        }
        assert(keys.subrange(0, n) =~= keys.subrange(0, n - 1).push(keys[n - 1]));
    }
}

/// A dedup holds no key twice.
pub proof fn lemma_dedup_has_no_repeats(keys: Seq<Seq<char>>, n: int)
    requires
        0 <= n <= keys.len(),
    ensures
        dedup_upto(keys, n).no_duplicates(),
    decreases n,
{
    if n > 0 {
        lemma_dedup_has_no_repeats(keys, n - 1);
        let d = dedup_upto(keys, n - 1);
        if !d.contains(keys[n - 1]) {
            let e = d.push(keys[n - 1]);
            assert forall|i: int, j: int| 0 <= i < j < e.len() implies #[trigger] e[i] != #[trigger] e[j] by {
                if j == d.len() {
                    assert(d[i] != keys[n - 1]) by {
                        if d[i] == keys[n - 1] {
                            assert(d.contains(keys[n - 1]));
                        }
                    }
                }
            }
        }
    }
}

/// Toggling a row that is not selected twice, in multiple selection, gives
/// back the selection it started from (a selection never holds a key twice).
pub proof fn lemma_toggle_row_twice_restores(selected: Seq<Seq<char>>, key: Seq<char>)
    requires
        selected.no_duplicates(),
        !selected.contains(key),
    ensures
        toggled_row(
            toggled_row(selected, key, false, DataTableSelectionMode::Multiple),
            key,
            false,
            DataTableSelectionMode::Multiple,
        ) == selected,
{
    let once = selected.push(key);
    assert(once.no_duplicates()) by {
        assert forall|i: int, j: int| 0 <= i < j < once.len() implies #[trigger] once[i] != #[trigger] once[j] by {
            if j == selected.len() {
                assert(once[i] == selected[i]);
                if selected[i] == key {
                    assert(selected.contains(key));
                }
            }
        }
    }
    lemma_dedup_unique(once, once.len() as int);
    assert(once.subrange(0, once.len() as int) =~= once);
    assert(toggled_row(selected, key, false, DataTableSelectionMode::Multiple) == once);
    assert(once.contains(key)) by {
        assert(once[selected.len() as int] == key);
    }
    lemma_without_absent(once, key, selected.len() as int);
    assert(once.subrange(0, selected.len() as int) =~= selected);
    assert(without_upto(once, seq![key], once.len() as int) == without_upto(once, seq![key], selected.len() as int)) by {
        assert(once[once.len() - 1] == key);
        assert(seq![key].contains(key)) by {
            assert(seq![key][0] == key);
        }
    }
    lemma_dedup_unique(selected, selected.len() as int);
    assert(selected.subrange(0, selected.len() as int) =~= selected);
}

/// The records stand in sort order: each goes before every later one.
pub open spec fn in_sort_order(
    s: Seq<RecordView>,
    rows: Seq<DataTableRow>,
    c: int,
    dir: DataTableSortDirection,
) -> bool {
    forall|i: int, j: int| 0 <= i < j < s.len() ==> goes_before(rows, c, dir, #[trigger] s[i], #[trigger] s[j])
}

/// No two records come from the same row.
pub open spec fn distinct_rows(s: Seq<RecordView>) -> bool {
    forall|i: int, j: int| 0 <= i < j < s.len() ==> (#[trigger] s[i]).row_index != (#[trigger] s[j]).row_index
}

/// The text comparison `goes_before` starts from, in the sort's direction.
proof fn lemma_directed_order_facts(rows: Seq<DataTableRow>, c: int, dir: DataTableSortDirection, a: RecordView, b: RecordView, x: RecordView)
    ensures
        ({
            let ord = |p: RecordView, q: RecordView| match dir {
                DataTableSortDirection::Asc => text_order(sort_text(rows, p, c), sort_text(rows, q, c)),
                DataTableSortDirection::Desc => text_order(sort_text(rows, q, c), sort_text(rows, p, c)),
            };
            &&& ord(a, a) == 0
            &&& ord(a, b) == -ord(b, a)
            &&& (ord(a, b) < 0 && ord(b, x) < 0 ==> ord(a, x) < 0)
            &&& (ord(a, b) == 0 ==> ord(a, x) == ord(b, x))
            &&& (ord(b, x) == 0 ==> ord(a, b) == ord(a, x))
        }),
{
    let (ta, tb, tx) = (sort_text(rows, a, c), sort_text(rows, b, c), sort_text(rows, x, c));
    lemma_text_order_reflexive(ta, 0);
    lemma_text_order_flip(ta, tb, 0);
    match dir {
        DataTableSortDirection::Asc => {
            if text_order(ta, tb) < 0 && text_order(tb, tx) < 0 {
                lemma_text_order_transitive(ta, tb, tx, 0);
            }
            if text_order(ta, tb) == 0 {
                lemma_text_order_zero(ta, tb, tx, 0);
            }
            if text_order(tb, tx) == 0 {
                lemma_text_order_zero(tb, tx, ta, 0);
            }
        },
        DataTableSortDirection::Desc => {
            if text_order(tb, ta) < 0 && text_order(tx, tb) < 0 {
                lemma_text_order_transitive(tx, tb, ta, 0);
            }
            if text_order(tb, ta) == 0 {
                lemma_text_order_flip(tb, ta, 0);
                lemma_text_order_zero(ta, tb, tx, 0);
            }
            if text_order(tx, tb) == 0 {
                lemma_text_order_flip(tx, tb, 0);
                lemma_text_order_zero(tb, tx, ta, 0);
            }
        },
    }
}

/// `goes_before` is a strict order, total on records of different rows.
proof fn lemma_goes_before_order(rows: Seq<DataTableRow>, c: int, dir: DataTableSortDirection, a: RecordView, b: RecordView, x: RecordView)
    ensures
        !goes_before(rows, c, dir, a, a),
        goes_before(rows, c, dir, a, b) && goes_before(rows, c, dir, b, x) ==> goes_before(rows, c, dir, a, x),
        a.row_index != b.row_index ==> goes_before(rows, c, dir, a, b) || goes_before(rows, c, dir, b, a),
{
    lemma_directed_order_facts(rows, c, dir, a, b, x);
}

/// Where `insert_position` stops: `x` goes before none of the records it
/// passes, and before the record it stops at.
proof fn lemma_insert_position(
    s: Seq<RecordView>,
    x: RecordView,
    rows: Seq<DataTableRow>,
    c: int,
    dir: DataTableSortDirection,
    i: int,
)
    requires
        0 <= i <= s.len(),
    ensures
        i <= insert_position(s, x, rows, c, dir, i) <= s.len(),
        forall|k: int| i <= k < insert_position(s, x, rows, c, dir, i) ==> !goes_before(rows, c, dir, x, #[trigger] s[k]),
        insert_position(s, x, rows, c, dir, i) < s.len() ==> goes_before(rows, c, dir, x, s[insert_position(s, x, rows, c, dir, i)]),
    decreases s.len() - i,
{
    if i < s.len() && !goes_before(rows, c, dir, x, s[i]) {
        lemma_insert_position(s, x, rows, c, dir, i + 1);
    }
}

/// Inserting a record of a new row where `insert_position` says keeps sort order.
#[verifier::spinoff_prover]
#[verifier::rlimit(30)]
proof fn lemma_insert_keeps_order(
    s: Seq<RecordView>,
    x: RecordView,
    rows: Seq<DataTableRow>,
    c: int,
    dir: DataTableSortDirection,
)
    requires
        in_sort_order(s, rows, c, dir),
        forall|k: int| 0 <= k < s.len() ==> (#[trigger] s[k]).row_index != x.row_index,
    ensures
        in_sort_order(s.insert(insert_position(s, x, rows, c, dir, 0), x), rows, c, dir),
{
    let p = insert_position(s, x, rows, c, dir, 0);
    lemma_insert_position(s, x, rows, c, dir, 0);
    let t = s.insert(p, x);
    s.insert_ensures(p, x);
    assert forall|i: int, j: int| 0 <= i < j < t.len() implies goes_before(rows, c, dir, #[trigger] t[i], #[trigger] t[j]) by {
        if j < p {
            assert(t[i] == s[i] && t[j] == s[j]);
        } else if j == p {
            assert(t[i] == s[i]);
            assert(!goes_before(rows, c, dir, x, s[i]));
            lemma_goes_before_order(rows, c, dir, s[i], x, x);
        } else if i == p {
            assert(t[j] == s[j - 1]);
            if j - 1 > p {
                assert(goes_before(rows, c, dir, s[p], s[j - 1]));
                lemma_goes_before_order(rows, c, dir, x, s[p], s[j - 1]);
            }
        } else if i < p {
            assert(t[i] == s[i] && t[j] == s[j - 1]);
        } else {
            assert(t[i] == s[i - 1] && t[j] == s[j - 1]);
        }
    }
}

/// Sorting puts the records of distinct rows in sort order, keeping exactly
/// the records it was given: ties on the text keep row order, so the sort is
/// stable.
pub proof fn lemma_sort_orders_records(
    recs: Seq<RecordView>,
    rows: Seq<DataTableRow>,
    c: int,
    dir: DataTableSortDirection,
    n: int,
)
    requires
        0 <= n <= recs.len(),
        distinct_rows(recs),
    ensures
        in_sort_order(sort_upto(recs, rows, c, dir, n), rows, c, dir),
        sort_upto(recs, rows, c, dir, n).len() == n,
        forall|y: RecordView| sort_upto(recs, rows, c, dir, n).contains(y) <==> recs.subrange(0, n).contains(y),
    decreases n,
{
    if n > 0 {
        lemma_sort_orders_records(recs, rows, c, dir, n - 1);
        let s = sort_upto(recs, rows, c, dir, n - 1);
        let x = recs[n - 1];
        assert forall|k: int| 0 <= k < s.len() implies (#[trigger] s[k]).row_index != x.row_index by {
            assert(s.contains(s[k]));
            assert(recs.subrange(0, n - 1).contains(s[k]));
            let m = choose|m: int| 0 <= m < n - 1 && #[trigger] recs.subrange(0, n - 1)[m] == s[k];
            assert(recs[m] == s[k]);
        }
        lemma_insert_keeps_order(s, x, rows, c, dir);
        let p = insert_position(s, x, rows, c, dir, 0);
        lemma_insert_position(s, x, rows, c, dir, 0);
        s.insert_ensures(p, x);
        let t = s.insert(p, x);
        assert(recs.subrange(0, n) =~= recs.subrange(0, n - 1).push(x));
        assert forall|y: RecordView| t.contains(y) <==> recs.subrange(0, n).contains(y) by {
            if t.contains(y) {
                let i = choose|i: int| 0 <= i < t.len() && #[trigger] t[i] == y;
                let pre = recs.subrange(0, n - 1);
                if y == x {
                    assert(pre.push(x)[n - 1] == x);
                } else {
                    if i < p {
                        assert(s[i] == y);
                        assert(s.contains(y));
                    } else {
                        assert(i != p);
                        assert(s[i - 1] == y);
                        assert(s.contains(y));
                    }
                    assert(pre.contains(y));
                    let m = choose|m: int| 0 <= m < pre.len() && #[trigger] pre[m] == y;
                    assert(pre.push(x)[m] == y);
                }
                assert(pre.push(x).contains(y));
            }
            if recs.subrange(0, n).contains(y) {
                let m = choose|m: int| 0 <= m < n && #[trigger] recs.subrange(0, n)[m] == y;
                if m == n - 1 {
                    assert(t[p] == y);
                } else {
                    assert(recs.subrange(0, n - 1)[m] == y);
                    assert(recs.subrange(0, n - 1).contains(y));
                    assert(s.contains(y));
                    let i = choose|i: int| 0 <= i < s.len() && #[trigger] s[i] == y;
                    if i < p {
                        assert(t[i] == y);
                    } else {
                        assert(t[i + 1] == y);
                    }
                }
            }
        }
    }
}

} // verus!
