//! Public parameter types and the column model of `DataTable`.

use vstd::prelude::*;

verus! {

/// Size of a `DataTable`.
#[derive(Clone, Copy, Debug, PartialEq, Eq, Structural)]
pub enum DataTableSize {
    /// Dense lists.
    Small,
    /// Regular tables.
    Medium,
    /// Spacious tables.
    Large,
}

impl Default for DataTableSize {
    fn default() -> (s: Self)
        ensures
            s == DataTableSize::Medium,
    {
        DataTableSize::Medium
    }
}

/// Visual variant of a `DataTable`.
#[derive(Clone, Copy, Debug, PartialEq, Eq, Structural)]
pub enum DataTableVariant {
    /// Bordered container.
    Outlined,
    /// Lightly filled container.
    Filled,
    /// Borderless container.
    Borderless,
}

impl Default for DataTableVariant {
    fn default() -> (v: Self)
        ensures
            v == DataTableVariant::Outlined,
    {
        DataTableVariant::Outlined
    }
}

/// Semantic status of a `DataTable`.
#[derive(Clone, Copy, Debug, PartialEq, Eq, Structural)]
pub enum DataTableStatus {
    /// No status.
    Default,
    /// Error.
    Error,
    /// Warning.
    Warning,
    /// Success.
    Success,
}

impl Default for DataTableStatus {
    fn default() -> (s: Self)
        ensures
            s == DataTableStatus::Default,
    {
        DataTableStatus::Default
    }
}

/// Horizontal alignment of a column.
#[derive(Clone, Copy, Debug, PartialEq, Eq, Structural)]
pub enum DataTableAlign {
    /// Left, the default for text.
    Left,
    /// Centred.
    Center,
    /// Right, for numbers and actions.
    Right,
}

impl Default for DataTableAlign {
    fn default() -> (a: Self)
        ensures
            a == DataTableAlign::Left,
    {
        DataTableAlign::Left
    }
}

/// How rows can be selected.
#[derive(Clone, Copy, Debug, PartialEq, Eq, Structural)]
pub enum DataTableSelectionMode {
    /// No selection is kept.
    NoSelection,
    /// At most one selected row.
    Single,
    /// Any number of selected rows.
    Multiple,
}

impl Default for DataTableSelectionMode {
    fn default() -> (m: Self)
        ensures
            m == DataTableSelectionMode::NoSelection,
    {
        DataTableSelectionMode::NoSelection
    }
}

/// Sort direction.
#[derive(Clone, Copy, Debug, PartialEq, Eq, Structural)]
pub enum DataTableSortDirection {
    /// Ascending.
    Asc,
    /// Descending.
    Desc,
}

/// Sort of one column.
#[derive(Debug)]
pub struct DataTableSort {
    /// Key of the sorted column.
    pub column_key: String,
    /// Direction.
    pub direction: DataTableSortDirection,
}

impl Clone for DataTableSort {
    fn clone(&self) -> (s: Self)
        ensures
            s == *self,
    {
        DataTableSort { column_key: self.column_key.clone(), direction: self.direction }
    }
}

impl DataTableSort {
    /// A sort of the column `column_key` in `direction`.
    pub fn new(column_key: &str, direction: DataTableSortDirection) -> (s: Self)
        ensures
            s.column_key@ == column_key@,
            s.direction == direction,
    {
        DataTableSort { column_key: column_key.to_owned(), direction }
    }
}

/// Derived pagination state.
#[derive(Clone, Copy, Debug, PartialEq, Eq, Structural)]
pub struct DataTablePageState {
    /// Current page, counted from 1.
    pub page: usize,
    /// Rows per page.
    pub page_size: usize,
    /// Rows after filtering.
    pub total_rows: usize,
    /// Number of pages; 1 even without rows.
    pub total_pages: usize,
}

/// What a column does with the rows.
#[derive(Clone, Copy, Debug, PartialEq, Eq, Structural)]
pub enum DataTableColumnKind {
    /// A text column, taking part in the global filter and in sorting as set.
    Text {
        /// Whether the global filter looks at this column.
        filterable: bool,
        /// Whether the header sorts by this column.
        sortable: bool,
    },
    /// A rendered column (actions, badges): neither filtered nor sorted.
    Display,
}

/// A column of a `DataTable`.
#[derive(Debug)]
pub struct DataTableColumn {
    /// Stable key.
    pub key: String,
    /// Header title.
    pub title: String,
    /// Fixed width in whole pixels; columns without one share the rest.
    pub width: Option<u32>,
    /// Minimum width in whole pixels.
    pub min_width: u32,
    /// Cell alignment.
    pub align: DataTableAlign,
    /// Text or rendered column.
    pub kind: DataTableColumnKind,
}

impl Clone for DataTableColumn {
    fn clone(&self) -> (c: Self)
        ensures
            c == *self,
    {
        DataTableColumn {
            key: self.key.clone(),
            title: self.title.clone(),
            width: self.width,
            min_width: self.min_width,
            align: self.align,
            kind: self.kind,
        }
    }
}

impl DataTableColumn {
    /// A filterable, sortable text column.
    pub fn text(key: &str, title: &str) -> (c: Self)
        ensures
            c.key@ == key@,
            c.title@ == title@,
            c.width is None,
            c.min_width == 96,
            c.align == DataTableAlign::Left,
            c.kind == (DataTableColumnKind::Text { filterable: true, sortable: true }),
    {
        DataTableColumn {
            key: key.to_owned(),
            title: title.to_owned(),
            width: None,
            min_width: 96,
            align: DataTableAlign::Left,
            kind: DataTableColumnKind::Text { filterable: true, sortable: true },
        }
    }

    /// A rendered column.
    pub fn display(key: &str, title: &str) -> (c: Self)
        ensures
            c.key@ == key@,
            c.title@ == title@,
            c.width is None,
            c.min_width == 96,
            c.align == DataTableAlign::Left,
            c.kind == DataTableColumnKind::Display,
    {
        DataTableColumn {
            key: key.to_owned(),
            title: title.to_owned(),
            width: None,
            min_width: 96,
            align: DataTableAlign::Left,
            kind: DataTableColumnKind::Display,
        }
    }

    /// An actions column: rendered, right-aligned, 128 pixels wide.
    pub fn actions(key: &str, title: &str) -> (c: Self)
        ensures
            c.key@ == key@,
            c.title@ == title@,
            c.width == Some(128u32),
            c.min_width == 96,
            c.align == DataTableAlign::Right,
            c.kind == DataTableColumnKind::Display,
    {
        Self::display(key, title).align(DataTableAlign::Right).width(128).min_width(96)
    }

    /// Sets a fixed width.
    pub fn width(self, width: u32) -> (c: Self)
        ensures
            c == (Self { width: Some(width), ..self }),
    {
        Self { width: Some(width), ..self }
    }

    /// Sets the minimum width.
    pub fn min_width(self, min_width: u32) -> (c: Self)
        ensures
            c == (Self { min_width, ..self }),
    {
        Self { min_width, ..self }
    }

    /// Sets the alignment.
    pub fn align(self, align: DataTableAlign) -> (c: Self)
        ensures
            c == (Self { align, ..self }),
    {
        Self { align, ..self }
    }

    /// Sets whether a text column takes part in the filter; rendered columns
    /// are left as they are.
    pub fn filterable(self, filterable: bool) -> (c: Self)
        ensures
            c == (Self {
                kind: match self.kind {
                    DataTableColumnKind::Text { sortable, .. } => DataTableColumnKind::Text {
                        filterable,
                        sortable,
                    },
                    DataTableColumnKind::Display => DataTableColumnKind::Display,
                },
                ..self
            }),
    {
        let kind = match self.kind {
            DataTableColumnKind::Text { sortable, .. } => DataTableColumnKind::Text {
                filterable,
                sortable,
            },
            DataTableColumnKind::Display => DataTableColumnKind::Display,
        };
        Self { kind, ..self }
    }

    /// Sets whether a text column can be sorted; rendered columns are left as
    /// they are.
    pub fn sortable(self, sortable: bool) -> (c: Self)
        ensures
            c == (Self {
                kind: match self.kind {
                    DataTableColumnKind::Text { filterable, .. } => DataTableColumnKind::Text {
                        filterable,
                        sortable,
                    },
                    DataTableColumnKind::Display => DataTableColumnKind::Display,
                },
                ..self
            }),
    {
        let kind = match self.kind {
            DataTableColumnKind::Text { filterable, .. } => DataTableColumnKind::Text {
                filterable,
                sortable,
            },
            DataTableColumnKind::Display => DataTableColumnKind::Display,
        };
        Self { kind, ..self }
    }

    /// Whether the global filter looks at this column.
    pub open spec fn spec_is_filterable(self) -> bool {
        self.kind matches DataTableColumnKind::Text { filterable: true, .. }
    }

    /// Whether the column can be sorted.
    pub open spec fn spec_is_sortable(self) -> bool {
        self.kind matches DataTableColumnKind::Text { sortable: true, .. }
    }

    /// Whether the global filter looks at this column.
    pub fn is_filterable(&self) -> (r: bool)
        ensures
            r == self.spec_is_filterable(),
    {
        match self.kind {
            DataTableColumnKind::Text { filterable, .. } => filterable,
            DataTableColumnKind::Display => false,
        }
    }

    /// Whether the column can be sorted.
    pub fn is_sortable(&self) -> (r: bool)
        ensures
            r == self.spec_is_sortable(),
    {
        match self.kind {
            DataTableColumnKind::Text { sortable, .. } => sortable,
            DataTableColumnKind::Display => false,
        }
    }
}

/// One row as the table logic sees it: its stable key, whether it is
/// disabled, and the text of each column (by column position).
#[derive(Debug)]
pub struct DataTableRow {
    /// Stable key.
    pub key: String,
    /// Disabled rows are shown but cannot be selected.
    pub disabled: bool,
    /// Cell texts; entry `c` is the text of column `c`.
    pub cells: Vec<String>,
}

impl Clone for DataTableRow {
    fn clone(&self) -> (r: Self)
        ensures
            r.key == self.key,
            r.disabled == self.disabled,
            r.cells@ == self.cells@,
    {
        DataTableRow { key: self.key.clone(), disabled: self.disabled, cells: self.cells.clone() }
    }
}

impl DataTableRow {
    /// An enabled row.
    pub fn new(key: String, cells: Vec<String>) -> (r: Self)
        ensures
            r.key == key,
            !r.disabled,
            r.cells == cells,
    {
        DataTableRow { key, disabled: false, cells }
    }

    /// The same row with the given disabled flag.
    pub fn disabled(self, disabled: bool) -> (r: Self)
        ensures
            r == (Self { disabled, ..self }),
    {
        Self { disabled, ..self }
    }
}

/// Parameters of a `DataTable`: rows, columns, the initial filter, sort,
/// page and selection, and how the table looks.
#[derive(Debug)]
pub struct DataTableProps {
    /// The rows.
    pub rows: Vec<DataTableRow>,
    /// The columns.
    pub columns: Vec<DataTableColumn>,
    /// Initial filter text.
    pub filter_text: String,
    /// Whether the built-in filter input is shown.
    pub show_filter: bool,
    /// Placeholder of the filter input.
    pub filter_placeholder: String,
    /// Initial sort.
    pub sort: Option<DataTableSort>,
    /// Initial page, counted from 1.
    pub page: usize,
    /// Initial rows per page.
    pub page_size: usize,
    /// Page sizes offered in the footer.
    pub page_size_options: Vec<usize>,
    /// Row selection mode.
    pub selection_mode: DataTableSelectionMode,
    /// Initially selected row keys.
    pub selected_row_keys: Vec<String>,
    /// Whether the rows are still loading.
    pub loading: bool,
    /// A disabled table takes no input.
    pub disabled: bool,
    /// Whether the field is marked as required.
    pub required: bool,
    /// Size.
    pub size: DataTableSize,
    /// Visual variant.
    pub variant: DataTableVariant,
    /// Semantic status.
    pub status: DataTableStatus,
    /// Helper text under the table.
    pub helper_text: Option<String>,
    /// Text shown when no row matches.
    pub empty_text: String,
    /// Text shown while loading.
    pub loading_text: String,
    /// Maximum height of the table body, in whole pixels.
    pub max_height: u32,
}

impl DataTableProps {
    /// The default parameters: no rows or columns, filter shown, first page of
    /// ten rows, sizes 10, 20 and 50 offered, no selection.
    pub fn new() -> (p: Self)
        ensures
            p.rows@.len() == 0,
            p.columns@.len() == 0,
            p.filter_text@.len() == 0,
            p.show_filter,
            p.filter_placeholder@ == "搜索"@,
            p.sort is None,
            p.page == 1,
            p.page_size == 10,
            p.page_size_options@ == seq![10usize, 20, 50],
            p.selection_mode == DataTableSelectionMode::NoSelection,
            p.selected_row_keys@.len() == 0,
            !p.loading && !p.disabled && !p.required,
            p.size == DataTableSize::Medium,
            p.variant == DataTableVariant::Outlined,
            p.status == DataTableStatus::Default,
            p.helper_text is None,
            p.empty_text@ == "暂无数据"@,
            p.loading_text@ == "加载中"@,
            p.max_height == 360,
    {
        DataTableProps {
            rows: Vec::new(),
            columns: Vec::new(),
            filter_text: String::new(),
            show_filter: true,
            filter_placeholder: "搜索".to_owned(),
            sort: None,
            page: 1,
            page_size: 10,
            page_size_options: vec![10, 20, 50],
            selection_mode: DataTableSelectionMode::NoSelection,
            selected_row_keys: Vec::new(),
            loading: false,
            disabled: false,
            required: false,
            size: DataTableSize::Medium,
            variant: DataTableVariant::Outlined,
            status: DataTableStatus::Default,
            helper_text: None,
            empty_text: "暂无数据".to_owned(),
            loading_text: "加载中".to_owned(),
            max_height: 360,
        }
    }

    /// Sets the rows.
    pub fn rows(self, rows: Vec<DataTableRow>) -> (p: Self)
        ensures
            p == (Self { rows, ..self }),
    {
        Self { rows, ..self }
    }

    /// Sets the columns.
    pub fn columns(self, columns: Vec<DataTableColumn>) -> (p: Self)
        ensures
            p == (Self { columns, ..self }),
    {
        Self { columns, ..self }
    }

    /// Sets the initial filter text.
    pub fn filter_text(self, filter_text: String) -> (p: Self)
        ensures
            p == (Self { filter_text, ..self }),
    {
        Self { filter_text, ..self }
    }

    /// Sets whether the built-in filter input is shown.
    pub fn show_filter(self, show_filter: bool) -> (p: Self)
        ensures
            p == (Self { show_filter, ..self }),
    {
        Self { show_filter, ..self }
    }

    /// Sets the placeholder of the filter input.
    pub fn filter_placeholder(self, filter_placeholder: String) -> (p: Self)
        ensures
            p == (Self { filter_placeholder, ..self }),
    {
        Self { filter_placeholder, ..self }
    }

    /// Sets the initial sort.
    pub fn sort(self, sort: Option<DataTableSort>) -> (p: Self)
        ensures
            p == (Self { sort, ..self }),
    {
        Self { sort, ..self }
    }

    /// Sets the initial page.
    pub fn page(self, page: usize) -> (p: Self)
        ensures
            p == (Self { page, ..self }),
    {
        Self { page, ..self }
    }

    /// Sets the initial page size.
    pub fn page_size(self, page_size: usize) -> (p: Self)
        ensures
            p == (Self { page_size, ..self }),
    {
        Self { page_size, ..self }
    }

    /// Sets the page sizes offered.
    pub fn page_size_options(self, page_size_options: Vec<usize>) -> (p: Self)
        ensures
            p == (Self { page_size_options, ..self }),
    {
        Self { page_size_options, ..self }
    }

    /// Sets the selection mode.
    pub fn selection_mode(self, selection_mode: DataTableSelectionMode) -> (p: Self)
        ensures
            p == (Self { selection_mode, ..self }),
    {
        Self { selection_mode, ..self }
    }

    /// Sets the initially selected row keys.
    pub fn selected_row_keys(self, selected_row_keys: Vec<String>) -> (p: Self)
        ensures
            p == (Self { selected_row_keys, ..self }),
    {
        Self { selected_row_keys, ..self }
    }

    /// Sets the loading flag.
    pub fn loading(self, loading: bool) -> (p: Self)
        ensures
            p == (Self { loading, ..self }),
    {
        Self { loading, ..self }
    }

    /// Sets the disabled flag.
    pub fn disabled(self, disabled: bool) -> (p: Self)
        ensures
            p == (Self { disabled, ..self }),
    {
        Self { disabled, ..self }
    }

    /// Sets the required flag.
    pub fn required(self, required: bool) -> (p: Self)
        ensures
            p == (Self { required, ..self }),
    {
        Self { required, ..self }
    }

    /// Sets the size.
    pub fn size(self, size: DataTableSize) -> (p: Self)
        ensures
            p == (Self { size, ..self }),
    {
        Self { size, ..self }
    }

    /// Sets the variant.
    pub fn variant(self, variant: DataTableVariant) -> (p: Self)
        ensures
            p == (Self { variant, ..self }),
    {
        Self { variant, ..self }
    }

    /// Sets the status.
    pub fn status(self, status: DataTableStatus) -> (p: Self)
        ensures
            p == (Self { status, ..self }),
    {
        Self { status, ..self }
    }

    /// Sets the helper text.
    pub fn helper_text(self, helper_text: Option<String>) -> (p: Self)
        ensures
            p == (Self { helper_text, ..self }),
    {
        Self { helper_text, ..self }
    }

    /// Sets the text shown without rows.
    pub fn empty_text(self, empty_text: String) -> (p: Self)
        ensures
            p == (Self { empty_text, ..self }),
    {
        Self { empty_text, ..self }
    }

    /// Sets the text shown while loading.
    pub fn loading_text(self, loading_text: String) -> (p: Self)
        ensures
            p == (Self { loading_text, ..self }),
    {
        Self { loading_text, ..self }
    }

    /// Sets the maximum height of the table body.
    pub fn max_height(self, max_height: u32) -> (p: Self)
        ensures
            p == (Self { max_height, ..self }),
    {
        Self { max_height, ..self }
    }
}

} // verus!
