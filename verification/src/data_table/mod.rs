//! `DataTable`: filtering, sorting, pagination, row selection and keyboard
//! navigation over rows described by stable keys and text cells.

pub mod props;
pub mod state;
pub mod style;
pub mod footer;
pub mod body;

pub use props::{
    DataTableAlign, DataTableColumn, DataTableColumnKind, DataTablePageState, DataTableProps,
    DataTableRow,
    DataTableSelectionMode, DataTableSize, DataTableSort, DataTableSortDirection, DataTableStatus,
    DataTableVariant,
};
pub use state::{
    build_records, normalized_page_sizes, page_state, DataTableRowRecord, DataTableState,
    DataTableStateOutcome, DataTableView,
};
