//! What the body of a `DataTable` shows and how its rows look.

use vstd::prelude::*;

verus! {

/// What the table body shows.
#[derive(Clone, Copy, Debug, PartialEq, Eq, Structural)]
pub enum DataTableBody {
    /// The loading message.
    Loading,
    /// The empty message.
    Empty,
    /// The rows of the page.
    Rows,
}

/// The body: the loading message while loading, the empty message for a page
/// without rows, else the rows.
pub fn body_content(loading: bool, page_row_count: usize) -> (r: DataTableBody)
    ensures
        r == (if loading {
            DataTableBody::Loading
        } else if page_row_count == 0 {
            DataTableBody::Empty
        } else {
            DataTableBody::Rows
        }),
{
    if loading {
        DataTableBody::Loading
    } else if page_row_count == 0 {
        DataTableBody::Empty
    } else {
        DataTableBody::Rows
    }
}

/// Background of a table row.
#[derive(Clone, Copy, Debug, PartialEq, Eq, Structural)]
pub enum RowBackground {
    /// The keyboard-active row.
    Active,
    /// A selected row.
    Selected,
    /// Any other row.
    Plain,
}

/// How a row looks and whether it takes clicks.
#[derive(Clone, Copy, Debug, PartialEq, Eq, Structural)]
pub struct DataTableRowLook {
    pub background: RowBackground,
    /// Whether the row takes clicks and shows hover feedback.
    pub interactive: bool,
    /// Whether the row is faded, as disabled rows are.
    pub faded: bool,
}

/// The look of a row: being active wins over being selected; a row takes
/// clicks only when the table does and the row is enabled.
pub fn row_look(active: bool, selected: bool, disabled: bool, table_interactive: bool) -> (r: DataTableRowLook)
    ensures
        r == (DataTableRowLook {
            background: if active {
                RowBackground::Active
            } else if selected {
                RowBackground::Selected
            } else {
                RowBackground::Plain
            },
            interactive: table_interactive && !disabled,
            faded: disabled,
        }),
{
    DataTableRowLook {
        background: if active {
            RowBackground::Active
        } else if selected {
            RowBackground::Selected
        } else {
            RowBackground::Plain
        },
        interactive: table_interactive && !disabled,
        faded: disabled,
    }
}

/// Whether the table takes input: neither disabled nor loading.
pub fn table_interactive(disabled: bool, loading: bool) -> (r: bool)
    ensures
        r == (!disabled && !loading),
{
    !disabled && !loading
}

} // verus!
