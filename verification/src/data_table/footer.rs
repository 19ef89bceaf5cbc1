//! The page-size choice in the footer of a `DataTable`: the options offered
//! and the page size a chosen option asks for.

use vstd::prelude::*;

use crate::decimal::{decimal_text, parse_usize, parsed_usize, usize_to_decimal};
use crate::select::SelectOption;
use crate::text::{chars_of, concat3, string_from_chars};

use super::props::DataTablePageState;
use super::state::normalized_page_sizes;

verus! {

/// The stable value of the option for a page size: its decimal text, a size
/// of 0 counting as 1.
pub open spec fn page_size_text(page_size: int) -> Seq<char> {
    decimal_text(if page_size < 1 { 1nat } else { page_size as nat })
}

/// The option value for a page size.
pub fn page_size_value(page_size: usize) -> (r: String)
    ensures
        r@ == page_size_text(page_size as int),
{
    let size: usize = if page_size < 1 { 1 } else { page_size };
    string_from_chars(&usize_to_decimal(size))
}

/// The option label for a page size, "<size> 条/页".
pub fn page_size_label(page_size: usize) -> (r: String)
    ensures
        r@ == decimal_text(page_size as nat) + " 条/页"@,
{
    let empty: Vec<char> = Vec::new();
    let label = concat3(&usize_to_decimal(page_size), &chars_of(" 条/页"), &empty);
    assert(label@ =~= decimal_text(page_size as nat) + " 条/页"@);
    string_from_chars(&label)
}

/// The page sizes offered: the positive `options` and the current page size
/// (at least 1), ascending, without repeats.
pub open spec fn offered_sizes(sizes: Seq<usize>, options: Seq<usize>, current: usize) -> bool {
    &&& forall|i: int, j: int| 0 <= i < j < sizes.len() ==> sizes[i] < sizes[j]
    &&& forall|x: usize| #[trigger] sizes.contains(x) <==> ((options.contains(x) && x > 0)
        || x == if current < 1 { 1 } else { current })
}

/// One enabled option per size, in order, valued and labelled by it.
pub open spec fn options_for_sizes(options: Seq<SelectOption>, sizes: Seq<usize>) -> bool {
    &&& options.len() == sizes.len()
    &&& forall|k: int| 0 <= k < sizes.len() ==> (#[trigger] options[k]).value@ == page_size_text(sizes[k] as int)
        && options[k].label@ == decimal_text(sizes[k] as nat) + " 条/页"@ && !options[k].disabled
}

/// The options of the page-size choice: one per offered page size (see
/// `normalized_page_sizes`), valued by its decimal text.
pub fn page_size_select_options(options: &[usize], current_page_size: usize) -> (r: Vec<SelectOption>)
    ensures
        exists|sizes: Seq<usize>| #[trigger] offered_sizes(sizes, options@, current_page_size)
            && options_for_sizes(r@, sizes),
{
    let sizes = normalized_page_sizes(options, current_page_size);
    let mut r: Vec<SelectOption> = Vec::new();
    let mut k: usize = 0;
    while k < sizes.len()
        invariant
            k <= sizes@.len(),
            r@.len() == k,
            forall|j: int| 0 <= j < k ==> (#[trigger] r@[j]).value@ == page_size_text(sizes@[j] as int)
                && r@[j].label@ == decimal_text(sizes@[j] as nat) + " 条/页"@ && !r@[j].disabled,
        decreases sizes@.len() - k,
    {
        let size = sizes[k];
        r.push(SelectOption { value: page_size_value(size), label: page_size_label(size), disabled: false });
        k = k + 1;
    }
    assert(offered_sizes(sizes@, options@, current_page_size));
    assert(options_for_sizes(r@, sizes@));
    r
}

/// The page size a chosen option asks for: its value read as a positive
/// whole number; nothing for no choice or any other text.
pub fn requested_page_size(value: Option<&str>) -> (r: Option<usize>)
    ensures
        r == match value {
            Some(v) => match parsed_usize(v@) {
                Some(n) => if n > 0 { Some(n as usize) } else { None },
                None => None,
            },
            None => None,
        },
{
    match value {
        Some(v) => match parse_usize(v) {
            Some(n) => if n > 0 { Some(n) } else { None },
            None => None,
        },
        None => None,
    }
}

/// Buttons of the pagination footer.
#[derive(Clone, Copy, Debug, PartialEq, Eq, Structural)]
pub enum DataTablePageButtonKind {
    /// To the first page.
    First,
    /// One page back.
    Previous,
    /// One page on.
    Next,
    /// To the last page.
    Last,
}

/// Whether a page button is disabled: all are while the table takes no input;
/// first and previous on the first page, next and last on the last page.
pub fn page_button_disabled(kind: DataTablePageButtonKind, page_state: DataTablePageState, interactive: bool) -> (r: bool)
    ensures
        r == (!interactive || match kind {
            DataTablePageButtonKind::First | DataTablePageButtonKind::Previous => page_state.page <= 1,
            DataTablePageButtonKind::Next | DataTablePageButtonKind::Last => page_state.page >= page_state.total_pages,
        }),
{
    !interactive || match kind {
        DataTablePageButtonKind::First | DataTablePageButtonKind::Previous => page_state.page <= 1,
        DataTablePageButtonKind::Next | DataTablePageButtonKind::Last => page_state.page >= page_state.total_pages,
    }
}

/// The page a page button asks for; the table then clamps it to its pages.
pub fn page_button_target(kind: DataTablePageButtonKind, page: usize, total_pages: usize) -> (r: usize)
    requires
        kind == DataTablePageButtonKind::Next ==> page < usize::MAX,
    ensures
        r == match kind {
            DataTablePageButtonKind::First => 1,
            DataTablePageButtonKind::Previous => if page <= 1 { 1 } else { page - 1 },
            DataTablePageButtonKind::Next => page + 1,
            DataTablePageButtonKind::Last => total_pages as int,
        },
{
    match kind {
        DataTablePageButtonKind::First => 1,
        DataTablePageButtonKind::Previous => if page <= 1 { 1 } else { page - 1 },
        DataTablePageButtonKind::Next => page + 1,
        DataTablePageButtonKind::Last => total_pages,
    }
}

/// The row count of the footer, "共 <total> 条".
pub fn total_rows_text(total_rows: usize) -> (r: String)
    ensures
        r@ == "共 "@ + decimal_text(total_rows as nat) + " 条"@,
{
    let text = concat3(&chars_of("共 "), &usize_to_decimal(total_rows), &chars_of(" 条"));
    string_from_chars(&text)
}

/// The page position of the footer, "<page>/<total pages>".
pub fn page_position_text(page_state: DataTablePageState) -> (r: String)
    ensures
        r@ == decimal_text(page_state.page as nat) + "/"@ + decimal_text(page_state.total_pages as nat),
{
    let text = concat3(&usize_to_decimal(page_state.page), &chars_of("/"), &usize_to_decimal(page_state.total_pages));
    string_from_chars(&text)
}

} // verus!
