//! What the trigger of a `Select` shows and offers.

use vstd::prelude::*;

verus! {

/// Whether the clear button is shown: only on a focused, clearable, enabled
/// select that has a value.
pub fn show_clear_button(focused: bool, clearable: bool, disabled: bool, has_value: bool) -> (r: bool)
    ensures
        r == (focused && clearable && !disabled && has_value),
{
    focused && clearable && !disabled && has_value
}

/// Whether the search text can be edited: only in an open, enabled,
/// searchable select.
pub fn search_can_edit(searchable: bool, open: bool, disabled: bool) -> (r: bool)
    ensures
        r == (searchable && open && !disabled),
{
    searchable && open && !disabled
}

/// The text the trigger shows and whether it is real content (`true`) or a
/// placeholder: the search text while searching, else the chosen option's
/// label, else the search placeholder while the pop-up is open for search,
/// else the placeholder.
pub open spec fn trigger_text_of(
    searchable: bool,
    open: bool,
    search: Seq<char>,
    selected_label: Option<Seq<char>>,
    search_placeholder: Seq<char>,
    placeholder: Seq<char>,
) -> (Seq<char>, bool) {
    if searchable && open && search.len() > 0 {
        (search, true)
    } else if selected_label is Some {
        (selected_label.unwrap(), true)
    } else if searchable && open {
        (search_placeholder, false)
    } else {
        (placeholder, false)
    }
}

/// The text the trigger shows and whether it is real content.
pub fn trigger_text(
    searchable: bool,
    open: bool,
    search: &str,
    selected_label: Option<String>,
    search_placeholder: &str,
    placeholder: &str,
) -> (r: (String, bool))
    ensures
        (r.0@, r.1) == trigger_text_of(
            searchable,
            open,
            search@,
            match selected_label { Some(l) => Some(l@), None => None },
            search_placeholder@,
            placeholder@,
        ),
{
    if searchable && open && !search.is_empty() {
        return (search.to_owned(), true);
    }
    if let Some(label) = selected_label {
        return (label, true);
    }
    if searchable && open {
        return (search_placeholder.to_owned(), false);
    }
    (placeholder.to_owned(), false)
}

} // verus!
