//! State tests of `DataTable`: filtering, sorting, pagination, duplicate keys
//! and selection rules.

use xgpui::data_table::footer::{
    page_button_disabled, page_button_target, page_position_text, page_size_label,
    page_size_select_options, page_size_value, requested_page_size, total_rows_text,
    DataTablePageButtonKind,
};
use xgpui::data_table::body::{body_content, row_look, table_interactive, DataTableBody, RowBackground};
use xgpui::data_table::page_state;
use xgpui::data_table::{
    DataTableColumn, DataTableProps, DataTableRow, DataTableSelectionMode, DataTableSize,
    DataTableSort, DataTableSortDirection, DataTableState, DataTableStatus, DataTableVariant,
};

fn s(value: &str) -> String {
    value.to_owned()
}

fn row(id: &str, name: &str, status: &str) -> DataTableRow {
    DataTableRow::new(s(id), vec![s(name), s(status)])
}

fn rows() -> Vec<DataTableRow> {
    vec![
        row("1", "Alpha", "Ready"),
        row("2", "Beta", "Blocked"),
        row("3", "Beta", "Ready"),
        row("4", "Gamma", "Done"),
    ]
}

fn text_columns() -> Vec<DataTableColumn> {
    vec![
        DataTableColumn::text("name", "名称"),
        DataTableColumn::text("status", "状态"),
    ]
}

#[test]
fn filter_uses_text_columns_only() {
    let mut columns = text_columns();
    columns.push(DataTableColumn::actions("actions", "操作"));
    let state = DataTableState::new(
        s("删除"),
        None,
        1,
        10,
        Vec::new(),
        DataTableSelectionMode::NoSelection,
    );

    let view = state.view(&rows(), &columns);

    assert!(view.processed_rows.is_empty());

    let state = DataTableState::new(
        s("alpha"),
        None,
        1,
        10,
        Vec::new(),
        DataTableSelectionMode::NoSelection,
    );
    let view = state.view(&rows(), &columns);
    assert_eq!(view.processed_rows[0].row_key, s("1"));
}

#[test]
fn text_sort_is_stable_for_equal_values() {
    let mut state = DataTableState::new(
        String::new(),
        Some(DataTableSort::new("name", DataTableSortDirection::Asc)),
        1,
        10,
        Vec::new(),
        DataTableSelectionMode::NoSelection,
    );
    state.sync_inputs_silent(&rows(), &text_columns());

    let view = state.view(&rows(), &text_columns());
    let keys = view
        .processed_rows
        .iter()
        .map(|record| record.row_key.as_str())
        .collect::<Vec<_>>();

    assert_eq!(keys, vec!["1", "2", "3", "4"]);

    state.set_sort_silent(
        Some(DataTableSort::new("name", DataTableSortDirection::Desc)),
        &rows(),
        &text_columns(),
    );
    let view = state.view(&rows(), &text_columns());
    let keys = view
        .processed_rows
        .iter()
        .map(|record| record.row_key.as_str())
        .collect::<Vec<_>>();

    assert_eq!(keys, vec!["4", "2", "3", "1"]);
}

#[test]
fn display_and_action_columns_are_not_sortable() {
    let columns = vec![
        DataTableColumn::text("name", "名称"),
        DataTableColumn::actions("actions", "操作"),
    ];
    let mut state = DataTableState::new(
        String::new(),
        Some(DataTableSort::new("actions", DataTableSortDirection::Asc)),
        1,
        10,
        Vec::new(),
        DataTableSelectionMode::NoSelection,
    );

    let outcome = state.sync_inputs_silent(&rows(), &columns);

    assert!(outcome.sort_changed);
    assert!(state.sort().is_none());
}

#[test]
fn pagination_clamps_after_filter_page_size_and_rows_change() {
    let mut state = DataTableState::new(
        String::new(),
        None,
        3,
        2,
        Vec::new(),
        DataTableSelectionMode::NoSelection,
    );
    state.sync_inputs_silent(&rows(), &text_columns());
    assert_eq!(state.view(&rows(), &text_columns()).page_state.page, 2);

    state.set_filter_text_silent(s("alpha"), &rows(), &text_columns());
    let page_state = state.view(&rows(), &text_columns()).page_state;
    assert_eq!(page_state.page, 1);
    assert_eq!(page_state.total_rows, 1);

    state.set_page_size_silent(1, &rows(), &text_columns());
    assert_eq!(state.page_size(), 1);

    let smaller_rows = vec![row("1", "Alpha", "Ready")];
    state.set_page_silent(8, &smaller_rows, &text_columns());
    assert_eq!(
        state.view(&smaller_rows, &text_columns()).page_state.page,
        1
    );
}

#[test]
fn duplicate_row_keys_keep_first_record() {
    let duplicate_rows = vec![
        row("1", "First", "Ready"),
        row("1", "Duplicate", "Ready"),
        row("2", "Second", "Ready"),
    ];
    let state = DataTableState::new(
        String::new(),
        None,
        1,
        10,
        Vec::new(),
        DataTableSelectionMode::NoSelection,
    );

    let view = state.view(&duplicate_rows, &text_columns());

    assert_eq!(view.records.len(), 2);
    assert_eq!(view.records[0].row_index, 0);
    assert_eq!(view.records[1].row_key, s("2"));
}

#[test]
fn disabled_rows_are_excluded_from_selection() {
    let rows: Vec<DataTableRow> = rows()
        .into_iter()
        .map(|r| {
            let disabled = r.key == "2";
            r.disabled(disabled)
        })
        .collect();
    let mut state = DataTableState::new(
        String::new(),
        None,
        1,
        10,
        Vec::new(),
        DataTableSelectionMode::Multiple,
    );
    state.sync_inputs_silent(&rows, &text_columns());
    let view = state.view(&rows, &text_columns());

    let disabled_row = view
        .records
        .iter()
        .find(|record| record.row_key == s("2"))
        .unwrap();
    state.toggle_row_selection(
        &disabled_row.row_key,
        disabled_row.disabled,
        DataTableSelectionMode::Multiple,
    );
    assert!(state.selected_row_keys().is_empty());

    state.toggle_page_selection(&view.page_rows, DataTableSelectionMode::Multiple);
    assert_eq!(state.selected_row_keys(), &[s("1"), s("3"), s("4")]);

    state.set_selected_row_keys_silent(Vec::new(), DataTableSelectionMode::Multiple);
    state.move_active_by(&view.page_rows, 1);
    state.toggle_active_selection(&view.page_rows, DataTableSelectionMode::Multiple);
    assert_eq!(state.selected_row_keys(), &[s("3")]);
}

#[test]
fn page_size_choice_offers_sorted_sizes_and_reads_back_positive_numbers() {
    assert_eq!(page_size_value(0), "1");
    assert_eq!(page_size_value(20), "20");
    assert_eq!(page_size_label(10), "10 条/页");

    let options = page_size_select_options(&[20, 10, 0, 10], 15);
    let values: Vec<&str> = options.iter().map(|o| o.value.as_str()).collect();
    assert_eq!(values, vec!["10", "15", "20"]);
    assert_eq!(options[1].label, "15 条/页");

    assert_eq!(requested_page_size(Some("25")), Some(25));
    assert_eq!(requested_page_size(Some("+7")), Some(7));
    assert_eq!(requested_page_size(Some("0")), None);
    assert_eq!(requested_page_size(Some("")), None);
    assert_eq!(requested_page_size(Some(" 5")), None);
    assert_eq!(requested_page_size(Some("abc")), None);
    assert_eq!(requested_page_size(Some("99999999999999999999999")), None);
    assert_eq!(requested_page_size(None), None);
}

#[test]
fn pagination_buttons_follow_the_page_position() {
    let first = page_state(25, 1, 10);
    let last = page_state(25, 9, 10);
    assert_eq!(last.page, 3);
    assert!(page_button_disabled(DataTablePageButtonKind::Previous, first, true));
    assert!(!page_button_disabled(DataTablePageButtonKind::Next, first, true));
    assert!(page_button_disabled(DataTablePageButtonKind::Last, last, true));
    assert!(page_button_disabled(DataTablePageButtonKind::Next, first, false));
    assert_eq!(page_button_target(DataTablePageButtonKind::Previous, 1, 3), 1);
    assert_eq!(page_button_target(DataTablePageButtonKind::Next, 2, 3), 3);
    assert_eq!(page_button_target(DataTablePageButtonKind::Last, 1, 3), 3);
    assert_eq!(total_rows_text(25), "共 25 条");
    assert_eq!(page_position_text(last), "3/3");
}

#[test]
fn body_and_rows_follow_loading_selection_and_disabled_state() {
    assert_eq!(body_content(true, 3), DataTableBody::Loading);
    assert_eq!(body_content(false, 0), DataTableBody::Empty);
    assert_eq!(body_content(false, 3), DataTableBody::Rows);
    assert!(!table_interactive(false, true));
    let look = row_look(true, true, false, true);
    assert_eq!(look.background, RowBackground::Active);
    assert!(look.interactive);
    let look = row_look(false, true, true, true);
    assert_eq!(look.background, RowBackground::Selected);
    assert!(!look.interactive && look.faded);

    let rows: Vec<DataTableRow> = rows()
        .into_iter()
        .map(|r| {
            let disabled = r.key == "2";
            r.disabled(disabled)
        })
        .collect();
    let mut state = DataTableState::new(
        String::new(),
        None,
        1,
        10,
        Vec::new(),
        DataTableSelectionMode::Multiple,
    );
    state.sync_inputs_silent(&rows, &text_columns());
    let view = state.view(&rows, &text_columns());
    assert_eq!(state.page_selection_header(&view.page_rows), (false, true));
    state.toggle_page_selection(&view.page_rows, DataTableSelectionMode::Multiple);
    assert_eq!(state.page_selection_header(&view.page_rows), (true, true));
    assert_eq!(state.page_selection_header(&[]), (false, false));
}

#[test]
fn props_start_with_documented_defaults() {
    let props = DataTableProps::new();
    assert!(props.rows.is_empty());
    assert!(props.columns.is_empty());
    assert_eq!(props.filter_text, "");
    assert!(props.show_filter);
    assert_eq!(props.filter_placeholder, "搜索");
    assert!(props.sort.is_none());
    assert_eq!(props.page, 1);
    assert_eq!(props.page_size, 10);
    assert_eq!(props.page_size_options, vec![10, 20, 50]);
    assert_eq!(props.selection_mode, DataTableSelectionMode::NoSelection);
    assert!(props.selected_row_keys.is_empty());
    assert!(!props.loading && !props.disabled && !props.required);
    assert_eq!(props.size, DataTableSize::Medium);
    assert_eq!(props.variant, DataTableVariant::Outlined);
    assert_eq!(props.status, DataTableStatus::Default);
    assert!(props.helper_text.is_none());
    assert_eq!(props.empty_text, "暂无数据");
    assert_eq!(props.loading_text, "加载中");
    assert_eq!(props.max_height, 360);
}

#[test]
fn props_builders_set_their_field() {
    let props = DataTableProps::new()
        .rows(rows())
        .columns(text_columns())
        .filter_text(s("beta"))
        .show_filter(false)
        .filter_placeholder(s("Find"))
        .page(3)
        .page_size(1)
        .page_size_options(vec![1, 5])
        .selection_mode(DataTableSelectionMode::Multiple)
        .selected_row_keys(vec![s("2")])
        .loading(true)
        .disabled(true)
        .required(true)
        .size(DataTableSize::Small)
        .variant(DataTableVariant::Filled)
        .status(DataTableStatus::Error)
        .helper_text(Some(s("help")))
        .empty_text(s("none"))
        .loading_text(s("wait"))
        .max_height(200);
    assert_eq!(props.rows.len(), 4);
    assert_eq!(props.columns.len(), 2);
    assert_eq!(props.filter_text, "beta");
    assert!(!props.show_filter);
    assert_eq!(props.filter_placeholder, "Find");
    assert_eq!(props.page, 3);
    assert_eq!(props.page_size, 1);
    assert_eq!(props.page_size_options, vec![1, 5]);
    assert_eq!(props.selection_mode, DataTableSelectionMode::Multiple);
    assert_eq!(props.selected_row_keys, vec![s("2")]);
    assert!(props.loading && props.disabled && props.required);
    assert_eq!(props.size, DataTableSize::Small);
    assert_eq!(props.variant, DataTableVariant::Filled);
    assert_eq!(props.status, DataTableStatus::Error);
    assert_eq!(props.helper_text, Some(s("help")));
    assert_eq!(props.empty_text, "none");
    assert_eq!(props.loading_text, "wait");
    assert_eq!(props.max_height, 200);
}

#[test]
fn state_from_props_clamps_page_and_drops_unknown_sort() {
    let props = DataTableProps::new()
        .rows(rows())
        .columns(text_columns())
        .filter_text(s("beta"))
        .sort(Some(DataTableSort::new("missing", DataTableSortDirection::Asc)))
        .page(9)
        .page_size(1)
        .selection_mode(DataTableSelectionMode::Single)
        .selected_row_keys(vec![s("2"), s("3")]);
    let state = DataTableState::from_props(&props);
    assert!(state.sort().is_none());
    assert_eq!(state.page(), 2);
    assert_eq!(state.page_size(), 1);
    assert_eq!(state.selected_row_keys(), &[s("2")][..]);
    assert_eq!(state.filtered_row_count(&props.rows, &props.columns), 2);
}

#[test]
fn selected_set_holds_each_selected_key() {
    let state = DataTableState::new(
        String::new(),
        None,
        1,
        10,
        vec![s("1"), s("3"), s("1")],
        DataTableSelectionMode::Multiple,
    );
    let set = state.selected_set();
    assert_eq!(set.len(), 2);
    assert!(set.contains("1"));
    assert!(set.contains("3"));
    assert!(!set.contains("2"));
}

#[test]
fn blank_filter_keeps_every_row() {
    let state = DataTableState::new(
        s("  "),
        None,
        1,
        10,
        Vec::new(),
        DataTableSelectionMode::NoSelection,
    );
    let view = state.view(&rows(), &text_columns());
    assert_eq!(view.processed_rows.len(), 4);
    assert_eq!(state.filtered_row_count(&rows(), &text_columns()), 4);
}
