//! State tests of `Select`: choosing, clearing, searching, caret editing and
//! keyboard highlight.

use xgpui::select::trigger::{search_can_edit, show_clear_button, trigger_text};
use xgpui::select::{
    filtered_indices_for, normalize_search_text, offset_from_utf16_in, offset_to_utf16_in,
    range_from_utf16_in, SelectOption, SelectState,
};

fn options() -> Vec<SelectOption> {
    vec![
        SelectOption::new("apple", "Apple"),
        SelectOption::new("banana", "Banana").disabled(true),
        SelectOption::new("blueberry", "Blueberry"),
        SelectOption::new("orange", "Orange"),
    ]
}

const FAMILY: &str = "a👨\u{200d}👩\u{200d}👧\u{200d}👦b";

#[test]
fn select_available_option_updates_value_and_closes_popup() {
    let options = options();
    let mut state = SelectState::new(None, &options);
    state.open(&options);

    let outcome = state.select_index(2, &options);

    assert!(outcome.value_changed);
    assert!(outcome.open_changed);
    assert_eq!(state.value(), Some(&String::from("blueberry")));
    assert!(!state.is_open());
}

#[test]
fn set_value_silent_updates_value_without_interaction_semantics() {
    let options = options();
    let mut state = SelectState::new(None, &options);

    let outcome = state.set_value_silent(Some(String::from("orange")), &options);

    assert!(outcome.value_changed);
    assert_eq!(state.selected_label(&options), Some(String::from("Orange")));
}

#[test]
fn sync_options_keeps_value_and_refreshes_selected_label() {
    let options = options();
    let mut state = SelectState::new(Some(String::from("apple")), &options);
    let renamed_options = vec![
        SelectOption::new("apple", "Apple Updated"),
        SelectOption::new("orange", "Orange"),
    ];

    let outcome = state.sync_options_silent(&renamed_options);

    assert!(!outcome.value_changed);
    assert_eq!(state.value(), Some(&String::from("apple")));
    assert_eq!(
        state.selected_label(&renamed_options),
        Some(String::from("Apple Updated"))
    );
}

#[test]
fn sync_options_preserves_missing_value() {
    let options = options();
    let mut state = SelectState::new(Some(String::from("apple")), &options);
    let remote_options = vec![SelectOption::new("coffee", "Coffee")];

    let outcome = state.sync_options_silent(&remote_options);

    assert!(!outcome.value_changed);
    assert_eq!(state.value(), Some(&String::from("apple")));
    assert_eq!(state.selected_label(&remote_options), None);
    assert_eq!(state.highlighted_index(), Some(0));
}

#[test]
fn sync_options_recomputes_highlight_with_current_search() {
    let options = options();
    let mut state = SelectState::new(None, &options);
    state.open(&options);
    state.set_search("ap", &options);
    let remote_options = vec![
        SelectOption::new("disabled", "Apricot disabled").disabled(true),
        SelectOption::new("apricot", "Apricot"),
        SelectOption::new("orange", "Orange"),
    ];

    let outcome = state.sync_options_silent(&remote_options);

    assert!(outcome.highlight_changed);
    assert_eq!(state.filtered_indices(&remote_options), vec![0, 1]);
    assert_eq!(state.highlighted_index(), Some(1));
}

#[test]
fn clear_removes_value_and_restores_first_selectable_highlight() {
    let options = options();
    let mut state = SelectState::new(Some(String::from("orange")), &options);

    let outcome = state.clear(&options);

    assert!(outcome.value_changed);
    assert!(state.value().is_none());
    assert_eq!(state.highlighted_index(), Some(0));
}

#[test]
fn search_filter_is_case_insensitive_and_keeps_order() {
    let options = options();

    assert_eq!(filtered_indices_for("B", &options), vec![1, 2]);
    assert_eq!(filtered_indices_for("berry", &options), vec![2]);
    assert!(filtered_indices_for("missing", &options).is_empty());
}

#[test]
fn search_highlight_skips_disabled_options() {
    let options = options();
    let mut state = SelectState::new(None, &options);

    let outcome = state.set_search("ban", &options);

    assert!(outcome.search_changed);
    assert_eq!(state.filtered_indices(&options), vec![1]);
    assert_eq!(state.highlighted_index(), None);
}

#[test]
fn search_replacement_updates_filter_and_cursor() {
    let options = options();
    let mut state = SelectState::new(None, &options);
    state.open(&options);

    let outcome = state.replace_search_text_in_range(None, "Blue", &options);

    assert!(outcome.search_changed);
    assert!(outcome.search_selection_changed);
    assert_eq!(state.search(), "Blue");
    assert_eq!(state.search_selected_range(), 4..4);
    assert_eq!(state.filtered_indices(&options), vec![2]);
}

#[test]
fn search_selection_replace_normalizes_multiline_and_moves_by_grapheme() {
    let options = options();
    let mut state = SelectState::new(None, &options);
    state.open(&options);
    state.replace_search_text_in_range(None, FAMILY, &options);

    let cursor_before_b = state.previous_search_boundary(state.search_cursor_offset());
    state.move_search_cursor(cursor_before_b);
    let family_start = state.previous_search_boundary(state.search_cursor_offset());
    state.select_search_to(family_start);
    let outcome = state.replace_search_text_in_range(None, "x\ny", &options);

    assert!(outcome.search_changed);
    assert_eq!(state.search(), "ax yb");
    assert_eq!(state.search_selected_range(), 4..4);
}

#[test]
fn search_cursor_offsets_inside_grapheme_are_clamped() {
    let options = options();
    let mut state = SelectState::new(None, &options);
    state.open(&options);
    state.replace_search_text_in_range(None, FAMILY, &options);
    let family_start = "a".len();
    let inside_family = family_start + "👨".len();

    let outcome = state.move_search_cursor(inside_family);

    assert!(outcome.search_selection_changed);
    assert_eq!(state.search_selected_range(), family_start..family_start);
}

#[test]
fn partial_search_grapheme_replacement_expands_to_full_grapheme() {
    let options = options();
    let mut state = SelectState::new(None, &options);
    state.open(&options);
    state.replace_search_text_in_range(None, FAMILY, &options);
    let family_start = "a".len();
    let family_mid = family_start + "👨".len();
    let family_inner_end = family_mid + "\u{200d}".len();
    let start_utf16 = state.search_offset_to_utf16(family_mid);
    let end_utf16 = state.search_offset_to_utf16(family_inner_end);

    let outcome =
        state.replace_search_text_in_range(Some(start_utf16..end_utf16), "X", &options);

    assert!(outcome.search_changed);
    assert_eq!(state.search(), "aXb");
    assert_eq!(state.search_selected_range(), 2..2);
}

#[test]
fn marked_search_selected_range_inside_grapheme_is_clamped() {
    let options = options();
    let mut state = SelectState::new(None, &options);
    state.open(&options);
    let inserted = FAMILY;
    let family_start = "a".len();
    let inside_family_utf16 = "a👨".encode_utf16().count();

    let outcome = state.replace_and_mark_search_text_in_range(
        None,
        inserted,
        Some(inside_family_utf16..inside_family_utf16),
        &options,
    );

    assert!(outcome.search_changed);
    assert_eq!(state.search(), inserted);
    assert_eq!(state.search_marked_range(), Some(0..inserted.len()));
    assert_eq!(state.search_selected_range(), family_start..family_start);
}

#[test]
fn reversed_search_replacement_range_is_ignored() {
    let options = options();
    let mut state = SelectState::new(None, &options);
    state.open(&options);
    state.replace_search_text_in_range(None, "abc", &options);
    let reversed_start = 3;
    let reversed_end = 1;

    let outcome =
        state.replace_search_text_in_range(Some(reversed_start..reversed_end), "X", &options);

    assert!(!outcome.should_notify());
    assert_eq!(state.search(), "abc");
}

#[test]
fn keyboard_highlight_skips_disabled_options() {
    let options = options();
    let mut state = SelectState::new(None, &options);

    let outcome = state.move_highlight(1, &options);

    assert!(outcome.highlight_changed);
    assert_eq!(state.highlighted_index(), Some(2));
}

#[test]
fn selecting_disabled_option_is_ignored() {
    let options = options();
    let mut state = SelectState::new(None, &options);
    state.open(&options);

    let outcome = state.select_index(1, &options);

    assert!(!outcome.value_changed);
    assert!(state.value().is_none());
    assert!(state.is_open());
}

#[test]
fn duplicate_values_use_first_match_for_display() {
    let options = vec![
        SelectOption::new("same", "First"),
        SelectOption::new("same", "Second"),
    ];
    let state = SelectState::new(Some(String::from("same")), &options);

    assert_eq!(state.selected_index(&options), Some(0));
    assert_eq!(state.selected_label(&options), Some(String::from("First")));
}

#[test]
fn backspace_and_delete_remove_whole_grapheme_clusters() {
    let options = options();
    let mut state = SelectState::new(None, &options);
    state.open(&options);
    state.replace_search_text_in_range(None, FAMILY, &options);

    let outcome = state.delete_search_backward(&options);
    assert!(outcome.search_changed);
    assert_eq!(state.search(), "a👨\u{200d}👩\u{200d}👧\u{200d}👦");

    state.delete_search_backward(&options);
    assert_eq!(state.search(), "a");

    state.move_search_cursor(0);
    state.delete_search_forward(&options);
    assert_eq!(state.search(), "");
    let outcome = state.delete_search_forward(&options);
    assert!(!outcome.search_changed);
}

#[test]
fn trigger_shows_search_then_label_then_placeholders() {
    assert_eq!(
        trigger_text(true, true, "ap", Some("Apple".to_string()), "搜索选项", "请选择"),
        ("ap".to_string(), true)
    );
    assert_eq!(
        trigger_text(true, true, "", Some("Apple".to_string()), "搜索选项", "请选择"),
        ("Apple".to_string(), true)
    );
    assert_eq!(trigger_text(true, true, "", None, "搜索选项", "请选择"), ("搜索选项".to_string(), false));
    assert_eq!(trigger_text(true, false, "ap", None, "搜索选项", "请选择"), ("请选择".to_string(), false));
    assert!(show_clear_button(true, true, false, true));
    assert!(!show_clear_button(false, true, false, true));
    assert!(!show_clear_button(true, true, true, true));
    assert!(search_can_edit(true, true, false));
    assert!(!search_can_edit(true, false, false));
}

#[test]
fn search_text_line_breaks_become_spaces() {
    assert_eq!(normalize_search_text("a\r\nb\nc"), "a  b c");
    assert_eq!(normalize_search_text("plain"), "plain");
    assert_eq!(normalize_search_text(""), "");
}

#[test]
fn utf16_offsets_convert_by_whole_chars() {
    // "é" is 2 UTF-8 bytes and 1 UTF-16 unit; "😀" is 4 bytes and 2 units.
    let text = "aé😀b";
    assert_eq!(offset_from_utf16_in(text, 0), 0);
    assert_eq!(offset_from_utf16_in(text, 1), 1);
    assert_eq!(offset_from_utf16_in(text, 2), 3);
    assert_eq!(offset_from_utf16_in(text, 3), 7);
    assert_eq!(offset_from_utf16_in(text, 4), 7);
    assert_eq!(offset_from_utf16_in(text, 5), 8);
    assert_eq!(offset_from_utf16_in(text, 99), 8);

    assert_eq!(offset_to_utf16_in(text, 0), 0);
    assert_eq!(offset_to_utf16_in(text, 1), 1);
    assert_eq!(offset_to_utf16_in(text, 2), 2);
    assert_eq!(offset_to_utf16_in(text, 3), 2);
    assert_eq!(offset_to_utf16_in(text, 4), 4);
    assert_eq!(offset_to_utf16_in(text, 7), 4);
    assert_eq!(offset_to_utf16_in(text, 8), 5);
    assert_eq!(offset_to_utf16_in(text, 99), 5);

    assert_eq!(range_from_utf16_in(text, &(1..4)), 1..7);
    assert_eq!(range_from_utf16_in(text, &(0..99)), 0..8);
}

#[test]
fn utf16_offsets_round_trip_on_char_boundaries() {
    let text = "aé😀b";
    for boundary in [0usize, 1, 2, 4, 5] {
        let bytes = offset_from_utf16_in(text, boundary);
        assert_eq!(offset_to_utf16_in(text, bytes), boundary);
    }
    // Inside the surrogate pair of "😀" the offset is rounded up to the next boundary.
    assert_eq!(offset_to_utf16_in(text, offset_from_utf16_in(text, 3)), 4);
}

#[test]
fn empty_search_lists_every_option() {
    assert_eq!(filtered_indices_for("", &options()), vec![0, 1, 2, 3]);
}

#[test]
fn highlighted_option_position_in_listed_options() {
    let options = options();
    let mut state = SelectState::new(None, &options);
    state.move_highlight(1, &options);
    assert_eq!(state.highlighted_index(), Some(2));
    assert_eq!(state.highlighted_visible_index(&[0, 2, 3]), Some(1));
    assert_eq!(state.highlighted_visible_index(&[0, 3]), None);
    assert_eq!(state.highlighted_visible_index(&[]), None);
}
