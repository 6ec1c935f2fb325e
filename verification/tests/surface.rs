use notema_tui::geometry::Rect;
use notema_tui::surface::{
    feelings_selected_rows, location_list_row_at, location_row_lines, location_wrapped_lines,
    metadata_value_rows,
};
use unicode_width::UnicodeWidthStr;
use notema_tui::wrap::wrap_text;

#[test]
fn location_wrapped_lines_break_a_long_label_flush_left() {
    let label = "Cafe Central - Main Street, Inner City, 1010 Vienna, Austria";
    let lines = location_wrapped_lines(10, 30, label);

    assert!(lines.len() >= 2, "long label should wrap: {lines:?}");
    // First line leaves room for the 10-cell "Location: " prefix; the rest use
    // the full width. No continuation line starts with a leading space.
    assert!(lines[0].width() <= 20);
    for line in &lines[1..] {
        assert!(line.width() <= 30);
        assert!(!line.starts_with(' '));
    }
}

#[test]
fn metadata_rows_wrap_without_leading_separator() {
    let values = vec![
        "calm".to_string(),
        "focused".to_string(),
        "tired".to_string(),
    ];

    let rows = metadata_value_rows("Feelings: ".len() as u16, 20, &values);

    assert_eq!(rows, vec![vec![0], vec![1, 2]]);
}

#[test]
fn location_wrapped_lines_keep_every_word_in_order() {
    let lines = location_wrapped_lines(10, 30, "Grand Central Station Cafe");
    assert_eq!(lines, vec!["Grand Central".to_string(), "Station Cafe".to_string()]);
}

#[test]
fn metadata_rows_are_empty_without_values() {
    assert!(metadata_value_rows(10, 40, &[]).is_empty());
    assert!(feelings_selected_rows(&[], 40).is_empty());
}

#[test]
fn a_value_wider_than_the_row_still_gets_a_row_of_its_own() {
    let values = vec!["a-very-long-feeling-name".to_string(), "ok".to_string()];
    assert_eq!(metadata_value_rows(10, 12, &values), vec![vec![0], vec![1]]);
}

#[test]
fn feelings_rows_reserve_the_selected_label() {
    // "Selected: " takes 10 of 20 columns: "calm | sad" (10) still fits.
    let values = vec!["calm".to_string(), "sad".to_string(), "tired".to_string()];
    assert_eq!(feelings_selected_rows(&values, 20), vec![vec![0, 1], vec![2]]);
}

#[test]
fn location_rows_wrap_and_cap_at_three_lines() {
    assert_eq!(location_row_lines("", 20), vec![String::new()]);
    assert_eq!(
        location_row_lines("one two three four", 3),
        vec!["one".to_string(), "two".to_string(), "three".to_string()]
    );
}

#[test]
fn wrap_text_fills_greedily_and_drops_extra_separators() {
    assert_eq!(
        wrap_text("  Enter your passphrase   to unlock ", 16, 4),
        vec!["Enter your".to_string(), "passphrase to".to_string(), "unlock".to_string()]
    );
    assert_eq!(wrap_text("a b c", 10, 0), Vec::<String>::new());
}

#[test]
fn clicks_on_wrapped_location_rows_map_to_their_label() {
    let labels = vec![
        "Cafe".to_string(),
        "Grand Central Station Cafe".to_string(),
        "Home".to_string(),
    ];
    let list = Rect::new(0, 5, 10, 6);
    assert_eq!(location_list_row_at(list, &labels, 0, 4), None);
    assert_eq!(location_list_row_at(list, &labels, 0, 5), Some(0));
    assert_eq!(location_list_row_at(list, &labels, 0, 6), Some(1));
    assert_eq!(location_list_row_at(list, &labels, 0, 8), Some(1));
    assert_eq!(location_list_row_at(list, &labels, 0, 9), Some(2));
    assert_eq!(location_list_row_at(list, &labels, 0, 10), None);
    assert_eq!(location_list_row_at(list, &labels, 1, 5), Some(1));
    assert_eq!(location_list_row_at(list, &labels, 1, 8), Some(2));
}

#[test]
fn location_list_row_at_maps_wrapped_rows() {
    let long = "Some very long place name that keeps going ".repeat(3);
    let labels = vec!["First".to_string(), long.clone(), "Third".to_string()];
    let list_width = 66 - 4;
    let l0 = location_row_lines(&labels[0], list_width).len();
    let l1 = location_row_lines(&labels[1], list_width).len();
    assert!(l1 > 1, "long label should wrap onto multiple lines");

    let list = Rect {
        x: 0,
        y: 10,
        width: list_width,
        height: 40,
    };

    // First label's opening line.
    assert_eq!(location_list_row_at(list, &labels, 0, 10), Some(0));
    // Any continuation line of the wrapped label still maps to it.
    let last_of_second = 10 + (l0 + l1 - 1) as u16;
    assert_eq!(
        location_list_row_at(list, &labels, 0, last_of_second),
        Some(1)
    );
    // The third label starts right after the wrapped one.
    let third_start = 10 + (l0 + l1) as u16;
    assert_eq!(location_list_row_at(list, &labels, 0, third_start), Some(2));
    // A click past the last rendered row misses.
    let past = third_start + location_row_lines(&labels[2], list_width).len() as u16;
    assert_eq!(location_list_row_at(list, &labels, 0, past), None);
    // Scrolled: the first visible row is the label at `offset`.
    assert_eq!(location_list_row_at(list, &labels, 1, 10), Some(1));
}
