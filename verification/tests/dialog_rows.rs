use notema_tui::dialog_rows::{
    dialog_list_scroll, feelings_dialog_items, location_dialog_rows, row_hovered, shown_selection, FeelingGroup,
    FeelingRow,
};

fn joy() -> Vec<FeelingGroup> {
    vec![FeelingGroup { name: "Joy".to_string(), feelings: vec!["happy".to_string(), "calm".to_string()] }]
}

#[test]
fn dialog_lists_scroll_no_further_than_the_last_row() {
    assert_eq!(dialog_list_scroll(10, 12, 5), 7);
    assert_eq!(dialog_list_scroll(3, 12, 5), 3);
    assert_eq!(dialog_list_scroll(3, 2, 5), 0);
}

#[test]
fn the_selected_row_lifts_on_hover_only_while_its_highlight_is_hidden() {
    assert!(!row_hovered(2, Some(2), Some(2), true));
    assert!(row_hovered(2, Some(2), Some(2), false));
    assert!(row_hovered(1, Some(1), Some(2), true));
    assert!(!row_hovered(1, None, None, true));
    assert_eq!(shown_selection(Some(5), 3, 4, true), Some(5));
    assert_eq!(shown_selection(Some(7), 3, 4, true), None);
    assert_eq!(shown_selection(Some(5), 3, 4, false), None);
}

#[test]
fn feeling_rows_show_headers_and_check_boxes() {
    let rows = vec![
        FeelingRow::Header { group: 0 },
        FeelingRow::Feeling { group: 0, feeling: 0 },
        FeelingRow::Feeling { group: 0, feeling: 1 },
    ];
    let selected = vec!["happy".to_string()];
    assert_eq!(
        feelings_dialog_items(&rows, &joy(), &vec![true], &vec![1], &selected, false),
        ["Joy (1) ▾", "   [x] happy", "   [ ] calm"]
    );
    assert_eq!(
        feelings_dialog_items(&rows[1..].to_vec(), &joy(), &vec![false], &vec![1], &selected, true),
        ["[x] happy  (Joy)", "[ ] calm  (Joy)"]
    );
    assert_eq!(
        feelings_dialog_items(&vec![FeelingRow::Header { group: 0 }], &joy(), &vec![false], &vec![0], &vec![], false),
        ["Joy ▸"]
    );
    assert_eq!(feelings_dialog_items(&vec![], &joy(), &vec![true], &vec![0], &vec![], false), ["(no matches)"]);
}

#[test]
fn location_rows_wrap_or_say_what_is_missing() {
    assert_eq!(location_dialog_rows(&vec![], 20, true), vec![vec!["(no matches)".to_string()]]);
    assert_eq!(location_dialog_rows(&vec![], 20, false), vec![vec!["(no saved places yet)".to_string()]]);
    assert_eq!(location_dialog_rows(&vec!["Home".to_string()], 20, false), vec![vec!["Home".to_string()]]);
}
