use notema_tui::tables::{dialog_widths, max_chip_width, pad_display, section_width};

#[test]
fn dialog_columns_fit_their_widest_cell_and_header() {
    let headers = ["Key", "Action"];
    let rows = vec![
        vec!["ctrl+s".to_string(), "save".to_string()],
        vec![String::new(), "continue".to_string()],
    ];
    // The key column counts the chip's two blanks: 6 + 2.
    assert_eq!(dialog_widths(&headers, &rows, 0), vec![8, 8]);
    // Without a key column, the header wins where it is wider.
    assert_eq!(dialog_widths(&headers, &rows, 5), vec![6, 8]);
}

#[test]
fn cells_pad_to_the_column_width() {
    assert_eq!(pad_display("ab", 5), "ab   ");
    assert_eq!(pad_display("abcdef", 3), "abcdef");
    assert_eq!(pad_display("漢", 4), "漢  ");
}

#[test]
fn shortcut_sections_align_actions_after_the_widest_chip() {
    let items = [("ctrl+s", "save"), ("q", "quit the editor")];
    assert_eq!(max_chip_width(&items), 8);
    assert_eq!(section_width(&items), 8 + 2 + 15);
    assert_eq!(max_chip_width(&[]), 0);
}
