use notema_tui::signed_columns::signed_columns_layout;

#[test]
fn wide_strips_get_gaps_and_the_first_columns_take_the_spare_cells() {
    let l = signed_columns_layout(20, 10, 4).unwrap();
    assert_eq!((l.edge, l.gap), (0, 1));
    assert_eq!(l.widths, vec![5, 4, 4, 4]);
    assert_eq!((l.up_rows, l.down_rows, l.baseline_row, l.label_row), (4, 4, 4, 9));
}

#[test]
fn narrow_strips_drop_the_gaps() {
    let l = signed_columns_layout(5, 3, 4).unwrap();
    assert_eq!(l.gap, 0);
    assert_eq!(l.widths, vec![2, 1, 1, 1]);
    assert_eq!((l.up_rows, l.down_rows, l.baseline_row, l.label_row), (0, 1, 0, 2));
}

#[test]
fn empty_charts_draw_nothing() {
    assert!(signed_columns_layout(0, 10, 4).is_none());
    assert!(signed_columns_layout(20, 1, 4).is_none());
    assert!(signed_columns_layout(20, 10, 0).is_none());
}
