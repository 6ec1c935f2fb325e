use notema_tui::md_table::{cell_padding, table_layout, ColumnAlign, TableLayout};

fn grid(layout: TableLayout) -> Vec<usize> {
    match layout {
        TableLayout::Grid(widths) => widths,
        other => panic!("expected a grid, got {other:?}"),
    }
}

#[test]
fn right_aligned_cells_pad_on_the_left() {
    assert_eq!(cell_padding(5, 3, ColumnAlign::Right), (2, 0));
}

#[test]
fn centred_cells_put_the_odd_cell_on_the_right() {
    assert_eq!(cell_padding(7, 2, ColumnAlign::Center), (2, 3));
}

#[test]
fn other_cells_pad_on_the_right() {
    assert_eq!(cell_padding(7, 2, ColumnAlign::Left), (0, 5));
    assert_eq!(cell_padding(7, 2, ColumnAlign::Unset), (0, 5));
    assert_eq!(cell_padding(2, 7, ColumnAlign::Unset), (0, 0));
}

#[test]
fn a_table_without_cells_draws_nothing() {
    assert!(matches!(table_layout(&vec![], 80, 0), TableLayout::Empty));
    assert!(matches!(table_layout(&vec![vec![], vec![]], 80, 0), TableLayout::Empty));
}

#[test]
fn a_wide_panel_gives_each_column_its_widest_cell() {
    let cells = vec![vec![5, 10], vec![3, 4]];
    assert_eq!(grid(table_layout(&cells, 40, 0)), vec![5, 10]);
}

#[test]
fn empty_cells_still_get_one_column() {
    let cells = vec![vec![0, 4], vec![0]];
    assert_eq!(grid(table_layout(&cells, 40, 0)), vec![1, 4]);
}

#[test]
fn a_tight_panel_shrinks_the_widest_column_first() {
    let cells = vec![vec![5, 10], vec![3, 4]];
    assert_eq!(grid(table_layout(&cells, 20, 0)), vec![5, 8]);
}

#[test]
fn equal_columns_give_up_cells_from_the_right() {
    assert_eq!(grid(table_layout(&vec![vec![6, 6]], 18, 0)), vec![6, 5]);
    assert_eq!(grid(table_layout(&vec![vec![3, 3, 3]], 14, 0)), vec![2, 1, 1]);
}

#[test]
fn the_container_prefix_takes_room_from_the_table() {
    let cells = vec![vec![5, 10]];
    assert_eq!(grid(table_layout(&cells, 22, 2)), vec![5, 8]);
}

#[test]
fn a_table_too_narrow_for_its_borders_is_stacked() {
    assert!(matches!(table_layout(&vec![vec![5, 10]], 9, 0), TableLayout::Stacked));
    assert!(matches!(table_layout(&vec![vec![5, 10]], 30, 25), TableLayout::Stacked));
}
