use notema_tui::chrome::{card_width, countdown_cols, dialog_frame_rows, list_highlight_symbol, ChromeStyle};
use notema_tui::geometry::Rect;
use notema_tui::hit_test::{entry_index_at, journal_index_at, EntryListGeometry, PanelGeometry, RowMeta};
use notema_tui::menus::{balanced_splits, column_span};
use notema_tui::tables::count_label;

#[test]
fn balanced_columns_keep_the_tallest_column_short() {
    // Sections of 5, 1, 1, 4 rows in two columns: cutting after the first
    // gives 5 | 1 + 1 + 4 plus two separator rows = 8; after the second, 5 + 1 + 1 = 7 | 4.
    let sizes = [5usize, 1, 1, 4];
    let bounds = balanced_splits(&sizes, 2);
    assert_eq!(bounds, vec![2, 4]);
    assert_eq!(column_span(&sizes, &bounds), 7);
    assert_eq!(balanced_splits(&sizes, 9), vec![1, 2, 3, 4]);
    assert_eq!(balanced_splits(&[], 3), vec![0]);
}

#[test]
fn count_labels_agree_in_number() {
    assert_eq!(count_label(1, "entry", "entries"), "1 entry");
    assert_eq!(count_label(0, "entry", "entries"), "0 entries");
    assert_eq!(count_label(3, "journal", "journals"), "3 journals");
}

#[test]
fn chrome_constants_follow_the_style() {
    assert_eq!(list_highlight_symbol(ChromeStyle::Flat), "● ");
    assert_eq!(list_highlight_symbol(ChromeStyle::Bordered), ">");
    assert_eq!(dialog_frame_rows(ChromeStyle::Flat), 4);
    assert_eq!(dialog_frame_rows(ChromeStyle::Bordered), 2);
    assert_eq!(card_width(120), 44);
    assert_eq!(card_width(30), 24);
    assert_eq!(countdown_cols(120), 40);
    assert_eq!(countdown_cols(8), 0);
}

fn rows() -> Vec<RowMeta> {
    vec![
        RowMeta { height: 1, item_index: None },
        RowMeta { height: 3, item_index: Some(0) },
        RowMeta { height: 1, item_index: None },
        RowMeta { height: 3, item_index: Some(1) },
    ]
}

#[test]
fn entry_hit_testing_skips_dividers_and_maps_boxed_entries() {
    let geometry = EntryListGeometry { panel: PanelGeometry { content: Rect::new(10, 2, 30, 8) } };
    assert_eq!(entry_index_at(geometry, 12, 2, 0, &rows()), None);
    assert_eq!(entry_index_at(geometry, 12, 3, 0, &rows()), Some(0));
    assert_eq!(entry_index_at(geometry, 12, 5, 0, &rows()), Some(0));
    assert_eq!(entry_index_at(geometry, 12, 6, 0, &rows()), None);
    assert_eq!(entry_index_at(geometry, 12, 7, 0, &rows()), Some(1));
    // Scrolled by four rows, the top row is the second divider.
    assert_eq!(entry_index_at(geometry, 12, 2, 4, &rows()), None);
    assert_eq!(entry_index_at(geometry, 12, 3, 4, &rows()), Some(1));
    // Outside the list.
    assert_eq!(entry_index_at(geometry, 9, 3, 0, &rows()), None);
}

#[test]
fn journal_hit_testing_starts_below_the_first_content_row() {
    let content = Rect::new(0, 0, 16, 10);
    assert_eq!(journal_index_at(content, 2, 0, 0, &rows()), None);
    assert_eq!(journal_index_at(content, 2, 1, 0, &rows()), None);
    assert_eq!(journal_index_at(content, 2, 2, 0, &rows()), Some(0));
}

#[test]
fn balanced_splits_beats_every_other_split_of_the_same_count() {
    let sizes = [3usize, 1, 1, 3];
    let bounds = balanced_splits(&sizes, 2);
    assert_eq!(bounds, vec![2, 4]);
    for other in [vec![1usize, 4], vec![2, 4], vec![3, 4]] {
        assert!(column_span(&sizes, &bounds) <= column_span(&sizes, &other));
    }
}
