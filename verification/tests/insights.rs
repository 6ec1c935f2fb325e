use notema_tui::geometry::Rect;
use notema_tui::insights::{
    bin, center_truncate_checked, columns_for, grid, hour_bins, is_short, list_regions, stack,
    visible_range, Columns, Section,
};

#[test]
fn scroll_clamps_to_the_last_page() {
    // 100 rows, a 10-row window: a huge requested offset lands on the last page.
    let mut scroll = u16::MAX;
    let range = visible_range(100, 10, &mut scroll);
    assert_eq!(range, 90..100);
    assert_eq!(scroll, 90);
}

#[test]
fn a_short_list_shows_from_the_top() {
    let mut scroll = 7;
    assert_eq!(visible_range(4, 10, &mut scroll), 0..4);
    assert_eq!(scroll, 0);
}

#[test]
fn binning_sums_groups_and_keeps_the_total() {
    let hours: Vec<usize> = (0..24).collect();
    let bins = bin(&hours, 8);
    assert_eq!(bins, vec![3, 12, 21, 30, 39, 48, 57, 66]);
    assert_eq!(bins.iter().sum::<usize>(), hours.iter().sum::<usize>());
    assert_eq!(bin(&[1, 2, 3], 0), vec![1, 2, 3]);
}

#[test]
fn hour_histograms_coarsen_on_narrow_panels() {
    assert_eq!(hour_bins(60), 24);
    assert_eq!(hour_bins(30), 12);
    assert_eq!(hour_bins(10), 8);
}

#[test]
fn columns_tile_the_panel_width() {
    for panel in [49usize, 64, 65, 96, 140] {
        let columns = Columns::fit(panel).expect("wide enough for the table");
        let inner: usize = columns.widths().iter().map(|w| w + 3).sum::<usize>() + 1;
        assert_eq!(inner, panel, "columns should tile the panel width");
    }
    assert!(Columns::fit(48).is_none());
    assert!(Columns::fit(18).is_none());
}

#[test]
fn centering_pads_both_sides() {
    assert_eq!(center_truncate_checked("abc", 7), Some("  abc  ".to_string()));
    assert_eq!(center_truncate_checked("abcdef", 4), Some("abcd".to_string()));
    assert_eq!(center_truncate_checked("漢字", 3), None);
}

#[test]
fn stacking_shares_leftover_rows_and_drops_what_does_not_fit() {
    let area = Rect::new(2, 4, 30, 10);
    let sections = [
        Section::new(3, 1),
        Section::new(2, 0),
        Section::new(4, 2),
        Section::new(5, 1),
    ];
    assert_eq!(
        stack(area, &sections),
        vec![
            Some(Rect::new(2, 4, 30, 3)),
            Some(Rect::new(2, 7, 30, 2)),
            Some(Rect::new(2, 9, 30, 5)),
            None,
        ]
    );
}

#[test]
fn stacking_without_fill_keeps_the_minimums() {
    let area = Rect::new(0, 0, 10, 10);
    let sections = [Section::new(2, 0), Section::new(3, 0)];
    assert_eq!(
        stack(area, &sections),
        vec![Some(Rect::new(0, 0, 10, 2)), Some(Rect::new(0, 2, 10, 3))]
    );
}

#[test]
fn the_last_filling_section_takes_the_rounding_remainder() {
    let area = Rect::new(0, 0, 10, 20);
    let sections = [Section::new(2, 1), Section::new(2, 1), Section::new(2, 1)];
    // 14 extra rows over weight 3: 4, 4, then the remaining 6.
    let rects = stack(area, &sections);
    let heights: Vec<u16> = rects.iter().map(|r| r.unwrap().height).collect();
    assert_eq!(heights, vec![6, 6, 8]);
    assert_eq!(heights.iter().sum::<u16>(), 20);
}

#[test]
fn stack_drops_trailing_sections_that_do_not_fit_and_fills_height() {
    // Only the first two of three min-4 sections fit in 9 rows; the filling
    // section absorbs the leftover so the area is fully used.
    let slots = stack(
        Rect::new(0, 0, 20, 9),
        &[Section::new(4, 1), Section::new(4, 1), Section::new(4, 0)],
    );
    assert!(slots[0].is_some());
    assert!(slots[1].is_some());
    assert!(slots[2].is_none());
    let total: u16 = slots.iter().flatten().map(|rect| rect.height).sum();
    assert_eq!(total, 9);
}

fn rect(width: u16, height: u16) -> Rect {
    Rect::new(0, 0, width, height)
}

#[test]
fn columns_scale_with_width() {
    assert_eq!(columns_for(rect(40, 20)), 1);
    assert_eq!(columns_for(rect(60, 20)), 2);
    assert_eq!(columns_for(rect(100, 20)), 3);
}

#[test]
fn short_area_is_flagged() {
    assert!(is_short(rect(80, 6)));
    assert!(!is_short(rect(80, 20)));
}

#[test]
fn overflowing_lists_end_in_a_more_note() {
    let area = Rect::new(3, 2, 30, 5);
    assert_eq!(list_regions(area, 4), (area, 4, None));
    assert_eq!(
        list_regions(area, 12),
        (Rect::new(3, 2, 30, 4), 4, Some((Rect::new(3, 6, 30, 1), "+8 more".to_string())))
    );
}

#[test]
fn an_even_grid_splits_rows_then_columns() {
    assert_eq!(
        grid(Rect::new(0, 0, 90, 10), 3, 1),
        vec![Rect::new(0, 0, 30, 10), Rect::new(30, 0, 30, 10), Rect::new(60, 0, 30, 10)]
    );
    assert_eq!(grid(Rect::new(0, 0, 10, 10), 1, 2), vec![Rect::new(0, 0, 10, 5), Rect::new(0, 5, 10, 5)]);
    assert!(grid(Rect::new(0, 0, 10, 10), 0, 2).is_empty());
    assert!(grid(Rect::new(0, 0, 10, 10), 2, 0).is_empty());
}

#[test]
fn binning_gives_exactly_the_asked_number_of_bins() {
    assert_eq!(bin(&[1; 24], 12), vec![2; 12]);
    assert_eq!(bin(&[1; 24], 8), vec![3; 8]);
    assert_eq!(bin(&[1, 2, 3, 4], 3), vec![3, 3, 4]);
    assert_eq!(bin(&[5, 0, 1, 1, 2], 2), vec![6, 3]);
    assert_eq!(bin(&[1, 2], 2), vec![1, 2]);
}
