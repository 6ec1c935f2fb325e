use notema_tui::scroll::{scroll_from_thumb_top, scrollbar_position, viewer_scroll};

#[test]
fn render_viewer_scroll_clamps_to_rendered_content_height() {
    assert_eq!(viewer_scroll(100, 20, 8), 12);
    assert_eq!(viewer_scroll(5, 4, 8), 0);
}

#[test]
fn render_viewer_scroll_saturates_large_rendered_content_height() {
    assert_eq!(viewer_scroll(u16::MAX, 100_000, 8), u16::MAX);
}

#[test]
fn render_scrollbar_position_reaches_end_at_viewer_bottom() {
    let line_count = 40;
    let height = 20;
    let scroll = viewer_scroll(u16::MAX, line_count, height);

    assert_eq!(scroll, 20);
    assert_eq!(scrollbar_position(scroll as usize, line_count, height), 39);
}

#[test]
fn render_scrollbar_position_stays_at_start_when_content_fits() {
    assert_eq!(scrollbar_position(0, 4, 8), 0);
}

#[test]
fn tests_viewer_scroll_clamps_to_rendered_content_height() {
    assert_eq!(viewer_scroll(100, 20, 8), 12);
    assert_eq!(viewer_scroll(5, 4, 8), 0);
}

#[test]
fn tests_viewer_scroll_saturates_large_rendered_content_height() {
    assert_eq!(viewer_scroll(u16::MAX, 100_000, 8), u16::MAX);
}

#[test]
fn tests_scrollbar_position_reaches_end_at_viewer_bottom() {
    let line_count = 40;
    let height = 20;
    let scroll = viewer_scroll(u16::MAX, line_count, height);

    assert_eq!(scroll, 20);
    assert_eq!(scrollbar_position(scroll as usize, line_count, height), 39);
}

#[test]
fn tests_scrollbar_position_stays_at_start_when_content_fits() {
    assert_eq!(scrollbar_position(0, 4, 8), 0);
}

#[test]
fn scroll_from_thumb_top_maps_travel_ends_to_scroll_range() {
    // track_top 5, track_len 10, thumb_len 4 → the thumb travels rows 5..=11
    // (travel 6). Top of travel → 0, bottom → max, rows clamp past the ends.
    let (track_top, track_len, thumb_len, max) = (5, 10, 4, 100);
    assert_eq!(
        scroll_from_thumb_top(track_top, track_top, track_len, thumb_len, max),
        0
    );
    assert_eq!(
        scroll_from_thumb_top(0, track_top, track_len, thumb_len, max),
        0
    );
    assert_eq!(
        scroll_from_thumb_top(track_top + 6, track_top, track_len, thumb_len, max),
        max
    );
    assert_eq!(
        scroll_from_thumb_top(u16::MAX, track_top, track_len, thumb_len, max),
        max
    );
}

#[test]
fn scroll_from_thumb_top_handles_untravellable_thumbs() {
    assert_eq!(scroll_from_thumb_top(7, 5, 10, 4, 0), 0); // no overflow
    assert_eq!(scroll_from_thumb_top(7, 5, 4, 4, 100), 0); // thumb fills track
}

#[test]
fn scroll_from_thumb_top_rounds_to_the_nearest_offset() {
    // Travel 6 over a range of 100: halfway (3 rows) lands on 50, one row in on
    // 17 (16.67 rounded).
    assert_eq!(scroll_from_thumb_top(8, 5, 10, 4, 100), 50);
    assert_eq!(scroll_from_thumb_top(6, 5, 10, 4, 100), 17);
}
