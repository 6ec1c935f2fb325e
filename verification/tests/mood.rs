use notema_tui::mood::{mood_row_layout, MoodBar, MoodCell};

use MoodCell::{Center, Filled, Track, ZeroMark};

#[test]
fn a_zero_mood_marks_the_center_and_fills_nothing() {
    assert_eq!(
        MoodBar::new(0).cells(7),
        vec![Track, Track, Track, ZeroMark, Track, Track, Track]
    );
}

#[test]
fn a_full_negative_mood_fills_the_whole_left_side() {
    let cells = MoodBar::new(-5).cells(11);
    assert_eq!(&cells[..5], &[Filled; 5]);
    assert_eq!(cells[5], Center);
    assert_eq!(&cells[6..], &[Track; 5]);
}

#[test]
fn a_positive_mood_fills_outward_from_the_center() {
    let cells = MoodBar::new(2).cells(11);
    assert_eq!(
        cells,
        vec![Track, Track, Track, Track, Track, Center, Filled, Filled, Track, Track, Track]
    );
}

#[test]
fn any_nonzero_mood_shows_at_least_one_cell() {
    // 1 * 2 / 5 rounds to zero, but the mood still shows.
    assert_eq!(MoodBar::new(1).cells(5), vec![Track, Track, Center, Filled, Track]);
    assert_eq!(MoodBar::new(-1).cells(5), vec![Track, Filled, Center, Track, Track]);
}

#[test]
fn bars_narrower_than_three_cells_draw_nothing() {
    assert!(MoodBar::new(3).cells(2).is_empty());
}

#[test]
fn the_pole_labels_need_room_for_a_four_cell_bar() {
    assert_eq!(mood_row_layout(40), (true, 21));
    assert_eq!(mood_row_layout(23), (true, 4));
    assert_eq!(mood_row_layout(22), (false, 22));
}
