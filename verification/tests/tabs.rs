use notema_tui::chrome::ChromeStyle;
use notema_tui::geometry::Rect;
use notema_tui::tabs::{
    insights_tab_at, strip_leading, strip_level, strip_width, tab_label, tab_strip_segments,
    StripLevel, TabLabels,
};

const FULL: [&str; 4] = ["Overview", "Writing", "Mood / Feelings", "Drivers"];
const SHORT: [&str; 4] = ["Over", "Write", "Mood", "Drive"];
const INITIAL: [&str; 4] = ["O", "W", "M", "D"];

fn labels() -> TabLabels<'static> {
    TabLabels { full: &FULL, short: &SHORT, initial: &INITIAL }
}

#[test]
fn the_strip_indents_two_cells_on_flat_chrome() {
    assert_eq!(strip_leading(ChromeStyle::Flat), 2);
    assert_eq!(strip_leading(ChromeStyle::Bordered), 1);
}

#[test]
fn strip_width_counts_labels_separators_and_the_leading_space() {
    // 1 + (8 + 7 + 15 + 7) + 3 separators of 3.
    assert_eq!(strip_width(ChromeStyle::Bordered, &FULL), 47);
    assert_eq!(strip_width(ChromeStyle::Flat, &INITIAL), 2 + 4 + 9);
}

#[test]
fn the_strip_falls_back_to_shorter_labels() {
    let labels = labels();
    assert_eq!(strip_level(ChromeStyle::Bordered, &labels, 47), StripLevel::Full);
    assert_eq!(strip_level(ChromeStyle::Bordered, &labels, 46), StripLevel::Short);
    assert_eq!(strip_level(ChromeStyle::Bordered, &labels, 10), StripLevel::Initial);
    assert_eq!(tab_label(ChromeStyle::Bordered, &labels, 2, 80), "Mood / Feelings");
    assert_eq!(tab_label(ChromeStyle::Bordered, &labels, 2, 30), "Mood");
    assert_eq!(tab_label(ChromeStyle::Bordered, &labels, 2, 5), "M");
}

#[test]
fn segments_leave_the_separators_between_labels() {
    assert_eq!(
        tab_strip_segments(ChromeStyle::Bordered, &labels(), 60),
        vec![(1, 9), (12, 19), (22, 37), (40, 47)]
    );
}

#[test]
fn clicks_on_the_top_border_hit_the_label_under_them() {
    let area = Rect::new(10, 4, 62, 20);
    let labels = labels();
    // The title starts one cell right of the corner: "Overview" spans 12..20.
    assert_eq!(insights_tab_at(ChromeStyle::Bordered, &labels, area, 12, 4), Some(0));
    assert_eq!(insights_tab_at(ChromeStyle::Bordered, &labels, area, 19, 4), Some(0));
    assert_eq!(insights_tab_at(ChromeStyle::Bordered, &labels, area, 20, 4), None);
    assert_eq!(insights_tab_at(ChromeStyle::Bordered, &labels, area, 23, 4), Some(1));
    assert_eq!(insights_tab_at(ChromeStyle::Bordered, &labels, area, 51, 4), Some(3));
    assert_eq!(insights_tab_at(ChromeStyle::Bordered, &labels, area, 12, 5), None);
}
