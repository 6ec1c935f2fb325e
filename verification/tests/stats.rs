use notema_tui::dates::CivilDate;
use notema_tui::geometry::Rect;
use notema_tui::stats::{active_day_count, centered_fixed_rect, journal_stats, journal_year_range};

fn day(year: i32, month: u32, day: u32) -> Option<CivilDate> {
    Some(CivilDate { year, month, day })
}

#[test]
fn active_days_count_each_calendar_day_once() {
    let dates = vec![day(2026, 7, 1), day(2026, 7, 1), None, day(2025, 12, 31), day(2026, 7, 2)];
    assert_eq!(active_day_count(&dates), 3);
}

#[test]
fn no_dated_entries_means_no_active_days() {
    assert_eq!(active_day_count(&vec![None, None]), 0);
    assert_eq!(active_day_count(&vec![]), 0);
}

#[test]
fn year_range_is_a_single_year_when_oldest_and_newest_share_it() {
    let dates = vec![day(2024, 3, 1), day(2024, 11, 9)];
    assert_eq!(journal_year_range(&dates), Some("2024".to_string()));
}

#[test]
fn year_range_spans_oldest_to_newest() {
    let dates = vec![day(2025, 1, 1), None, day(2023, 6, 30), day(2026, 2, 2), day(2024, 5, 5)];
    assert_eq!(journal_year_range(&dates), Some("2023-2026".to_string()));
}

#[test]
fn year_range_needs_a_dated_entry() {
    assert_eq!(journal_year_range(&vec![None]), None);
}

#[test]
fn stats_of_the_selected_journal() {
    let dates = vec![day(2026, 7, 1), day(2026, 7, 1), None];
    let stats = journal_stats(Some("work"), &dates).unwrap();
    assert_eq!(stats.name, "work");
    assert_eq!(stats.entry_count, 3);
    assert_eq!(stats.active_days, 1);
    assert_eq!(stats.year_range, "2026");
}

#[test]
fn stats_without_dates_say_so() {
    let stats = journal_stats(Some("empty"), &vec![None]).unwrap();
    assert_eq!(stats.year_range, "No dated entries");
    assert_eq!(stats.active_days, 0);
}

#[test]
fn no_stats_without_a_selected_journal() {
    assert!(journal_stats(None, &vec![day(2026, 1, 1)]).is_none());
}

#[test]
fn fixed_rect_is_centred_and_capped() {
    assert_eq!(centered_fixed_rect(Rect::new(0, 0, 100, 30), 60, 14), Rect::new(20, 8, 60, 14));
    assert_eq!(centered_fixed_rect(Rect::new(5, 2, 40, 10), 60, 14), Rect::new(5, 2, 40, 10));
    assert_eq!(centered_fixed_rect(Rect::new(1, 1, 61, 15), 60, 14), Rect::new(1, 1, 60, 14));
}

#[test]
fn stats_cards_stack_identity_over_metrics() {
    let layout = notema_tui::stats::centered_stats_layout(Rect::new(0, 0, 100, 30));
    assert_eq!(layout.identity, Rect::new(20, 8, 60, 6));
    assert_eq!(layout.entries.y, 14);
    assert_eq!(layout.days.y, 14);
    assert_eq!(layout.entries.x, 20);
    assert!(layout.days.x + layout.days.width <= 80);
}
