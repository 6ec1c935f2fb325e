use notema_tui::dates::{
    entry_day_label, entry_group_date, entry_month_label, parent_folder_name, sticky_month_label,
    CivilDate,
};

#[test]
fn render_entry_group_labels_use_created_timestamp() {
    let created_at = Some("2026-07-01T10:23:00+02:00");
    let path = "work/2026-01-01/id.md";

    assert_eq!(entry_month_label(created_at, path), Some("July 2026".to_string()));
    assert_eq!(entry_day_label(created_at, path), Some("Wednesday 01".to_string()));
}

#[test]
fn entry_group_labels_fall_back_to_date_folder() {
    let path = "work/2026-07-01/id.md";

    assert_eq!(entry_month_label(None, path), Some("July 2026".to_string()));
    assert_eq!(entry_day_label(None, path), Some("Wednesday 01".to_string()));
}

#[test]
fn an_unparsable_timestamp_falls_back_to_the_folder() {
    assert_eq!(
        entry_group_date(Some("yesterday"), "work/2024-02-29/id.md"),
        Some(CivilDate { year: 2024, month: 2, day: 29 })
    );
    assert_eq!(entry_day_label(Some("not a time"), "work/2024-02-29/id.md"), Some("Thursday 29".to_string()));
}

#[test]
fn entries_outside_a_date_folder_have_no_group() {
    assert_eq!(entry_month_label(None, "id.md"), None);
    assert_eq!(entry_month_label(None, "work/notes/id.md"), None);
    assert_eq!(entry_month_label(None, "work/2023-02-29/id.md"), None);
}

#[test]
fn the_folder_name_is_the_next_to_last_component() {
    assert_eq!(parent_folder_name("work/2026-07-01/id.md"), Some("2026-07-01".to_string()));
    assert_eq!(parent_folder_name("/a//b/c.md"), Some("b".to_string()));
    assert_eq!(parent_folder_name("c.md"), None);
}

#[test]
fn the_sticky_month_follows_the_last_divider_above_the_viewport() {
    let sections = vec![
        (0usize, "July 2026".to_string()),
        (10usize, "June 2026".to_string()),
        (25usize, "May 2026".to_string()),
    ];
    assert_eq!(sticky_month_label(&sections, true, 0), Some("July 2026".to_string()));
    assert_eq!(sticky_month_label(&sections, true, 10), Some("July 2026".to_string()));
    assert_eq!(sticky_month_label(&sections, true, 11), Some("June 2026".to_string()));
    assert_eq!(sticky_month_label(&sections, true, 100), Some("May 2026".to_string()));
    assert_eq!(sticky_month_label(&sections, false, 100), None);
    assert_eq!(sticky_month_label(&[], true, 3), None);
}

#[test]
fn entry_group_labels_come_from_one_day() {
    let group = notema_tui::dates::entry_group(None, "work/2026-01-01/id.md").unwrap();
    assert_eq!((group.date.year, group.date.month, group.date.day), (2026, 1, 1));
    assert_eq!(group.month_label, "January 2026");
    assert_eq!(group.day_label, "Thursday 01");

    // 08:23 UTC stays on 1 July for every offset from -08:23 to +15:36.
    let group = notema_tui::dates::entry_group(Some("2026-07-01T10:23:00+02:00"), "work/2026-01-01/id.md").unwrap();
    assert_eq!(group.month_label, "July 2026");
    assert_eq!(group.day_label, "Wednesday 01");
    assert!(notema_tui::dates::entry_group(None, "id.md").is_none());
}
