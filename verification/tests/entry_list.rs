use notema_tui::entry_list::{entry_list_text, entry_row_text, entry_rows, EntryRow};

fn label(text: &str) -> Option<String> {
    Some(text.to_string())
}

fn describe(rows: &[EntryRow]) -> Vec<String> {
    rows.iter()
        .map(|row| match row {
            EntryRow::Month(m) => format!("month {m}"),
            EntryRow::Day(d) => format!("day {d}"),
            EntryRow::Entry(i) => format!("entry {i}"),
        })
        .collect()
}

#[test]
fn months_and_days_head_their_entries() {
    let labels = vec![
        (label("July 2026"), label("Wednesday 01")),
        (label("July 2026"), label("Wednesday 01")),
        (label("July 2026"), label("Thursday 02")),
        (label("June 2026"), label("Monday 01")),
        (None, None),
    ];
    assert_eq!(
        describe(&entry_rows(&labels)),
        [
            "month July 2026",
            "day Wednesday 01",
            "entry 0",
            "entry 1",
            "day Thursday 02",
            "entry 2",
            "month June 2026",
            "day Monday 01",
            "entry 3",
            "entry 4",
        ]
    );
}

#[test]
fn a_new_month_repeats_the_same_day_name() {
    let labels = vec![
        (label("July 2026"), label("Monday 01")),
        (label("June 2026"), label("Monday 01")),
    ];
    assert_eq!(
        describe(&entry_rows(&labels)),
        ["month July 2026", "day Monday 01", "entry 0", "month June 2026", "day Monday 01", "entry 1"]
    );
}

#[test]
fn no_entries_no_rows() {
    assert!(entry_rows(&vec![]).is_empty());
}

#[test]
fn entry_list_lines_use_time_gutter_and_content() {
    assert_eq!(
        entry_list_text(Some("10:23"), "Title", "Preview"),
        ["10:23  Title", "       Preview"]
    );
}

#[test]
fn an_entry_without_time_keeps_the_gutter_blank() {
    assert_eq!(entry_list_text(None, "Title", ""), ["       Title"]);
}

#[test]
fn a_short_time_is_padded_to_the_gutter() {
    assert_eq!(entry_list_text(Some("9:05"), "T", ""), ["9:05   T"]);
}

#[test]
fn a_timestamped_entry_shows_its_local_time() {
    let lines = entry_row_text(Some("2026-07-01T10:23:00+02:00"), "Title", "Preview");
    assert_eq!(lines.len(), 2);
    let first: Vec<char> = lines[0].chars().collect();
    assert_eq!(first.len(), 12);
    assert!(first[0].is_ascii_digit() && first[1].is_ascii_digit());
    assert_eq!(first[2], ':');
    assert!(first[3].is_ascii_digit() && first[4].is_ascii_digit());
    assert!(lines[0].ends_with("  Title"));
    assert_eq!(lines[1], "       Preview");
}

#[test]
fn a_bad_timestamp_leaves_the_gutter_blank() {
    assert_eq!(entry_row_text(Some("yesterday"), "Title", ""), ["       Title"]);
    assert_eq!(entry_row_text(None, "Title", ""), ["       Title"]);
}
