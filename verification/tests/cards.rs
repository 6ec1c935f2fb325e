use notema_tui::cards::entry_box_lines;
use notema_tui::chrome::ChromeStyle;

#[test]
fn entry_box_lines_without_timestamp_render_plain_top_border() {
    let rendered = entry_box_lines(None, "", "just a preview", None, None, 30, ChromeStyle::Bordered);

    assert_eq!(rendered[0], format!("┌{}┐", "─".repeat(32)));
    assert!(rendered[1].starts_with("│ just a preview"));
}

#[test]
fn search_hit_box_shows_date_time_and_journal() {
    let rendered = entry_box_lines(
        Some("Sun 05 Jul 2026"),
        "14:30",
        "hit body",
        Some("work"),
        None,
        30,
        ChromeStyle::Bordered,
    );

    assert!(rendered[0].starts_with("┌ Sun 05 Jul 2026 "));
    assert!(rendered[0].ends_with("14:30 ┐"));
    assert!(rendered[1].starts_with("│ hit body"));
    // Journal on the bottom-left.
    assert!(rendered.last().unwrap().starts_with("└ work "));
}

#[test]
fn search_hit_box_flags_archived_journal_bottom_right() {
    let rendered = entry_box_lines(
        Some("Sun 05 Jul 2026"),
        "14:30",
        "hit body",
        Some("personal"),
        Some("Archived"),
        40,
        ChromeStyle::Bordered,
    );
    let bottom = rendered.last().unwrap();
    // Journal display name on the left, the `Archived` flag on the right.
    assert!(bottom.starts_with("└ personal "));
    assert!(bottom.ends_with("Archived ┘"));
}

#[test]
fn entry_cards_embed_the_border_labels_inside_padding() {
    let flat = entry_box_lines(
        Some("Sunday 05"),
        "14:30",
        "hello world",
        Some("2 words ★"),
        Some("Archived"),
        40,
        ChromeStyle::Flat,
    );
    let bordered = entry_box_lines(
        Some("Sunday 05"),
        "14:30",
        "hello world",
        Some("2 words ★"),
        Some("Archived"),
        40,
        ChromeStyle::Bordered,
    );

    // The flat card pads one blank row above the header and below the
    // footer so the labels sit off the card's edge.
    assert_eq!(flat.len(), bordered.len() + 2);
    assert_eq!(flat.first().unwrap().trim(), "");
    assert_eq!(flat.last().unwrap().trim(), "");

    // No border glyphs anywhere in the card.
    for line in &flat {
        assert!(
            !line.contains(['┌', '┐', '└', '┘', '│', '─']),
            "border glyph left in flat card line {line:?}"
        );
    }
    // The border labels move into the header and footer rows.
    assert!(flat[1].starts_with("  Sunday 05"));
    assert!(flat[1].trim_end().ends_with("14:30"));
    let footer = &flat[flat.len() - 2];
    assert!(footer.starts_with("  2 words ★"));
    assert!(footer.trim_end().ends_with("Archived"));
}

#[test]
fn every_card_line_spans_the_card_width() {
    let lines = entry_box_lines(
        Some("Sunday 05"),
        "14:30",
        "a preview long enough to wrap onto a second row and then a third one",
        Some("work"),
        None,
        20,
        ChromeStyle::Bordered,
    );
    // Top edge, two preview rows (the third is cut), bottom edge.
    assert_eq!(lines.len(), 4);
    assert!(lines.iter().all(|line| line.chars().count() == 24));
    assert_eq!(lines[3], format!("└ work {}┘", "─".repeat(16)));
}

#[test]
fn an_empty_preview_still_takes_one_row() {
    let lines = entry_box_lines(None, "10:23", "", None, None, 10, ChromeStyle::Bordered);
    assert_eq!(
        lines,
        vec![
            format!("┌{} 10:23 ┐", "─".repeat(5)),
            format!("│{}│", " ".repeat(12)),
            format!("└{}┘", "─".repeat(12)),
        ]
    );
}
