use notema_tui::markdown::{
    dedupe_heading_anchors, heading_anchor, image_label, is_openable_link,
    normalize_mermaid_code, strip_leading_whitespace, text_lines_of, ReaderHeading,
};

#[test]
fn image_label_includes_alt_and_press_hint_and_is_one_based() {
    assert_eq!(image_label(0, "sunset"), "[Image 1: sunset - click here or press 1]");
    assert_eq!(image_label(3, ""), "[Image 4 - click here or press 4]");
}

#[test]
fn tenth_image_binds_to_zero_key() {
    assert_eq!(image_label(9, ""), "[Image 10 - click here or press 0]");
}

#[test]
fn image_label_past_ten_drops_press_hint() {
    assert_eq!(image_label(10, "late"), "[Image 11: late - click here]");
}

#[test]
fn image_label_trims_the_alt_text() {
    assert_eq!(image_label(1, "  a view \t"), "[Image 2: a view - click here or press 2]");
    assert_eq!(image_label(1, "   "), "[Image 2 - click here or press 2]");
}

#[test]
fn heading_anchors_slug_like_github() {
    assert_eq!(heading_anchor("My Heading"), "my-heading");
    assert_eq!(
        heading_anchor("A Very Long Heading That Certainly Wraps Across Rows"),
        "a-very-long-heading-that-certainly-wraps-across-rows"
    );
    assert_eq!(heading_anchor("  Hello,   World!  "), "hello-world");
    assert_eq!(heading_anchor("-- snake_case & dash-case --"), "snake_case-dash-case");
    assert_eq!(heading_anchor("Ünïcode Straße"), "ünïcode-straße");
    assert_eq!(heading_anchor("!!!"), "");
}

#[test]
fn only_anchors_and_web_or_mail_links_open() {
    assert!(is_openable_link("#my-heading"));
    assert!(is_openable_link("https://example.com"));
    assert!(is_openable_link("http://example.com"));
    assert!(is_openable_link("mailto:me@example.com"));
    assert!(!is_openable_link("photo.png"));
    assert!(!is_openable_link("ftp://example.com"));
    assert!(!is_openable_link(""));
}

#[test]
fn strip_leading_whitespace_stops_at_text_or_count() {
    assert_eq!(strip_leading_whitespace("    graph TD", 2), "  graph TD");
    assert_eq!(strip_leading_whitespace("\t  x", 5), "x");
    assert_eq!(strip_leading_whitespace("x  ", 3), "x  ");
}

#[test]
fn text_lines_split_like_str_lines() {
    let lines = text_lines_of("foo\r\nbar\n\nbaz\r");
    assert_eq!(lines, vec!["foo", "bar", "", "baz\r"]);
    assert_eq!(text_lines_of("a\n"), vec!["a"]);
    assert!(text_lines_of("").is_empty());
    assert_eq!(text_lines_of("\n"), vec![""]);
}

#[test]
fn mermaid_sources_lose_blank_edges_and_common_indent() {
    let code = "\n\n    graph TD\n      A --> B\n\n    B --> C\n   \n";
    assert_eq!(normalize_mermaid_code(code), "graph TD\n  A --> B\n\nB --> C");
    assert_eq!(normalize_mermaid_code("  \n\t\n"), "");
}

#[test]
fn repeated_heading_anchors_get_numbered() {
    let mut headings: Vec<ReaderHeading> = ["intro", "usage", "intro", "intro"]
        .iter()
        .enumerate()
        .map(|(line, anchor)| ReaderHeading { anchor: anchor.to_string(), line })
        .collect();
    dedupe_heading_anchors(&mut headings);
    let anchors: Vec<&str> = headings.iter().map(|h| h.anchor.as_str()).collect();
    assert_eq!(anchors, vec!["intro", "usage", "intro-1", "intro-2"]);
    assert_eq!(headings[3].line, 3);
}

#[test]
fn whitespace_matches_std_for_every_char() {
    for u in 0u32..=0x10FFFF {
        if let Some(c) = char::from_u32(u) {
            assert_eq!(notema_tui::markdown::is_whitespace_char(c), c.is_whitespace(), "U+{u:04X}");
        }
    }
}
