use notema_tui::md_text::{
    code_header, code_lines, container_prefix, highlight_segments, link_trailer, list_marker,
    start_item, Container, ListState,
};

fn segs(text: &str, open: bool) -> (Vec<(String, bool)>, bool) {
    highlight_segments(text, open)
}

#[test]
fn highlight_marks_toggle_the_style() {
    let (pieces, open) = segs("a ==b== c", false);
    assert_eq!(
        pieces,
        vec![("a ".to_string(), false), ("b".to_string(), true), (" c".to_string(), false)]
    );
    assert!(!open);
}

#[test]
fn an_unclosed_highlight_stays_open_for_the_next_text() {
    let (pieces, open) = segs("==x", false);
    assert_eq!(pieces, vec![("x".to_string(), true)]);
    assert!(open);
    let (pieces, open) = segs("y", true);
    assert_eq!(pieces, vec![("y".to_string(), true)]);
    assert!(open);
}

#[test]
fn a_triple_equals_splits_at_its_first_pair() {
    let (pieces, open) = segs("a===b", false);
    assert_eq!(pieces, vec![("a".to_string(), false), ("=b".to_string(), true)]);
    assert!(open);
    let (pieces, open) = segs("====", false);
    assert!(pieces.is_empty());
    assert!(!open);
}

#[test]
fn numbered_items_count_up_and_bullets_do_not() {
    assert_eq!(list_marker(Some(3)), ("3. ".to_string(), Some(4)));
    assert_eq!(list_marker(None), ("- ".to_string(), None));
    assert_eq!(list_marker(Some(u64::MAX)).1, Some(u64::MAX));
}

#[test]
fn list_items_are_flush_left_with_hanging_continuations() {
    let mut list = ListState { next: Some(1), marker: String::new(), first_line: false, in_item: false };
    start_item(&mut list);
    assert_eq!(list.marker, "1. ");
    assert_eq!(list.next, Some(2));
    let mut containers = vec![Container::Quote, Container::List(list)];
    assert_eq!(container_prefix(&mut containers, true), "│ 1. ");
    assert_eq!(container_prefix(&mut containers, true), "│    ");
    assert_eq!(container_prefix(&mut containers, false), "│    ");
}

#[test]
fn a_list_between_items_adds_no_prefix() {
    let list = ListState { next: None, marker: "- ".to_string(), first_line: true, in_item: false };
    let mut containers = vec![Container::List(list), Container::Quote];
    assert_eq!(container_prefix(&mut containers, true), "│ ");
}

#[test]
fn code_blocks_name_their_language() {
    assert_eq!(code_header("rust ignore"), "╭─ rust");
    assert_eq!(code_header("  python  "), "╭─ python");
    assert_eq!(code_header(""), "╭─");
}

#[test]
fn code_lines_drop_trailing_newlines_and_widen_tabs() {
    assert_eq!(code_lines("a\n\tb\n\n"), vec!["a", "    b"]);
    assert_eq!(code_lines("x\n\ny"), vec!["x", "", "y"]);
    assert_eq!(code_lines(""), vec![""]);
}

#[test]
fn link_names_get_their_target_unless_it_is_the_name() {
    assert_eq!(link_trailer("https://x.dev", "docs", true), Some(" (https://x.dev)".to_string()));
    assert_eq!(link_trailer("https://x.dev", " https://x.dev ", true), None);
    assert_eq!(link_trailer("https://x.dev", "docs", false), None);
}
