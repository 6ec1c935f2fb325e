use notema_tui::md_emit::{emit_wrapped_line, prefix_runs, LinkHit, PrefixStyles};
use notema_tui::md_text::{Container, ListState};
use notema_tui::reflow::{RichSpan, StyleRun};

const STYLES: PrefixStyles = PrefixStyles { quote: 7, marker: 8, plain: 0 };
const LINK: usize = 3;

fn rich(content: &str, style: usize, link: Option<usize>) -> RichSpan {
    RichSpan { content: content.to_string(), style, link }
}

fn text(runs: &Vec<StyleRun>) -> String {
    runs.iter().map(|r| r.content.as_str()).collect()
}

fn item(marker: &str) -> Container {
    Container::List(ListState { next: Some(2), marker: marker.to_string(), first_line: true, in_item: true })
}

fn hit(h: &LinkHit) -> (usize, usize, usize, String, usize) {
    (h.line, h.start, h.end, h.target.clone(), h.group)
}

#[test]
fn prefix_runs_style_each_container_and_use_up_the_marker() {
    let mut containers = vec![Container::Quote, item("1. ")];
    let first = prefix_runs(&mut containers, true, STYLES);
    let later = prefix_runs(&mut containers, true, STYLES);

    assert_eq!(
        first.iter().map(|r| (r.style, r.content.clone())).collect::<Vec<_>>(),
        [(7, "│ ".to_string()), (8, "1. ".to_string())]
    );
    assert_eq!(
        later.iter().map(|r| (r.style, r.content.clone())).collect::<Vec<_>>(),
        [(7, "│ ".to_string()), (0, "   ".to_string())]
    );
}

#[test]
fn wrapped_lines_hang_under_the_marker_and_links_record_shifted_columns() {
    let mut containers = vec![Container::Quote, item("1. ")];
    let spans = vec![rich("see ", 0, None), rich("docs", LINK, Some(0)), rich(" now", 0, None)];
    let targets = vec!["https://d.dev".to_string()];
    let mut lines = Vec::new();
    let mut hits = Vec::new();
    emit_wrapped_line(&mut containers, STYLES, 12, &spans, &vec![], false, &targets, &mut lines, &mut hits);

    assert_eq!(lines.iter().map(text).collect::<Vec<_>>(), ["│ 1. see", "│    docs", "│    now"]);
    assert_eq!(hits.iter().map(hit).collect::<Vec<_>>(), [(1, 5, 9, "https://d.dev".to_string(), 0)]);
    match &containers[1] {
        Container::List(list) => assert!(!list.first_line),
        Container::Quote => panic!("the list stays second"),
    }
}

#[test]
fn relative_targets_stay_inert_and_line_numbers_continue() {
    let mut containers = Vec::new();
    let spans = vec![rich("img", LINK, Some(0)), rich(" ", 0, None), rich("top", LINK, Some(1))];
    let targets = vec!["assets/a.png".to_string(), "#top".to_string()];
    let mut lines = vec![vec![StyleRun { style: 0, content: "before".to_string() }]];
    let mut hits = Vec::new();
    emit_wrapped_line(&mut containers, STYLES, 40, &spans, &vec![], false, &targets, &mut lines, &mut hits);

    assert_eq!(lines.iter().map(text).collect::<Vec<_>>(), ["before", "img top"]);
    assert_eq!(hits.iter().map(hit).collect::<Vec<_>>(), [(1, 4, 7, "#top".to_string(), 1)]);
}

#[test]
fn a_rail_follows_the_prefix_on_every_hard_wrapped_line() {
    let mut containers = vec![Container::Quote];
    let rail = vec![StyleRun { style: 7, content: "│ ".to_string() }];
    let spans = vec![rich("abcdef", 5, None)];
    let mut lines = Vec::new();
    let mut hits = Vec::new();
    emit_wrapped_line(&mut containers, STYLES, 7, &spans, &rail, true, &vec![], &mut lines, &mut hits);

    assert_eq!(lines.iter().map(text).collect::<Vec<_>>(), ["│ │ abc", "│ │ def"]);
    assert!(hits.is_empty());
}

#[test]
fn an_empty_line_still_gets_its_prefix() {
    let mut containers = vec![Container::Quote];
    let mut lines = Vec::new();
    let mut hits = Vec::new();
    emit_wrapped_line(&mut containers, STYLES, 20, &vec![], &vec![], false, &vec![], &mut lines, &mut hits);

    assert_eq!(lines.iter().map(text).collect::<Vec<_>>(), ["│ "]);
}

#[test]
fn a_prefix_wider_than_the_panel_leaves_one_column() {
    let mut containers = vec![Container::Quote, Container::Quote];
    let mut lines = Vec::new();
    let mut hits = Vec::new();
    emit_wrapped_line(&mut containers, STYLES, 3, &vec![rich("ab", 0, None)], &vec![], true, &vec![], &mut lines, &mut hits);

    assert_eq!(lines.iter().map(text).collect::<Vec<_>>(), ["│ │ a", "│ │ b"]);
}
