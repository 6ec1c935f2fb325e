use notema_tui::reflow::{
    finalize_line, hard_wrap_chars, soft_wrap_chars, styled_chars, wrap_line, wrap_rich,
    RichSpan, StyleRun, StyledChar,
};

const PLAIN: usize = 0;
const EMPHASIS: usize = 1;

fn run(content: &str, style: usize) -> StyleRun {
    StyleRun { style, content: content.to_string() }
}

fn rich(content: &str, style: usize, link: Option<usize>) -> RichSpan {
    RichSpan { content: content.to_string(), style, link }
}

fn text(runs: &Vec<StyleRun>) -> String {
    runs.iter().map(|r| r.content.as_str()).collect()
}

fn line_text(chars: &Vec<StyledChar>) -> String {
    chars.iter().map(|c| c.character).collect()
}

#[test]
fn wraps_at_words_instead_of_the_panel_edge() {
    let wrapped = wrap_line(&vec![run("alpha beta", PLAIN)], 7);

    assert_eq!(wrapped.iter().map(text).collect::<Vec<_>>(), ["alpha", "beta"]);
}

#[test]
fn punctuation_stays_with_a_word_across_style_boundaries() {
    let wrapped = wrap_line(
        &vec![run("Hello ", PLAIN), run("world", EMPHASIS), run("! again.", PLAIN)],
        13,
    );

    assert_eq!(
        wrapped.iter().map(text).collect::<Vec<_>>(),
        ["Hello world!", "again."]
    );
    assert_eq!(wrapped[0][1].style, EMPHASIS);
    assert_eq!(wrapped[0][1].content, "world");
    assert_eq!(wrapped[0][2].content, "!");
}

#[test]
fn hard_wraps_only_tokens_wider_than_the_panel() {
    let wrapped = wrap_line(&vec![run("abcdefgh", PLAIN)], 4);

    assert_eq!(wrapped.iter().map(text).collect::<Vec<_>>(), ["abcd", "efgh"]);
}

#[test]
fn wrapping_uses_terminal_cell_width() {
    let wrapped = wrap_line(&vec![run("ab 界!", PLAIN)], 4);

    assert_eq!(wrapped.iter().map(text).collect::<Vec<_>>(), ["ab", "界!"]);
}

#[test]
fn wide_characters_count_two_columns() {
    let chars = styled_chars("a界", PLAIN, None);
    assert_eq!(chars.len(), 2);
    assert_eq!(chars[0].width, 1);
    assert_eq!(chars[1].width, 2);
    assert_eq!(chars[1].link, None);
}

#[test]
fn control_characters_take_no_columns() {
    let chars = styled_chars("\u{7}", PLAIN, Some(3));
    assert_eq!(chars[0].width, 0);
    assert_eq!(chars[0].link, Some(3));
}

#[test]
fn soft_wrap_drops_the_whitespace_at_a_break() {
    let chars = styled_chars("one two   three", PLAIN, None);
    let lines = soft_wrap_chars(&chars, 7);
    assert_eq!(lines.iter().map(line_text).collect::<Vec<_>>(), ["one two", "three"]);
}

#[test]
fn soft_wrap_drops_trailing_whitespace() {
    let chars = styled_chars("word   ", PLAIN, None);
    let lines = soft_wrap_chars(&chars, 20);
    assert_eq!(lines.iter().map(line_text).collect::<Vec<_>>(), ["word"]);
}

#[test]
fn soft_wrap_of_nothing_is_one_empty_line() {
    let lines = soft_wrap_chars(&[], 10);
    assert_eq!(lines.len(), 1);
    assert!(lines[0].is_empty());
}

#[test]
fn leading_whitespace_wider_than_the_panel_stays_on_the_first_line() {
    let chars = styled_chars("     x", PLAIN, None);
    let lines = soft_wrap_chars(&chars, 2);
    assert_eq!(lines.iter().map(line_text).collect::<Vec<_>>(), ["     ", "x"]);
}

#[test]
fn hard_wrap_breaks_anywhere_and_keeps_every_character() {
    let chars = styled_chars("ab cdefgh", PLAIN, None);
    let lines = hard_wrap_chars(&chars, 4);
    assert_eq!(lines.iter().map(line_text).collect::<Vec<_>>(), ["ab c", "defg", "h"]);
}

#[test]
fn a_character_wider_than_the_panel_gets_a_line_of_its_own() {
    let chars = styled_chars("a界b", PLAIN, None);
    let lines = hard_wrap_chars(&chars, 1);
    assert_eq!(lines.iter().map(line_text).collect::<Vec<_>>(), ["a", "界", "b"]);
}

#[test]
fn every_wrapped_code_row_breaks_at_the_width() {
    let lines = wrap_rich(&vec![rich("abcdefgh", PLAIN, None)], 6, true);
    assert_eq!(
        lines.iter().map(|l| text(&l.spans)).collect::<Vec<_>>(),
        ["abcdef", "gh"]
    );
}

#[test]
fn a_link_on_one_line_spans_its_columns() {
    let lines = wrap_rich(
        &vec![rich("see ", PLAIN, None), rich("the docs", EMPHASIS, Some(0)), rich(" now", PLAIN, None)],
        80,
        false,
    );
    assert_eq!(lines.len(), 1);
    assert_eq!(lines[0].links, vec![(4, 12, 0)]);
    assert_eq!(text(&lines[0].spans), "see the docs now");
    assert_eq!(lines[0].spans.len(), 3);
}

#[test]
fn a_wrapping_link_is_marked_on_every_row() {
    let lines = wrap_rich(
        &vec![rich("see ", PLAIN, None), rich("the docs", EMPHASIS, Some(0)), rich(" now", PLAIN, None)],
        8,
        false,
    );
    assert_eq!(
        lines.iter().map(|l| text(&l.spans)).collect::<Vec<_>>(),
        ["see the", "docs now"]
    );
    assert_eq!(lines[0].links, vec![(4, 7, 0)]);
    assert_eq!(lines[1].links, vec![(0, 4, 0)]);
    assert_eq!(lines[1].spans[0].style, EMPHASIS);
    assert_eq!(lines[1].spans[1].content, " now");
}

#[test]
fn consecutive_links_are_told_apart() {
    let mut chars = styled_chars("ab", PLAIN, Some(1));
    chars.extend(styled_chars("cd", PLAIN, Some(2)));
    let line = finalize_line(&chars);
    assert_eq!(line.links, vec![(0, 2, 1), (2, 4, 2)]);
    assert_eq!(line.spans.len(), 1);
    assert_eq!(line.spans[0].content, "abcd");
}

#[test]
fn a_line_without_links_has_no_regions() {
    let chars = styled_chars("plain", PLAIN, None);
    let line = finalize_line(&chars);
    assert!(line.links.is_empty());
    assert_eq!(line.spans.len(), 1);
}

#[test]
fn soft_wrapped_lines_fit_but_for_leading_whitespace() {
    let chars = styled_chars("one two three four", PLAIN, None);
    let lines = soft_wrap_chars(&chars, 9);
    assert_eq!(lines.iter().map(line_text).collect::<Vec<_>>(), ["one two", "three", "four"]);
    assert!(lines.iter().all(|line| line.iter().map(|c| c.width).sum::<usize>() <= 9));

    let chars = styled_chars("     x", PLAIN, None);
    let lines = soft_wrap_chars(&chars, 2);
    assert_eq!(lines.iter().map(line_text).collect::<Vec<_>>(), ["     ", "x"]);
}
