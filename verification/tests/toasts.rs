use notema_tui::frames::{confirm_button_at, confirm_button_rects};
use notema_tui::geometry::Rect;
use notema_tui::toasts::{toast_at_point, toast_content, toast_lines, toast_rects};

fn screen() -> Rect {
    Rect::new(0, 0, 120, 30)
}

#[test]
fn toast_renders_top_right_with_variant_edges() {
    let messages = vec!["Entry saved".to_string()];
    let rects = toast_rects(&messages, screen());

    // Width 44 with a right inset of 2 → columns 74..=117, starting at row 1;
    // a one-line message makes a 3-row box.
    assert_eq!(rects.len(), 1);
    let card = rects[0];
    for y in 1..=3u16 {
        for x in [74u16, 117u16] {
            assert!(
                x == card.x || x == card.x + card.width - 1,
                "edge missing at ({x},{y})"
            );
            assert!(y >= card.y && y < card.y + card.height);
        }
    }
    let content = toast_content(card);
    let lines = toast_lines(&messages[0], card.width);
    let message_row = lines[(2 - content.y) as usize].clone();
    assert!(
        message_row.contains("Entry saved"),
        "row was: {message_row}"
    );
    assert!(content.x >= 75 && content.x + content.width <= 117);
    // Padding rows above and below the message stay blank.
    for y in [1u16, 3u16] {
        assert!(y < content.y || y >= content.y + lines.len() as u16);
    }
}

#[test]
fn toasts_stack_with_a_blank_row_between() {
    let messages = vec!["First".to_string(), "Second".to_string()];
    let rects = toast_rects(&messages, screen());

    // Oldest on top (rows 1..=3), a blank row, then the newest (rows 5..=7).
    assert_eq!(rects, vec![Rect::new(74, 1, 44, 3), Rect::new(74, 5, 44, 3)]);
    assert_eq!(toast_at_point(&messages, screen(), 74, 1), Some(0));
    assert_eq!(toast_at_point(&messages, screen(), 74, 4), None);
    assert_eq!(toast_at_point(&messages, screen(), 74, 5), Some(1));
}

#[test]
fn toast_draws_a_variant_colored_border_box() {
    let messages = vec!["Save failed".to_string()];
    let rects = toast_rects(&messages, screen());

    // Corners of the box: (74, 1) and (117, 1) on top, (74, 3) bottom-left.
    let card = rects[0];
    assert_eq!((card.x, card.y), (74, 1));
    assert_eq!(card.x + card.width - 1, 117);
    assert_eq!(card.y + card.height - 1, 3);
    let lines = toast_lines(&messages[0], card.width);
    assert!(lines[0].contains("Save failed"), "row was: {}", lines[0]);
}

#[test]
fn long_toasts_wrap_and_cap_at_four_lines() {
    let long = "one two three four five six seven eight nine ten eleven twelve thirteen \
        fourteen fifteen sixteen seventeen eighteen nineteen twenty twenty-one twenty-two \
        twenty-three twenty-four twenty-five twenty-six twenty-seven";
    let lines = toast_lines(long, 44);
    assert_eq!(lines.len(), 4);
    assert!(lines.iter().all(|line| line.chars().count() <= 40));
    let rects = toast_rects(&[long.to_string()], screen());
    assert_eq!(rects, vec![Rect::new(74, 1, 44, 6)]);
}

#[test]
fn toasts_stop_stacking_at_the_bottom_and_vanish_on_narrow_screens() {
    let messages: Vec<String> = (0..10).map(|i| format!("toast {i}")).collect();
    // Rows 1..=3, 5..=7, then 9..=11 would cross a 10-row screen's bottom.
    assert_eq!(toast_rects(&messages, Rect::new(0, 0, 80, 10)).len(), 2);
    assert!(toast_rects(&messages, Rect::new(0, 0, 10, 30)).is_empty());
}

#[test]
fn confirm_buttons_center_on_the_last_row_and_route_clicks() {
    let inner = Rect::new(20, 8, 40, 3);
    let (yes, no) = confirm_button_rects(inner);
    assert_eq!(yes, Rect::new(23, 10, 16, 1));
    assert_eq!(no, Rect::new(41, 10, 16, 1));
    assert_eq!(confirm_button_at(inner, 23, 10), Some(true));
    assert_eq!(confirm_button_at(inner, 39, 10), None);
    assert_eq!(confirm_button_at(inner, 56, 10), Some(false));
    assert_eq!(confirm_button_at(inner, 30, 9), None);
}
