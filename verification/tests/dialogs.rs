use notema_tui::chrome::{ChromeStyle, ColorMode};
use notema_tui::dialogs::{
    confirm_delete_content, DeleteContext, editor_discard_choice_at_point, editor_discard_confirm_area, checked_location_dialog_layout, checked_metadata_dialog_layout, checked_mood_dialog_layout,
    feelings_dialog_layout, feelings_selected_line_count, location_dialog_layout,
    location_list_rows, metadata_dialog_layout, metadata_dialog_rects, mood_dialog_layout,
    theme_picker_layout, LIST_DIALOG_WIDTH,
};
use notema_tui::frames::dialog_inner;
use notema_tui::geometry::Rect;
use notema_tui::scroll::scrollbar_bar_rect;
use notema_tui::split::centered_rect_fixed_size;
use notema_tui::surface::{feelings_selected_rows, location_list_row_at, location_row_lines};

const BORDERED: ChromeStyle = ChromeStyle::Bordered;

#[test]
fn list_dialogs_keep_preferred_width_until_they_hit_edges() {
    let wide_tags = metadata_dialog_layout(Rect::new(0, 0, 120, 30), 20, BORDERED);
    assert_eq!(wide_tags.area.width, 44);
    assert_eq!(wide_tags.list.height, 14);

    let narrow_tags = metadata_dialog_layout(Rect::new(0, 0, 40, 30), 20, BORDERED);
    assert_eq!(narrow_tags.area.x, 0);
    assert_eq!(narrow_tags.area.width, 40);

    // 15 group headers + 155 feelings = 170 rows; the list caps at its max visible rows.
    let wide_feelings = feelings_dialog_layout(Rect::new(0, 0, 120, 30), 170, &[], BORDERED);
    assert_eq!(wide_feelings.area.width, 44);
    assert_eq!(wide_feelings.list.height, 16);

    let wide_mood = mood_dialog_layout(Rect::new(0, 0, 120, 30), BORDERED);
    assert_eq!(wide_mood.area.width, 90);

    let narrow_mood = mood_dialog_layout(Rect::new(0, 0, 80, 30), BORDERED);
    assert_eq!(narrow_mood.area.x, 0);
    assert_eq!(narrow_mood.area.width, 80);
}

#[test]
fn narrow_location_layout_sizes_and_hit_tests_from_its_actual_width() {
    let frame_area = Rect::new(0, 0, 30, 24);
    let labels = vec![
        "A long place name that wraps on a narrow terminal".to_string(),
        "Another place name that also wraps across rows".to_string(),
    ];
    let layout = location_dialog_layout(frame_area, &labels, BORDERED);
    let first_height = location_row_lines(&labels[0], layout.list.width).len();
    let total_rows: usize = labels
        .iter()
        .map(|label| location_row_lines(label, layout.list.width).len())
        .sum();

    assert_eq!(location_list_rows(frame_area, &labels, BORDERED), total_rows);
    assert_eq!(layout.list.height as usize, total_rows);
    assert_eq!(
        location_list_row_at(layout.list, &labels, 0, layout.list.y + first_height as u16 - 1),
        Some(0),
    );
    assert_eq!(
        location_list_row_at(layout.list, &labels, 0, layout.list.y + first_height as u16),
        Some(1),
    );
}

#[test]
fn feelings_summary_height_uses_the_final_dialog_width() {
    let frame_area = Rect::new(0, 0, 30, 24);
    let selected = vec![
        "overwhelmed".to_string(),
        "appreciative".to_string(),
        "self-conscious".to_string(),
    ];
    let layout = feelings_dialog_layout(frame_area, 4, &selected, BORDERED);
    let rows = feelings_selected_rows(&selected, layout.selected.width);

    assert_eq!(layout.selected.height as usize, rows.len());
    assert!(rows.len() > 1);
}

#[test]
fn dialog_inner_uses_the_shared_surface_gutter_in_both_chromes() {
    let area = Rect::new(10, 5, 44, 20);
    for (chrome, expected) in [
        (ChromeStyle::Flat, Rect::new(12, 8, 39, 16)),
        (ChromeStyle::Bordered, Rect::new(12, 6, 40, 18)),
    ] {
        let inner = dialog_inner(area, chrome);
        assert_eq!(inner, expected);
        assert_eq!(inner.x, area.x + 2);
        assert_eq!(inner.x + inner.width, scrollbar_bar_rect(area, chrome).x - 1);
    }
}

#[test]
fn scrollbar_track_is_inset_one_column_on_flat_chrome() {
    let area = Rect::new(2, 3, 20, 10);
    assert_eq!(scrollbar_bar_rect(area, ChromeStyle::Flat), Rect::new(20, 4, 1, 8));
    assert_eq!(scrollbar_bar_rect(area, ChromeStyle::Bordered), Rect::new(21, 4, 1, 8));
}

#[test]
fn a_fixed_size_rect_is_centred_and_capped() {
    let cell = centered_rect_fixed_size(44, 10, Rect::new(0, 0, 120, 30));
    assert_eq!(cell, Rect::new(38, 10, 44, 10));
    let capped = centered_rect_fixed_size(44, 40, Rect::new(5, 2, 40, 20));
    assert_eq!(capped, Rect::new(5, 2, 40, 20));
}

#[test]
fn metadata_rows_stack_inside_the_frame() {
    let layout = metadata_dialog_rects(Rect::new(10, 5, 44, 20), 2, BORDERED);
    assert_eq!(layout.inner, Rect::new(12, 6, 40, 18));
    assert_eq!(layout.list_top_separator, Rect::new(12, 7, 40, 1));
    assert_eq!(layout.list, Rect::new(12, 8, 40, 11));
    assert_eq!(layout.list_bottom_separator, Rect::new(12, 19, 40, 1));
    assert_eq!(layout.input, Rect::new(12, 20, 40, 1));
    assert_eq!(layout.hints, Rect::new(12, 22, 40, 2));
}

#[test]
fn flat_metadata_dialog_pads_its_title_off_the_edge() {
    let layout = metadata_dialog_rects(Rect::new(10, 5, 44, 20), 2, ChromeStyle::Flat);
    assert_eq!(layout.inner, Rect::new(12, 8, 39, 16));
    assert_eq!(layout.list, Rect::new(12, 10, 39, 9));
}

#[test]
fn no_picked_feelings_still_take_one_line() {
    assert_eq!(feelings_selected_line_count(Rect::new(0, 0, 120, 30), &[], BORDERED), 1);
}

#[test]
fn theme_picker_leaves_a_blank_row_above_its_hints() {
    let layout = theme_picker_layout(
        Rect::new(0, 0, 120, 30),
        5,
        true,
        None,
        ColorMode::Auto,
        BORDERED,
    );
    assert_eq!(layout.area.width, LIST_DIALOG_WIDTH);
    assert_eq!(layout.list.y, layout.area.y + 1);
    assert_eq!(layout.list.y + layout.list.height + 1, layout.hints.y);
    assert_eq!(layout.hints.y + layout.hints.height, layout.area.y + layout.area.height - 1);
}

#[test]
fn mood_bar_sits_between_its_label_and_word() {
    let layout = mood_dialog_layout(Rect::new(0, 0, 120, 30), BORDERED);
    let inner = layout.inner;
    assert_eq!(layout.bar.x, inner.x + 10);
    assert_eq!(layout.bar.y, inner.y + 1);
    assert_eq!(layout.bar.width, inner.width - 19);
    assert_eq!(layout.value.y, inner.y + 3);
    assert_eq!(layout.value.width, layout.bar.width);
}

#[test]
fn dialogs_at_the_last_rows_are_refused() {
    let bottom = Rect::new(0, 65534, 120, 1);
    assert!(checked_metadata_dialog_layout(bottom, 3, BORDERED).is_none());
    assert!(checked_mood_dialog_layout(bottom, BORDERED).is_none());
    assert!(checked_location_dialog_layout(bottom, &[], BORDERED).is_none());
    assert!(checked_metadata_dialog_layout(Rect::new(0, 0, 120, 30), 3, BORDERED).is_some());
}

#[test]
fn the_hint_row_width_is_the_dialog_inner_width() {
    let frame = Rect::new(0, 0, 120, 30);
    let area = centered_rect_fixed_size(44, 1, frame);
    assert_eq!(dialog_inner(area, BORDERED).width, 40);
}

#[test]
fn a_percentage_rect_sits_in_the_middle() {
    let cell = notema_tui::split::centered_rect(60, 20, Rect::new(0, 0, 100, 50));
    assert_eq!(cell, Rect::new(20, 20, 60, 10));
}

#[test]
fn the_discard_dialog_answers_clicks_on_its_buttons() {
    let frame = Rect::new(0, 0, 80, 24);
    // The solver rounds the spare rows' half up: 19 spare rows put the top at 10.
    assert_eq!(editor_discard_confirm_area(frame), Rect::new(19, 10, 42, 5));
    assert_eq!(editor_discard_choice_at_point(frame, 25, 13, BORDERED), Some(true));
    assert_eq!(editor_discard_choice_at_point(frame, 45, 13, BORDERED), Some(false));
    assert_eq!(editor_discard_choice_at_point(frame, 40, 13, BORDERED), None);
    assert_eq!(editor_discard_choice_at_point(frame, 25, 12, BORDERED), None);
}

#[test]
fn confirm_delete_shows_what_goes_where() {
    assert_eq!(
        confirm_delete_content(&DeleteContext::Entry { has_body: true }, BORDERED),
        (5, "Move entry to trash?".to_string())
    );
    assert_eq!(
        confirm_delete_content(&DeleteContext::Entry { has_body: false }, ChromeStyle::Flat),
        (7, "Permanently delete entry?".to_string())
    );
    let journal = |trash_count, delete_count| DeleteContext::Journal {
        display_name: "work".to_string(),
        trash_count,
        delete_count,
    };
    assert_eq!(
        confirm_delete_content(&journal(3, 0), BORDERED),
        (6, "Delete journal 'work'?\n3 entries moved to trash".to_string())
    );
    assert_eq!(
        confirm_delete_content(&journal(0, 2), BORDERED).1,
        "Delete journal 'work'?\n2 entries deleted permanently"
    );
    assert_eq!(
        confirm_delete_content(&journal(4, 1), BORDERED).1,
        "Delete journal 'work'?\n4 entries → trash, 1 deleted"
    );
}
