use notema_tui::hints::HintId;
use notema_tui::hover::{hovered_dialog_row, hovered_field, hovered_hint, HoverTarget};
use notema_tui::entry_list::{card_look, entry_panel_title, CardLook};
use notema_tui::footer::Mode;
use notema_tui::geometry::Rect;
use notema_tui::insights::{histogram_rows, insights_content, insights_footnote, weekday_hour_areas};
use notema_tui::notices::unlock_field_areas;
use notema_tui::reader::{hovered_link_pieces, metadata_gap, reader_text_width, LinkSpan};

#[test]
fn entry_cards_lift_on_hover_unless_selected() {
    assert_eq!(card_look(Some(1), Some(1), Some(1), true), CardLook::Raised);
    assert_eq!(card_look(Some(1), Some(1), None, false), CardLook::Hovered);
    assert_eq!(card_look(Some(2), Some(1), None, false), CardLook::Plain);
    assert_eq!(card_look(None, None, None, true), CardLook::Plain);
    assert_eq!(entry_panel_title(Mode::Search), "Search");
    assert_eq!(entry_panel_title(Mode::Browse), "Entries");
}

#[test]
fn reader_metadata_bottom_attaches_or_is_set_off_by_a_line() {
    assert_eq!(reader_text_width(80), 79);
    assert_eq!(reader_text_width(1), 1);
    assert_eq!(metadata_gap(5, 3, 20), 12);
    assert_eq!(metadata_gap(15, 3, 10), 1);
    assert_eq!(metadata_gap(5, 0, 20), 0);
}

#[test]
fn a_hovered_link_lights_up_every_piece() {
    let links = vec![
        LinkSpan { line: 0, start: 0, end: 4, group: 0 },
        LinkSpan { line: 1, start: 0, end: 3, group: 0 },
        LinkSpan { line: 2, start: 0, end: 2, group: 1 },
    ];
    assert_eq!(hovered_link_pieces(&links, 1, 0, 3), vec![0, 1]);
    assert_eq!(hovered_link_pieces(&links, 2, 0, 2), vec![2]);
    assert!(hovered_link_pieces(&links, 5, 0, 1).is_empty());
}

#[test]
fn insights_content_and_footnote() {
    assert_eq!(insights_content(Rect { x: 0, y: 0, width: 10, height: 1 }, false), None);
    assert_eq!(
        insights_content(Rect { x: 0, y: 5, width: 10, height: 6 }, false),
        Some(Rect { x: 0, y: 6, width: 10, height: 5 })
    );
    assert_eq!(
        insights_content(Rect { x: 0, y: 5, width: 10, height: 6 }, true),
        Some(Rect { x: 0, y: 5, width: 10, height: 6 })
    );
    assert_eq!(insights_footnote(false, "All journals", "·", Some("90 days")).unwrap(), " All journals · 90 days ");
    assert_eq!(insights_footnote(false, "Work", "·", None).unwrap(), " Work ");
    assert!(insights_footnote(true, "Work", "·", None).is_none());
    assert_eq!(
        histogram_rows(Rect { x: 1, y: 2, width: 10, height: 4 }),
        Some((Rect { x: 1, y: 2, width: 10, height: 3 }, Rect { x: 1, y: 5, width: 10, height: 1 }))
    );
}

#[test]
fn weekday_and_hour_sit_side_by_side_when_wide() {
    let (left, right) = weekday_hour_areas(Rect { x: 0, y: 0, width: 60, height: 10 }).unwrap();
    assert_eq!(left, Rect { x: 0, y: 0, width: 28, height: 10 });
    assert_eq!(right, Rect { x: 32, y: 0, width: 28, height: 10 });
    let (top, bottom) = weekday_hour_areas(Rect { x: 0, y: 0, width: 40, height: 10 }).unwrap();
    assert_eq!(top, Rect { x: 0, y: 0, width: 40, height: 5 });
    assert_eq!(bottom, Rect { x: 0, y: 5, width: 40, height: 5 });
}

#[test]
fn the_unlock_field_sits_in_its_box_above_the_status() {
    let (field_box, field, status) = unlock_field_areas(Rect { x: 10, y: 5, width: 30, height: 6 }, 2);
    assert_eq!(field_box, Rect { x: 10, y: 5, width: 30, height: 3 });
    assert_eq!(field, Rect { x: 12, y: 6, width: 26, height: 1 });
    assert_eq!(status, Rect { x: 10, y: 9, width: 30, height: 2 });
}

#[test]
fn hover_targets_answer_for_their_own_kind() {
    let field = Rect { x: 2, y: 3, width: 10, height: 1 };
    assert!(hovered_field(HoverTarget::TextField(field), field));
    assert!(!hovered_field(HoverTarget::TextField(Rect { x: 0, ..field }), field));
    assert!(!hovered_field(HoverTarget::DialogRow(0), field));
    assert_eq!(hovered_hint(HoverTarget::FooterHint(HintId::Quit)), Some(HintId::Quit));
    assert_eq!(hovered_hint(HoverTarget::DialogRow(1)), None);
    assert_eq!(hovered_dialog_row(HoverTarget::DialogRow(4)), Some(4));
    assert_eq!(hovered_dialog_row(HoverTarget::Nothing), None);
}
