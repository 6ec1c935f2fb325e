use notema_tui::dialog_hints::{
    EditMetadataFocus, feelings_dialog_hints, metadata_dialog_hints, mood_dialog_hints,
};
use notema_tui::footer::{
    FooterContext, Focus, Mode, expanded_footer_hint_id_at_point, expanded_footer_text,
    footer_height, footer_hint_id_at, footer_hint_id_at_point, footer_text,
};
use notema_tui::hints::{Hint, HintId, hint_grid_text, hint_height, hint_id_at_wrapped};

/// The footer state of an app with one journal holding one selected entry.
fn app_with_entry() -> FooterContext {
    FooterContext {
        editor_open: false,
        show_hints: true,
        mode: Mode::Browse,
        focus: Focus::Journals,
        has_selected_entry_target: true,
        selected_entry_image_count: 0,
        selected_journal_archived: Some(false),
        show_journals: true,
        insights_uses_timeframe: false,
        insights_fullscreen: false,
        entry_view_fullscreen: false,
    }
}

#[test]
fn journal_footer_omits_entry_actions() {
    let mut app = app_with_entry();
    app.focus = Focus::Journals;

    let text = footer_text(&app, 200);

    assert!(!text.contains("enter  view"));
    assert!(!text.contains("e  edit"));
    assert!(!text.contains("d  del"));
}

#[test]
fn entries_footer_includes_entry_actions_when_an_entry_is_selected() {
    let mut app = app_with_entry();
    app.focus = Focus::Entries;

    let text = footer_text(&app, 200);

    assert!(text.contains("enter  view"));
    assert!(text.contains("e  edit"));
    assert!(text.contains("d  del"));
}

#[test]
fn expanded_entry_footer_includes_inline_entry_actions() {
    let mut app = app_with_entry();
    app.focus = Focus::EntryView;

    let inline_text = footer_text(&app, 200);
    let expanded_text = expanded_footer_text(&app, 200);

    for label in [
        "n  new entry",
        "e  edit",
        "d  del",
        "ctrl+g  metadata",
        "/  search",
        "q  quit",
    ] {
        assert!(inline_text.contains(label));
        assert!(expanded_text.contains(label));
    }
    for label in [
        "t  tags",
        "p  ppl",
        "a  act",
        "f  feel",
        "m  mood",
        "l  location",
    ] {
        assert!(!inline_text.contains(label));
        assert!(!expanded_text.contains(label));
    }
    assert!(expanded_text.contains("enter/esc/←  close"));

    app.entry_view_fullscreen = true;
    assert!(expanded_footer_text(&app, 200).contains("enter/esc  close"));
}

#[test]
fn entries_footer_omits_entry_actions_without_a_selection() {
    let mut app = app_with_entry();
    app.has_selected_entry_target = false;
    app.focus = Focus::Entries;

    let text = footer_text(&app, 200);

    assert!(!text.contains("enter  view"));
    assert!(!text.contains("e  edit"));
    assert!(!text.contains("d  del"));
}

#[test]
fn search_results_footer_shows_escape_and_entry_actions() {
    let mut app = app_with_entry();
    app.mode = Mode::Search;
    app.focus = Focus::Entries;

    let text = footer_text(&app, 200);

    assert!(!text.contains("Search all: body"));
    assert!(text.contains("enter  view"));
    assert!(text.contains("esc  exit search"));
    assert!(!text.contains("type query"));
    assert!(!text.contains("backspace"));
    assert!(!text.contains("e  edit"));
    assert!(!text.contains("d  del"));
}

#[test]
fn wrapped_footer_hint_routing_uses_visible_row() {
    let mut app = app_with_entry();
    app.focus = Focus::Entries;

    let width = 60;
    let origin_y = 18;
    let text = footer_text(&app, width);
    let (row_index, line) = text
        .split('\n')
        .enumerate()
        .find(|(_, line)| line.contains("ctrl+g  metadata"))
        .expect("metadata hint present");
    let col = line.find("ctrl+g  metadata").unwrap() as u16;

    assert_eq!(
        footer_hint_id_at_point(&app, 0, origin_y, width, col, origin_y + row_index as u16),
        Some(HintId::OpenMetadataMenu)
    );
}

#[test]
fn footer_hint_routing_uses_typed_ids() {
    let mut app = app_with_entry();
    app.focus = Focus::Entries;
    let text = footer_text(&app, 200);

    assert_eq!(
        footer_hint_id_at(&app, 0, 200, text.find("ctrl+g  metadata").unwrap() as u16),
        Some(HintId::OpenMetadataMenu)
    );
    assert_eq!(
        footer_hint_id_at(&app, 0, 200, text.find("e  edit").unwrap() as u16),
        Some(HintId::EditSelected)
    );
}

#[test]
fn expanded_footer_hint_routing_uses_typed_ids() {
    let mut app = app_with_entry();
    app.focus = Focus::EntryView;
    let width = 120;
    let origin_y = 19;
    let text = expanded_footer_text(&app, width);
    let (row_index, line) = text
        .split('\n')
        .enumerate()
        .find(|(_, line)| line.contains("ctrl+g  metadata"))
        .expect("metadata hint present");
    let col = line.find("ctrl+g  metadata").unwrap() as u16;

    assert_eq!(
        expanded_footer_hint_id_at_point(
            &app,
            0,
            origin_y,
            width,
            1 + col,
            origin_y + row_index as u16
        ),
        Some(HintId::OpenMetadataMenu)
    );
}

/// Every hint is clickable at its own rendered position, whatever row the grid
/// places it on.
fn assert_hints_routable(hints: &[Hint], width: u16) {
    let text = hint_grid_text(hints, width);
    for (row_index, line) in text.split('\n').enumerate() {
        for hint in hints {
            let needle = format!("{}  {}", hint.key_hint, hint.label);
            if let Some(col) = line.find(&needle) {
                assert_eq!(
                    hint_id_at_wrapped(hints, 0, 0, width, col as u16, row_index as u16),
                    Some(hint.id),
                    "hint {:?} on row {row_index}",
                    hint.label
                );
            }
        }
    }
}

#[test]
fn dialog_hints_wrap_and_remain_clickable_by_row() {
    let hints = metadata_dialog_hints(EditMetadataFocus::List, true);

    assert!(hint_height(&hints, 29) >= 2, "expected the hints to wrap");
    assert_hints_routable(&hints, 29);
}

#[test]
fn dialog_hint_routing_uses_typed_ids() {
    assert_hints_routable(&metadata_dialog_hints(EditMetadataFocus::List, true), 200);
    assert_hints_routable(&metadata_dialog_hints(EditMetadataFocus::Input, true), 200);
    assert_hints_routable(&metadata_dialog_hints(EditMetadataFocus::Input, false), 200);
    assert_hints_routable(&feelings_dialog_hints(EditMetadataFocus::List), 200);
    assert_hints_routable(&mood_dialog_hints(), 200);
}

#[test]
fn hidden_hints_leave_no_footer_row() {
    let mut app = app_with_entry();
    app.show_hints = false;
    assert_eq!(footer_height(&app, 80), 0);
    app.editor_open = true;
    assert_eq!(footer_height(&app, 200), 1);
}

#[test]
fn grid_rows_share_column_starts() {
    let hints = [
        Hint::new("a", "x", HintId::Quit),
        Hint::new("bbbb", "y", HintId::NewEntry),
        Hint::new("c", "z", HintId::EditSelected),
    ];
    // " x  a" is 5 columns, " y  bbbb" 8, " z  c" 5: at width 20 two columns fit.
    let text = hint_grid_text(&hints, 20);
    let rows: Vec<&str> = text.split('\n').collect();
    assert_eq!(rows.len(), 2);
    // Two columns of widths 5 and 8 leave 20 - 13 - 6 = 1 extra column for the
    // first gap: starts at 3 and 3 + 5 + 2 = 10.
    assert_eq!(rows[0], "    x  a   y  bbbb");
    assert_eq!(rows[1], "    z  c");
}

#[test]
fn edit_metadata_input_hint_saves_when_empty_and_adds_when_not_empty() {
    let rendered_empty = hint_grid_text(&metadata_dialog_hints(EditMetadataFocus::Input, true), 200);
    assert!(rendered_empty.contains("enter  save"));
    assert!(rendered_empty.contains("tab  list"));
    assert!(rendered_empty.contains("esc  cancel"));

    let rendered_value = hint_grid_text(&metadata_dialog_hints(EditMetadataFocus::Input, false), 200);
    assert!(rendered_value.contains("enter  add"));
    assert!(rendered_value.contains("tab  list"));
    assert!(rendered_value.contains("esc  cancel"));
}
