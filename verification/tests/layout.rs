use notema_tui::footer::{Focus, Mode};
use notema_tui::geometry::Rect;
use notema_tui::layout::{arrange_panels, tui_layout, ColumnSize, ColumnWidths, LayoutState, Panel};

fn wide() -> LayoutState {
    LayoutState {
        reader_fullscreen: false,
        insights_fullscreen: false,
        single_panel: false,
        inline_reader: true,
        show_journals: true,
        show_insights: false,
        mode: Mode::Browse,
        focus: Focus::Entries,
    }
}

#[test]
fn a_wide_screen_shows_the_lists_beside_the_entry() {
    assert_eq!(
        arrange_panels(wide()),
        vec![
            (Panel::Journals, ColumnSize::JournalList),
            (Panel::Entries, ColumnSize::EntryListInline),
            (Panel::Reader, ColumnSize::AtLeastEntryListMin),
        ]
    );
    let mut nothing_selected = wide();
    nothing_selected.show_insights = true;
    assert_eq!(arrange_panels(nothing_selected)[2].0, Panel::Insights);
}

#[test]
fn compact_screens_show_only_the_active_step() {
    let mut s = wide();
    s.single_panel = true;
    s.focus = Focus::Journals;
    assert_eq!(arrange_panels(s), vec![(Panel::Journals, ColumnSize::Rest)]);
    s.mode = Mode::Search;
    assert_eq!(arrange_panels(s), vec![(Panel::Entries, ColumnSize::Rest)]);
    s.focus = Focus::EntryView;
    assert_eq!(arrange_panels(s), vec![(Panel::Reader, ColumnSize::Rest)]);
}

#[test]
fn two_column_screens_follow_the_active_column_pair() {
    let mut s = wide();
    s.inline_reader = false;
    s.focus = Focus::Journals;
    assert_eq!(
        arrange_panels(s),
        vec![
            (Panel::Journals, ColumnSize::JournalList),
            (Panel::Entries, ColumnSize::AtLeastEntryListMin),
        ]
    );
    s.focus = Focus::Entries;
    assert_eq!(
        arrange_panels(s),
        vec![(Panel::Entries, ColumnSize::EntryListInline), (Panel::Reader, ColumnSize::Rest)]
    );
}

#[test]
fn full_screen_panels_own_the_content_area() {
    let mut s = wide();
    s.insights_fullscreen = true;
    assert_eq!(arrange_panels(s), vec![(Panel::Insights, ColumnSize::Rest)]);
    s.reader_fullscreen = true;
    assert_eq!(arrange_panels(s), vec![(Panel::Reader, ColumnSize::Rest)]);
}

const WIDTHS: ColumnWidths = ColumnWidths { journal_list: 27, entry_list_inline: 47, entry_list_min: 30 };

#[test]
fn layout_places_hit_targets_in_three_columns() {
    let footer_h = 2;
    let layout = tui_layout(Rect::new(0, 0, 140, 20), footer_h, wide(), WIDTHS);
    let content_h = 20 - footer_h;
    assert!(!layout.single_panel);
    assert!(layout.reader.is_some());
    assert!(layout.insights.is_none());
    assert_eq!(layout.journals.unwrap(), Rect::new(0, 0, 27, content_h));
    assert_eq!(layout.entries.unwrap(), Rect::new(27, 0, 47, content_h));
    assert_eq!(layout.reader.unwrap(), Rect::new(74, 0, 66, content_h));
    assert_eq!(layout.footer, Rect::new(0, content_h, 140, footer_h));
}

#[test]
fn a_lone_panel_takes_the_whole_content() {
    let mut single = wide();
    single.single_panel = true;
    single.focus = Focus::EntryView;
    let layout = tui_layout(Rect::new(0, 0, 60, 20), 3, single, WIDTHS);
    assert!(layout.single_panel);
    assert_eq!(layout.reader, Some(Rect::new(0, 0, 60, 17)));
    assert_eq!(layout.content, Rect::new(0, 0, 60, 17));
    assert!(layout.journals.is_none() && layout.entries.is_none() && layout.insights.is_none());
}

#[test]
fn the_footer_never_takes_more_than_the_screen() {
    let layout = tui_layout(Rect::new(0, 0, 60, 2), 5, wide(), WIDTHS);
    assert_eq!(layout.footer, Rect::new(0, 0, 60, 2));
    assert_eq!(layout.content.height, 0);
}
