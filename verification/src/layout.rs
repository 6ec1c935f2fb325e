//! Which panels the main screen shows and how its columns are sized, from
//! the focus, the mode and what the terminal's width allows; and the rects
//! they get once the screen is split.
use vstd::prelude::*;
use crate::footer::{Focus, Mode};
use crate::geometry::Rect;
use crate::split::{part_of, plain_fit, plain_size, plain_start, span_on, split_area, start_on, size_on, Axis, Packing, SizeRule};

verus! {

/// A panel of the main screen.
#[derive(Clone, Copy, Debug, PartialEq, Eq, Structural)]
pub enum Panel {
    Journals,
    Entries,
    Reader,
    Insights,
}

/// How a column is sized when the content area is split.
#[derive(Clone, Copy, Debug, PartialEq, Eq, Structural)]
pub enum ColumnSize {
    /// The journal list's fixed width.
    JournalList,
    /// The entry list's fixed width beside an inline reader.
    EntryListInline,
    /// The rest, but at least the entry list's minimum width.
    AtLeastEntryListMin,
    /// Whatever is left.
    Rest,
}

/// What the arrangement depends on.
#[derive(Clone, Copy, Debug)]
pub struct LayoutState {
    /// The entry view takes the whole content area.
    pub reader_fullscreen: bool,
    /// The insights panel takes the whole content area.
    pub insights_fullscreen: bool,
    /// The terminal is too narrow for more than one panel.
    pub single_panel: bool,
    /// The terminal is wide enough to show an entry beside the lists.
    pub inline_reader: bool,
    /// The journal column is enabled.
    pub show_journals: bool,
    /// Nothing is selected, so the right column shows the journal insights.
    pub show_insights: bool,
    pub mode: Mode,
    pub focus: Focus,
}

/// The panels the content area holds, left to right, with their sizing; a
/// single panel takes the whole area.
pub open spec fn spec_arrange_panels(s: LayoutState) -> Seq<(Panel, ColumnSize)> {
    if s.reader_fullscreen {
        seq![(Panel::Reader, ColumnSize::Rest)]
    } else if s.insights_fullscreen {
        seq![(Panel::Insights, ColumnSize::Rest)]
    } else if s.single_panel {
        match s.focus {
            Focus::Journals => if s.mode == Mode::Browse && s.show_journals {
                seq![(Panel::Journals, ColumnSize::Rest)]
            } else {
                seq![(Panel::Entries, ColumnSize::Rest)]
            },
            Focus::EntryView => seq![(Panel::Reader, ColumnSize::Rest)],
            Focus::Insights => seq![(Panel::Insights, ColumnSize::Rest)],
            Focus::Entries => seq![(Panel::Entries, ColumnSize::Rest)],
        }
    } else if s.inline_reader {
        if s.show_journals {
            seq![
                (Panel::Journals, ColumnSize::JournalList),
                (Panel::Entries, ColumnSize::EntryListInline),
                (if s.show_insights { Panel::Insights } else { Panel::Reader }, ColumnSize::AtLeastEntryListMin),
            ]
        } else {
            seq![
                (Panel::Entries, ColumnSize::EntryListInline),
                (Panel::Reader, ColumnSize::AtLeastEntryListMin),
            ]
        }
    } else if s.show_journals && s.mode == Mode::Browse && s.focus == Focus::Journals {
        seq![(Panel::Journals, ColumnSize::JournalList), (Panel::Entries, ColumnSize::AtLeastEntryListMin)]
    } else {
        seq![(Panel::Entries, ColumnSize::EntryListInline), (Panel::Reader, ColumnSize::Rest)]
    }
}

/// The panels of the main screen, left to right, and how to size their
/// columns: a full-screen entry view or insights panel owns the whole area; a
/// single-panel screen shows the focused column; a wide screen shows the
/// lists beside the entry (or, with nothing selected, the insights); a
/// middling one pairs the journal list with the entries while the journals
/// have focus, and the entries with the entry view otherwise.
pub fn arrange_panels(s: LayoutState) -> (panels: Vec<(Panel, ColumnSize)>)
    ensures
        panels@ == spec_arrange_panels(s),
{
    let mut panels: Vec<(Panel, ColumnSize)> = Vec::new();
    if s.reader_fullscreen {
        panels.push((Panel::Reader, ColumnSize::Rest));
    } else if s.insights_fullscreen {
        panels.push((Panel::Insights, ColumnSize::Rest));
    } else if s.single_panel {
        let panel = match s.focus {
            Focus::Journals => if s.mode == Mode::Browse && s.show_journals {
                Panel::Journals
            } else {
                Panel::Entries
            },
            Focus::EntryView => Panel::Reader,
            Focus::Insights => Panel::Insights,
            Focus::Entries => Panel::Entries,
        };
        panels.push((panel, ColumnSize::Rest));
    } else if s.inline_reader {
        if s.show_journals {
            panels.push((Panel::Journals, ColumnSize::JournalList));
            panels.push((Panel::Entries, ColumnSize::EntryListInline));
            let right = if s.show_insights {
                Panel::Insights
            } else {
                Panel::Reader
            };
            panels.push((right, ColumnSize::AtLeastEntryListMin));
        } else {
            panels.push((Panel::Entries, ColumnSize::EntryListInline));
            panels.push((Panel::Reader, ColumnSize::AtLeastEntryListMin));
        }
    } else if s.show_journals && s.mode == Mode::Browse && s.focus == Focus::Journals {
        panels.push((Panel::Journals, ColumnSize::JournalList));
        panels.push((Panel::Entries, ColumnSize::AtLeastEntryListMin));
    } else {
        panels.push((Panel::Entries, ColumnSize::EntryListInline));
        panels.push((Panel::Reader, ColumnSize::Rest));
    }
    assert(panels@ =~= spec_arrange_panels(s));
    panels
}

/// The arrangement never shows a panel twice, and always shows the focused
/// entry view or insights panel on a single-panel screen, the journal list
/// only when the journal column is enabled, and the entry list whenever
/// neither a full-screen panel nor a single-panel focus elsewhere takes the
/// screen.
pub proof fn lemma_arrangement_is_consistent(s: LayoutState)
    ensures
        ({
            let p = spec_arrange_panels(s);
            &&& 1 <= p.len() <= 3
            &&& forall|i: int, j: int| 0 <= i < j < p.len() ==> p[i].0 != p[j].0
            &&& forall|i: int| 0 <= i < p.len() && p[i].0 == Panel::Journals ==> s.show_journals
            &&& (!s.reader_fullscreen && !s.insights_fullscreen && !s.single_panel)
                ==> exists|i: int| 0 <= i < p.len() && p[i].0 == Panel::Entries
        }),
{
    let p = spec_arrange_panels(s);
    if !s.reader_fullscreen && !s.insights_fullscreen && !s.single_panel {
        if s.inline_reader && s.show_journals {
            assert(p[1].0 == Panel::Entries);
        } else if s.inline_reader {
            assert(p[0].0 == Panel::Entries);
        } else if s.show_journals && s.mode == Mode::Browse && s.focus == Focus::Journals {
            assert(p[1].0 == Panel::Entries);
        } else {
            assert(p[0].0 == Panel::Entries);
        }
    }
}


/// The widths the main screen's columns are sized by.
#[derive(Clone, Copy, Debug)]
pub struct ColumnWidths {
    /// The journal list's fixed width.
    pub journal_list: u16,
    /// The entry list's width beside an inline reader.
    pub entry_list_inline: u16,
    /// The least width the entry list column takes.
    pub entry_list_min: u16,
}

/// The size rule of a column.
pub open spec fn column_rule(size: ColumnSize, widths: ColumnWidths) -> SizeRule {
    match size {
        ColumnSize::JournalList => SizeRule::Length(widths.journal_list),
        ColumnSize::EntryListInline => SizeRule::Length(widths.entry_list_inline),
        ColumnSize::AtLeastEntryListMin => SizeRule::Min(widths.entry_list_min),
        ColumnSize::Rest => SizeRule::Min(0),
    }
}

pub open spec fn column_rules(panels: Seq<(Panel, ColumnSize)>, widths: ColumnWidths) -> Seq<SizeRule> {
    panels.map_values(|p: (Panel, ColumnSize)| column_rule(p.1, widths))
}

/// The main screen's rects: the content area, the footer below it, and the
/// rect of each panel shown.
#[derive(Clone, Copy, Debug, PartialEq, Eq)]
pub struct MainLayout {
    pub content: Rect,
    pub footer: Rect,
    pub journals: Option<Rect>,
    pub entries: Option<Rect>,
    pub reader: Option<Rect>,
    pub insights: Option<Rect>,
    pub single_panel: bool,
}

/// The rect `panel` gets among the first `n` arranged panels, if it is one
/// of them.
pub open spec fn rect_of(panels: Seq<(Panel, ColumnSize)>, rects: Seq<Rect>, panel: Panel, n: int) -> Option<Rect>
    decreases n,
{
    if n <= 0 {
        None
    } else if panels[n - 1].0 == panel {
        Some(rects[n - 1])
    } else {
        rect_of(panels, rects, panel, n - 1)
    }
}

/// The main screen's rects from the content and footer rects and the rect
/// each arranged panel got: a panel not arranged gets none.
pub open spec fn spec_assemble(
    content: Rect,
    footer: Rect,
    panels: Seq<(Panel, ColumnSize)>,
    rects: Seq<Rect>,
    single_panel: bool,
) -> MainLayout {
    let n = panels.len() as int;
    MainLayout {
        content,
        footer,
        journals: rect_of(panels, rects, Panel::Journals, n),
        entries: rect_of(panels, rects, Panel::Entries, n),
        reader: rect_of(panels, rects, Panel::Reader, n),
        insights: rect_of(panels, rects, Panel::Insights, n),
        single_panel,
    }
}

/// The footer's rows: as many as asked, at most the screen's height.
pub open spec fn footer_rows(area: Rect, footer_height: u16) -> u16 {
    if footer_height < area.height { footer_height } else { area.height }
}

/// The content over the footer, when the footer fits the screen's rows.
pub open spec fn spec_content(area: Rect, fh: int) -> Rect {
    Rect { height: (span_on(area, Axis::Vertical) - fh) as u16, ..area }
}

/// The footer at the bottom of the screen's rows.
pub open spec fn spec_footer(area: Rect, fh: int) -> Rect {
    Rect { y: (area.y + span_on(area, Axis::Vertical) - fh) as u16, height: fh as u16, ..area }
}

/// What any outcome of the two splits gives: the screen's rows cut into the
/// content and a footer (exactly so when the footer fits), and the content's
/// columns cut among the arranged panels, a lone panel taking it all;
/// columns of lengths and at most one minimum that fit are sized exactly
/// (`plain_fit`), the rest as the solver finds.
pub open spec fn layout_from(
    area: Rect,
    footer_height: u16,
    s: LayoutState,
    widths: ColumnWidths,
    root: Seq<Rect>,
    rects: Seq<Rect>,
    layout: MainLayout,
) -> bool {
    let fh = footer_rows(area, footer_height) as int;
    let panels = spec_arrange_panels(s);
    let rules = column_rules(panels, widths);
    &&& root.len() == 2
    &&& part_of(root[0], area, Axis::Vertical) && part_of(root[1], area, Axis::Vertical)
    &&& fh <= span_on(area, Axis::Vertical) ==> root[0] == spec_content(area, fh) && root[1] == spec_footer(area, fh)
    &&& rects.len() == panels.len()
    &&& panels.len() == 1 ==> rects == seq![root[0]]
    &&& panels.len() != 1 ==> forall|i: int| 0 <= i < rects.len() ==> part_of(#[trigger] rects[i], root[0], Axis::Horizontal)
    &&& panels.len() != 1 && plain_fit(rules, span_on(root[0], Axis::Horizontal)) ==> forall|i: int|
        0 <= i < rects.len() ==> start_on(#[trigger] rects[i], Axis::Horizontal) == root[0].x + plain_start(
            rules,
            span_on(root[0], Axis::Horizontal),
            i,
        ) && size_on(rects[i], Axis::Horizontal) == plain_size(rules, span_on(root[0], Axis::Horizontal), i)
    &&& layout == spec_assemble(root[0], root[1], panels, rects, s.single_panel)
}

fn find_rect(panels: &Vec<(Panel, ColumnSize)>, rects: &Vec<Rect>, panel: Panel) -> (found: Option<Rect>)
    requires
        rects@.len() == panels@.len(),
    ensures
        found == rect_of(panels@, rects@, panel, panels@.len() as int),
{
    let mut found: Option<Rect> = None;
    let mut i: usize = 0;
    while i < panels.len()
        invariant
            i <= panels@.len(),
            rects@.len() == panels@.len(),
            found == rect_of(panels@, rects@, panel, i as int),
        decreases panels@.len() - i,
    {
        if panels[i].0 == panel {
            found = Some(rects[i]);
        }
        i += 1;
    }
    found
}

/// The main screen's rects for a screen `area`, a footer `footer_height`
/// rows tall, the arrangement state (its width-dependent flags taken from
/// `area`'s width, which the content keeps) and the column widths; drawing
/// and mouse hit-testing share them.
pub fn tui_layout(area: Rect, footer_height: u16, s: LayoutState, widths: ColumnWidths) -> (layout: MainLayout)
    ensures
        exists|root: Seq<Rect>, rects: Seq<Rect>| #[trigger] layout_from(area, footer_height, s, widths, root, rects, layout),
        layout.content.width == area.width,
{
    let fh = if footer_height < area.height { footer_height } else { area.height };
    let mut root_rules: Vec<SizeRule> = Vec::new();
    root_rules.push(SizeRule::Min(0));
    root_rules.push(SizeRule::Length(fh));
    let root = split_area(area, Axis::Vertical, Packing::Start, &root_rules);
    proof {
        let r = root_rules@;
        reveal_with_fuel(crate::split::lengths_upto, 4);
        reveal_with_fuel(crate::split::plain_start, 4);
        assert(r[0] is Min && r[1] is Length);
        assert(crate::split::lengths_upto(r, 2) == fh);
        if fh <= span_on(area, Axis::Vertical) {
            assert(plain_fit(r, span_on(area, Axis::Vertical)));
            assert(plain_start(r, span_on(area, Axis::Vertical), 1) == span_on(area, Axis::Vertical) - fh);
            assert(root@[0] == spec_content(area, fh as int));
            assert(root@[1] == spec_footer(area, fh as int));
        }
    }
    let content = root[0];
    let panels = arrange_panels(s);
    proof {
        lemma_arrangement_is_consistent(s);
    }
    let rects = if panels.len() == 1 {
        let mut one: Vec<Rect> = Vec::new();
        one.push(content);
        assert(one@ =~= seq![content]);
        one
    } else {
        let mut rules: Vec<SizeRule> = Vec::new();
        let mut i: usize = 0;
        while i < panels.len()
            invariant
                i <= panels@.len(),
                rules@ == column_rules(panels@.take(i as int), widths),
            decreases panels@.len() - i,
        {
            let rule = match panels[i].1 {
                ColumnSize::JournalList => SizeRule::Length(widths.journal_list),
                ColumnSize::EntryListInline => SizeRule::Length(widths.entry_list_inline),
                ColumnSize::AtLeastEntryListMin => SizeRule::Min(widths.entry_list_min),
                ColumnSize::Rest => SizeRule::Min(0),
            };
            rules.push(rule);
            i += 1;
            assert(rules@ =~= column_rules(panels@.take(i as int), widths));
        }
        assert(panels@.take(panels@.len() as int) =~= panels@);
        split_area(content, Axis::Horizontal, Packing::Start, &rules)
    };
    let layout = MainLayout {
        content,
        footer: root[1],
        journals: find_rect(&panels, &rects, Panel::Journals),
        entries: find_rect(&panels, &rects, Panel::Entries),
        reader: find_rect(&panels, &rects, Panel::Reader),
        insights: find_rect(&panels, &rects, Panel::Insights),
        single_panel: s.single_panel,
    };
    assert(layout_from(area, footer_height, s, widths, root@, rects@, layout));
    layout
}


/// What the entry viewer's pane shows.
#[derive(Clone, Copy, Debug, PartialEq, Eq, Structural)]
pub enum ViewerContent {
    /// The editor, with these side and top margins.
    Editor { side: u16, top: u16 },
    /// The selected entry.
    EntryView,
    /// The journal insights.
    Insights,
}

/// The full-screen viewer's content: the open editor (with tighter margins
/// in single-panel width), else the selected entry.
pub fn fullscreen_content(editor_open: bool, single_panel: bool) -> (content: ViewerContent)
    ensures
        content == if editor_open {
            if single_panel { ViewerContent::Editor { side: 3, top: 1 } } else { ViewerContent::Editor { side: 5, top: 3 } }
        } else {
            ViewerContent::EntryView
        },
{
    if editor_open {
        if single_panel { ViewerContent::Editor { side: 3, top: 1 } } else { ViewerContent::Editor { side: 5, top: 3 } }
    } else {
        ViewerContent::EntryView
    }
}

/// The viewer pane's content beside the lists: the open editor, else the
/// journal insights when they preview an unselected entry, else the
/// selected entry.
pub fn viewer_pane_content(editor_open: bool, insights_preview: bool) -> (content: ViewerContent)
    ensures
        content == if editor_open {
            ViewerContent::Editor { side: 5, top: 3 }
        } else if insights_preview {
            ViewerContent::Insights
        } else {
            ViewerContent::EntryView
        },
{
    if editor_open {
        ViewerContent::Editor { side: 5, top: 3 }
    } else if insights_preview {
        ViewerContent::Insights
    } else {
        ViewerContent::EntryView
    }
}

} // verus!
