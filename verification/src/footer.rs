//! The footer's key hints: which hints each app state offers, and their grid
//! layout, height and click routing in both the regular and the expanded
//! (full-screen entry) footer.
use vstd::prelude::*;
use crate::hints::{
    Hint, HintId, RenderedHintLine, hint_bounded, hint_height, hints_short, hint_id_at_wrapped,
    join_lines, join_rendered_texts, line_texts, placement_at, rendered_hint_lines,
    spec_hint_height, spec_hint_id_at_wrapped, spec_placement_at, spec_rendered_hint_lines,
    lemma_rendered_placements_bounded,
};
use crate::geometry::{sat_add_u16, sat_sub};

verus! {

/// Whether the app browses journals or shows search results.
#[derive(Clone, Copy, Debug, PartialEq, Eq, Structural)]
pub enum Mode {
    Browse,
    Search,
}

/// Which column owns the keyboard.
#[derive(Clone, Copy, Debug, PartialEq, Eq, Structural)]
pub enum Focus {
    Journals,
    Entries,
    EntryView,
    Insights,
}

/// What the footer reads of the app state.
#[derive(Clone, Copy, Debug)]
pub struct FooterContext {
    /// The internal editor is open (its own footer replaces the app's).
    pub editor_open: bool,
    /// The `[ui] show_hints` setting.
    pub show_hints: bool,
    pub mode: Mode,
    pub focus: Focus,
    /// An entry (or search hit) is selected and can be acted on.
    pub has_selected_entry_target: bool,
    /// Images embedded in the selected entry.
    pub selected_entry_image_count: usize,
    /// `Some(archived)` for the selected journal, `None` when none is selected.
    pub selected_journal_archived: Option<bool>,
    /// The journals column is shown.
    pub show_journals: bool,
    /// The active insights tab responds to the rolling time window.
    pub insights_uses_timeframe: bool,
    pub insights_fullscreen: bool,
    /// The entry view fills the screen in multi-column layout.
    pub entry_view_fullscreen: bool,
}

/// A hint as a spec value.
pub open spec fn mk(label: &'static str, key_hint: &'static str, id: HintId) -> Hint {
    Hint { label, key_hint, id }
}

/// An optional hint as a zero- or one-element list.
pub open spec fn opt_hint(hint: Option<Hint>) -> Seq<Hint> {
    match hint {
        Some(hint) => seq![hint],
        None => Seq::empty(),
    }
}

pub open spec fn settings_hint() -> Hint {
    mk("settings", ",", HintId::OpenSettings)
}

pub open spec fn view_enter_hint() -> Hint {
    mk("view", "enter", HintId::ViewSelected)
}

pub open spec fn expand_enter_hint() -> Hint {
    mk("expand", "enter", HintId::ExpandEntryView)
}

pub open spec fn spec_editor_footer_hints() -> Seq<Hint> {
    seq![
        mk("save", "ctrl+s", HintId::EditorSave),
        mk("discard", "esc", HintId::EditorDiscard),
        mk("fullscreen", "ctrl+o", HintId::EditorFullscreen),
        mk("metadata", "ctrl+g", HintId::EditorMetadata),
        mk("shortcuts", "ctrl+t", HintId::EditorHelp),
    ]
}

pub open spec fn spec_image_hint(ctx: FooterContext) -> Option<Hint> {
    if ctx.selected_entry_image_count > 0 {
        Some(mk("images", "i", HintId::OpenImageViewer))
    } else {
        None
    }
}

pub open spec fn spec_archive_hint(ctx: FooterContext) -> Option<Hint> {
    match ctx.selected_journal_archived {
        Some(archived) => Some(
            mk(
                if archived {
                    "unarchive"
                } else {
                    "archive"
                },
                "a",
                HintId::ToggleArchiveJournal,
            ),
        ),
        None => None,
    }
}

pub open spec fn spec_journals_hint(ctx: FooterContext) -> Hint {
    mk(
        if ctx.show_journals {
            "hide journals"
        } else {
            "journals"
        },
        "j",
        HintId::ToggleJournals,
    )
}

pub open spec fn spec_selected_entry_action_hints(enter: Option<Hint>) -> Seq<Hint> {
    seq![mk("edit", "e", HintId::EditSelected)] + opt_hint(enter) + seq![
        mk("del", "d", HintId::BeginDelete),
        mk("metadata", "ctrl+g", HintId::OpenMetadataMenu),
    ]
}

pub open spec fn spec_close_entry_view_hint(ctx: FooterContext) -> Hint {
    mk(
        "close",
        if ctx.entry_view_fullscreen {
            "enter/esc"
        } else {
            "enter/esc/←"
        },
        HintId::CloseEntryView,
    )
}

/// The tail every browse-mode footer ends with.
pub open spec fn browse_tail(ctx: FooterContext) -> Seq<Hint> {
    seq![
        mk("search", "/", HintId::BeginSearch),
        spec_journals_hint(ctx),
        settings_hint(),
        mk("hints", "h", HintId::HintsToggle),
        mk("quit", "q", HintId::Quit),
    ]
}

pub open spec fn spec_search_footer_hints(ctx: FooterContext) -> Seq<Hint> {
    match ctx.focus {
        Focus::EntryView => if ctx.has_selected_entry_target {
            spec_selected_entry_action_hints(Some(expand_enter_hint())) + opt_hint(
                spec_image_hint(ctx),
            ) + seq![mk("exit search", "esc", HintId::ExitSearch), mk("quit", "q", HintId::Quit)]
        } else {
            seq![mk("exit search", "esc", HintId::ExitSearch), mk("quit", "q", HintId::Quit)]
        },
        _ => (if ctx.has_selected_entry_target {
            seq![view_enter_hint()]
        } else {
            Seq::empty()
        }) + seq![mk("exit search", "esc", HintId::ExitSearch)],
    }
}

pub open spec fn spec_browse_footer_hints(ctx: FooterContext) -> Seq<Hint> {
    match ctx.focus {
        Focus::Journals => seq![mk("new journal", "n", HintId::NewJournal)] + opt_hint(
            spec_archive_hint(ctx),
        ) + browse_tail(ctx),
        Focus::Insights => seq![
            mk("tabs", "←/→", HintId::InsightsTab),
            mk("scope", "g", HintId::InsightsScope),
        ] + (if ctx.insights_uses_timeframe {
            seq![mk("window", "w", HintId::InsightsTimeframe)]
        } else {
            Seq::empty()
        }) + seq![
            if ctx.insights_fullscreen {
                mk("close", "enter/esc", HintId::CloseInsights)
            } else {
                mk("expand", "enter", HintId::ExpandInsights)
            },
        ] + browse_tail(ctx),
        Focus::Entries => seq![mk("new entry", "n", HintId::NewEntry)] + (if ctx.has_selected_entry_target {
            spec_selected_entry_action_hints(Some(view_enter_hint()))
        } else {
            Seq::empty()
        }) + browse_tail(ctx),
        Focus::EntryView => seq![mk("new entry", "n", HintId::NewEntry)] + (
        if ctx.has_selected_entry_target {
            spec_selected_entry_action_hints(Some(expand_enter_hint()))
        } else {
            Seq::empty()
        }) + opt_hint(spec_image_hint(ctx)) + browse_tail(ctx),
    }
}

pub open spec fn spec_expanded_footer_hints(ctx: FooterContext) -> Seq<Hint> {
    (if ctx.mode == Mode::Browse {
        seq![mk("new entry", "n", HintId::NewEntry)]
    } else {
        Seq::empty()
    }) + (if ctx.has_selected_entry_target {
        seq![
            mk("edit", "e", HintId::EditSelected),
            spec_close_entry_view_hint(ctx),
            mk("del", "d", HintId::BeginDelete),
            mk("metadata", "ctrl+g", HintId::OpenMetadataMenu),
            mk("star", "s", HintId::ToggleStarred),
        ] + opt_hint(spec_image_hint(ctx))
    } else {
        seq![spec_close_entry_view_hint(ctx)]
    }) + (if ctx.mode == Mode::Browse {
        seq![mk("search", "/", HintId::BeginSearch)]
    } else {
        Seq::empty()
    }) + seq![mk("hints", "h", HintId::HintsToggle), mk("quit", "q", HintId::Quit)]
}

/// Every key and label the footer uses is short.
proof fn lemma_footer_literals_short()
    ensures
        "save"@.len() <= 64,
        "ctrl+s"@.len() <= 64,
        "discard"@.len() <= 64,
        "esc"@.len() <= 64,
        "fullscreen"@.len() <= 64,
        "ctrl+o"@.len() <= 64,
        "metadata"@.len() <= 64,
        "ctrl+g"@.len() <= 64,
        "shortcuts"@.len() <= 64,
        "ctrl+t"@.len() <= 64,
        "images"@.len() <= 64,
        "i"@.len() <= 64,
        "unarchive"@.len() <= 64,
        "archive"@.len() <= 64,
        "a"@.len() <= 64,
        "hide journals"@.len() <= 64,
        "journals"@.len() <= 64,
        "j"@.len() <= 64,
        "edit"@.len() <= 64,
        "e"@.len() <= 64,
        "del"@.len() <= 64,
        "d"@.len() <= 64,
        "close"@.len() <= 64,
        "enter/esc"@.len() <= 64,
        "enter/esc/←"@.len() <= 64,
        "search"@.len() <= 64,
        "/"@.len() <= 64,
        "settings"@.len() <= 64,
        ","@.len() <= 64,
        "hints"@.len() <= 64,
        "h"@.len() <= 64,
        "quit"@.len() <= 64,
        "q"@.len() <= 64,
        "view"@.len() <= 64,
        "enter"@.len() <= 64,
        "expand"@.len() <= 64,
        "exit search"@.len() <= 64,
        "new journal"@.len() <= 64,
        "n"@.len() <= 64,
        "tabs"@.len() <= 64,
        "←/→"@.len() <= 64,
        "scope"@.len() <= 64,
        "g"@.len() <= 64,
        "window"@.len() <= 64,
        "w"@.len() <= 64,
        "new entry"@.len() <= 64,
        "star"@.len() <= 64,
        "s"@.len() <= 64,
{
    reveal_strlit("save");
    reveal_strlit("ctrl+s");
    reveal_strlit("discard");
    reveal_strlit("esc");
    reveal_strlit("fullscreen");
    reveal_strlit("ctrl+o");
    reveal_strlit("metadata");
    reveal_strlit("ctrl+g");
    reveal_strlit("shortcuts");
    reveal_strlit("ctrl+t");
    reveal_strlit("images");
    reveal_strlit("i");
    reveal_strlit("unarchive");
    reveal_strlit("archive");
    reveal_strlit("a");
    reveal_strlit("hide journals");
    reveal_strlit("journals");
    reveal_strlit("j");
    reveal_strlit("edit");
    reveal_strlit("e");
    reveal_strlit("del");
    reveal_strlit("d");
    reveal_strlit("close");
    reveal_strlit("enter/esc");
    reveal_strlit("enter/esc/←");
    reveal_strlit("search");
    reveal_strlit("/");
    reveal_strlit("settings");
    reveal_strlit(",");
    reveal_strlit("hints");
    reveal_strlit("h");
    reveal_strlit("quit");
    reveal_strlit("q");
    reveal_strlit("view");
    reveal_strlit("enter");
    reveal_strlit("expand");
    reveal_strlit("exit search");
    reveal_strlit("new journal");
    reveal_strlit("n");
    reveal_strlit("tabs");
    reveal_strlit("←/→");
    reveal_strlit("scope");
    reveal_strlit("g");
    reveal_strlit("window");
    reveal_strlit("w");
    reveal_strlit("new entry");
    reveal_strlit("star");
    reveal_strlit("s");
}

/// A row of footer hints, laid out as a justified grid.
#[derive(Debug)]
pub struct HintLine {
    hints: Vec<Hint>,
}

impl View for HintLine {
    type V = Seq<Hint>;

    closed spec fn view(&self) -> Seq<Hint> {
        self.hints@
    }
}

impl HintLine {
    fn from_hints(hints: Vec<Hint>) -> (line: HintLine)
        ensures
            line@ == hints@,
    {
        HintLine { hints }
    }

    /// The laid-out rows.
    pub fn rendered_lines(&self, width: u16) -> (lines: Vec<RenderedHintLine>)
        requires
            hints_short(self@),
        ensures
            lines@.len() == spec_rendered_hint_lines(self@, width as int).len(),
            forall|r: int|
                0 <= r < lines@.len() ==> (#[trigger] lines@[r])@ == spec_rendered_hint_lines(
                    self@,
                    width as int,
                )[r],
    {
        rendered_hint_lines(self.hints.as_slice(), width)
    }

    /// The rows the hints occupy, at least one.
    pub fn height(&self, width: u16) -> (height: u16)
        requires
            hints_short(self@),
        ensures
            height == spec_hint_height(self@, width as int),
    {
        hint_height(self.hints.as_slice(), width)
    }

    /// The hint under `(col, row)` of the grid drawn from `(origin_x, origin_y)`.
    pub fn hint_id_at_point(&self, origin_x: u16, origin_y: u16, width: u16, col: u16, row: u16) -> (id:
        Option<HintId>)
        requires
            hints_short(self@),
        ensures
            id == spec_hint_id_at_wrapped(
                self@,
                origin_x as int,
                origin_y as int,
                width as int,
                col as int,
                row as int,
            ),
    {
        hint_id_at_wrapped(self.hints.as_slice(), origin_x, origin_y, width, col, row)
    }
}

/// Footer hints shown while the internal editor is open.
pub fn editor_footer_line() -> (line: HintLine)
    ensures
        line@ == spec_editor_footer_hints(),
        hints_short(line@),
{
    let mut hints = Vec::new();
    hints.push(Hint::new("save", "ctrl+s", HintId::EditorSave));
    hints.push(Hint::new("discard", "esc", HintId::EditorDiscard));
    hints.push(Hint::new("fullscreen", "ctrl+o", HintId::EditorFullscreen));
    hints.push(Hint::new("metadata", "ctrl+g", HintId::EditorMetadata));
    hints.push(Hint::new("shortcuts", "ctrl+t", HintId::EditorHelp));
    proof {
        lemma_footer_literals_short();
    }
    assert(hints@ =~= spec_editor_footer_hints());
    HintLine::from_hints(hints)
}

/// Append a bounded hint to a list of bounded hints.
fn push_hint(hints: &mut Vec<Hint>, hint: Hint)
    requires
        hint_bounded(hint),
        hints_short(old(hints)@),
    ensures
        final(hints)@ == old(hints)@.push(hint),
        hints_short(final(hints)@),
{
    hints.push(hint);
}

/// Append an optional bounded hint.
fn push_opt_hint(hints: &mut Vec<Hint>, hint: Option<Hint>)
    requires
        hint matches Some(h) ==> hint_bounded(h),
        hints_short(old(hints)@),
    ensures
        final(hints)@ == old(hints)@ + opt_hint(hint),
        hints_short(final(hints)@),
{
    if let Some(h) = hint {
        hints.push(h);
    }
    assert(final(hints)@ =~= old(hints)@ + opt_hint(hint)) by {
        assert(hints@ =~= old(hints)@ + opt_hint(hint));
    }
}

/// The `images (i)` hint, shown only when the selected entry has images.
pub fn image_hint(ctx: &FooterContext) -> (hint: Option<Hint>)
    ensures
        hint == spec_image_hint(*ctx),
        hint matches Some(h) ==> hint_bounded(h),
{
    proof {
        lemma_footer_literals_short();
    }
    if ctx.selected_entry_image_count > 0 {
        Some(Hint::new("images", "i", HintId::OpenImageViewer))
    } else {
        None
    }
}

/// The `archive`/`unarchive (a)` hint, shown only when a journal is selected;
/// the label reflects the selected journal's current state.
pub fn archive_hint(ctx: &FooterContext) -> (hint: Option<Hint>)
    ensures
        hint == spec_archive_hint(*ctx),
        hint matches Some(h) ==> hint_bounded(h),
{
    proof {
        lemma_footer_literals_short();
    }
    match ctx.selected_journal_archived {
        Some(archived) => {
            let label = if archived {
                "unarchive"
            } else {
                "archive"
            };
            Some(Hint::new(label, "a", HintId::ToggleArchiveJournal))
        },
        None => None,
    }
}

/// The journals-column toggle; its label says what pressing it will do.
pub fn journals_hint(ctx: &FooterContext) -> (hint: Hint)
    ensures
        hint == spec_journals_hint(*ctx),
        hint_bounded(hint),
{
    proof {
        lemma_footer_literals_short();
    }
    let label = if ctx.show_journals {
        "hide journals"
    } else {
        "journals"
    };
    Hint::new(label, "j", HintId::ToggleJournals)
}

/// The edit/enter/del/metadata action hints for a selected entry. `enter`
/// differs by focus (view from the list, expand from the focused viewer);
/// `None` omits it.
pub fn selected_entry_action_hints(enter: Option<Hint>) -> (hints: Vec<Hint>)
    requires
        enter matches Some(h) ==> hint_bounded(h),
    ensures
        hints@ == spec_selected_entry_action_hints(enter),
        hints_short(hints@),
        hints@.len() <= 4,
{
    proof {
        lemma_footer_literals_short();
    }
    let mut hints = Vec::new();
    push_hint(&mut hints, Hint::new("edit", "e", HintId::EditSelected));
    push_opt_hint(&mut hints, enter);
    push_hint(&mut hints, Hint::new("del", "d", HintId::BeginDelete));
    push_hint(&mut hints, Hint::new("metadata", "ctrl+g", HintId::OpenMetadataMenu));
    assert(hints@ =~= spec_selected_entry_action_hints(enter));
    hints
}

/// The `close` hint for the full-screen viewer: Enter and Esc always close
/// it; single-column full screen also exits on Left.
pub fn close_entry_view_hint(ctx: &FooterContext) -> (hint: Hint)
    ensures
        hint == spec_close_entry_view_hint(*ctx),
        hint_bounded(hint),
{
    proof {
        lemma_footer_literals_short();
    }
    let keys = if ctx.entry_view_fullscreen {
        "enter/esc"
    } else {
        "enter/esc/←"
    };
    Hint::new("close", keys, HintId::CloseEntryView)
}

/// Append every hint of `more` to `hints`.
fn extend_hints(hints: &mut Vec<Hint>, more: Vec<Hint>)
    requires
        hints_short(old(hints)@),
        hints_short(more@),
    ensures
        final(hints)@ == old(hints)@ + more@,
        hints_short(final(hints)@),
{
    let mut i = 0usize;
    while i < more.len()
        invariant
            i <= more@.len(),
            hints_short(more@),
            hints_short(hints@),
            hints@ == old(hints)@ + more@.take(i as int),
        decreases more@.len() - i,
    {
        assert(hint_bounded(more@[i as int]));
        hints.push(more[i]);
        i += 1;
        assert(hints@ =~= old(hints)@ + more@.take(i as int));
    }
    assert(more@.take(more@.len() as int) =~= more@);
}

/// The tail every browse-mode footer ends with.
fn push_browse_tail(hints: &mut Vec<Hint>, ctx: &FooterContext)
    requires
        hints_short(old(hints)@),
    ensures
        final(hints)@ == old(hints)@ + browse_tail(*ctx),
        hints_short(final(hints)@),
{
    proof {
        lemma_footer_literals_short();
    }
    push_hint(hints, Hint::new("search", "/", HintId::BeginSearch));
    push_hint(hints, journals_hint(ctx));
    push_hint(hints, Hint::new("settings", ",", HintId::OpenSettings));
    push_hint(hints, Hint::new("hints", "h", HintId::HintsToggle));
    push_hint(hints, Hint::new("quit", "q", HintId::Quit));
    assert(hints@ =~= old(hints)@ + browse_tail(*ctx));
}

/// The footer while search results are shown. The query itself sits on the
/// entry panel's border, so the footer only carries the action hints.
pub fn search_footer_line(ctx: &FooterContext) -> (line: HintLine)
    ensures
        line@ == spec_search_footer_hints(*ctx),
        hints_short(line@),
{
    proof {
        lemma_footer_literals_short();
    }
    let mut hints: Vec<Hint> = Vec::new();
    match ctx.focus {
        Focus::EntryView => {
            if ctx.has_selected_entry_target {
                let actions = selected_entry_action_hints(
                    Some(Hint::new("expand", "enter", HintId::ExpandEntryView)),
                );
                extend_hints(&mut hints, actions);
                push_opt_hint(&mut hints, image_hint(ctx));
            }
            push_hint(&mut hints, Hint::new("exit search", "esc", HintId::ExitSearch));
            push_hint(&mut hints, Hint::new("quit", "q", HintId::Quit));
        },
        _ => {
            if ctx.has_selected_entry_target {
                push_hint(&mut hints, Hint::new("view", "enter", HintId::ViewSelected));
            }
            push_hint(&mut hints, Hint::new("exit search", "esc", HintId::ExitSearch));
        },
    }
    assert(hints@ =~= spec_search_footer_hints(*ctx));
    HintLine::from_hints(hints)
}

/// The footer while browsing: the hints for the focused column.
pub fn browse_footer_line(ctx: &FooterContext) -> (line: HintLine)
    ensures
        line@ == spec_browse_footer_hints(*ctx),
        hints_short(line@),
{
    proof {
        lemma_footer_literals_short();
    }
    let mut hints: Vec<Hint> = Vec::new();
    match ctx.focus {
        Focus::Journals => {
            push_hint(&mut hints, Hint::new("new journal", "n", HintId::NewJournal));
            push_opt_hint(&mut hints, archive_hint(ctx));
        },
        Focus::Insights => {
            push_hint(&mut hints, Hint::new("tabs", "←/→", HintId::InsightsTab));
            push_hint(&mut hints, Hint::new("scope", "g", HintId::InsightsScope));
            if ctx.insights_uses_timeframe {
                push_hint(&mut hints, Hint::new("window", "w", HintId::InsightsTimeframe));
            }
            if ctx.insights_fullscreen {
                push_hint(&mut hints, Hint::new("close", "enter/esc", HintId::CloseInsights));
            } else {
                push_hint(&mut hints, Hint::new("expand", "enter", HintId::ExpandInsights));
            }
        },
        Focus::Entries => {
            push_hint(&mut hints, Hint::new("new entry", "n", HintId::NewEntry));
            if ctx.has_selected_entry_target {
                let actions = selected_entry_action_hints(
                    Some(Hint::new("view", "enter", HintId::ViewSelected)),
                );
                extend_hints(&mut hints, actions);
            }
        },
        Focus::EntryView => {
            push_hint(&mut hints, Hint::new("new entry", "n", HintId::NewEntry));
            if ctx.has_selected_entry_target {
                let actions = selected_entry_action_hints(
                    Some(Hint::new("expand", "enter", HintId::ExpandEntryView)),
                );
                extend_hints(&mut hints, actions);
            }
            push_opt_hint(&mut hints, image_hint(ctx));
        },
    }
    push_browse_tail(&mut hints, ctx);
    assert(hints@ =~= spec_browse_footer_hints(*ctx));
    HintLine::from_hints(hints)
}

/// The expanded (full-screen entry) footer's hints.
pub fn expanded_footer_hints(ctx: &FooterContext) -> (hints: Vec<Hint>)
    ensures
        hints@ == spec_expanded_footer_hints(*ctx),
        hints_short(hints@),
{
    proof {
        lemma_footer_literals_short();
    }
    let mut hints: Vec<Hint> = Vec::new();
    if ctx.mode == Mode::Browse {
        push_hint(&mut hints, Hint::new("new entry", "n", HintId::NewEntry));
    }
    if ctx.has_selected_entry_target {
        push_hint(&mut hints, Hint::new("edit", "e", HintId::EditSelected));
        push_hint(&mut hints, close_entry_view_hint(ctx));
        push_hint(&mut hints, Hint::new("del", "d", HintId::BeginDelete));
        push_hint(&mut hints, Hint::new("metadata", "ctrl+g", HintId::OpenMetadataMenu));
        push_hint(&mut hints, Hint::new("star", "s", HintId::ToggleStarred));
        push_opt_hint(&mut hints, image_hint(ctx));
    } else {
        push_hint(&mut hints, close_entry_view_hint(ctx));
    }
    if ctx.mode == Mode::Browse {
        push_hint(&mut hints, Hint::new("search", "/", HintId::BeginSearch));
    }
    push_hint(&mut hints, Hint::new("hints", "h", HintId::HintsToggle));
    push_hint(&mut hints, Hint::new("quit", "q", HintId::Quit));
    assert(hints@ =~= spec_expanded_footer_hints(*ctx));
    hints
}

/// The app footer's hints for the current mode (the editor's aside).
pub open spec fn spec_footer_hints(ctx: FooterContext) -> Seq<Hint> {
    match ctx.mode {
        Mode::Search => spec_search_footer_hints(ctx),
        Mode::Browse => spec_browse_footer_hints(ctx),
    }
}

/// The hints the footer lays out: the editor's while it is open.
pub open spec fn spec_active_footer_hints(ctx: FooterContext) -> Seq<Hint> {
    if ctx.editor_open {
        spec_editor_footer_hints()
    } else {
        spec_footer_hints(ctx)
    }
}

/// The footer's justified rows as text.
pub open spec fn spec_grid_text(hints: Seq<Hint>, width: int) -> Seq<char> {
    join_lines(line_texts(spec_rendered_hint_lines(hints, width)))
}

fn footer_line(ctx: &FooterContext) -> (line: HintLine)
    ensures
        line@ == spec_active_footer_hints(*ctx),
        hints_short(line@),
{
    if ctx.editor_open {
        editor_footer_line()
    } else {
        match ctx.mode {
            Mode::Search => search_footer_line(ctx),
            Mode::Browse => browse_footer_line(ctx),
        }
    }
}

/// The footer's justified rows joined by newlines.
pub fn footer_text(ctx: &FooterContext, width: u16) -> (text: String)
    ensures
        text@ == spec_grid_text(spec_active_footer_hints(*ctx), width as int),
{
    let line = footer_line(ctx);
    let lines = line.rendered_lines(width);
    let text = join_rendered_texts(&lines);
    assert(lines@.map_values(|l: RenderedHintLine| l@) =~= spec_rendered_hint_lines(
        spec_active_footer_hints(*ctx),
        width as int,
    ));
    text
}

/// Rows the footer needs: the editor's hints while it is open, nothing when
/// hints are hidden, else the current mode's hints.
pub fn footer_height(ctx: &FooterContext, width: u16) -> (height: u16)
    ensures
        height == (if !ctx.editor_open && !ctx.show_hints {
            0
        } else {
            spec_hint_height(spec_active_footer_hints(*ctx), width as int)
        }),
{
    if !ctx.editor_open && !ctx.show_hints {
        return 0;
    }
    footer_line(ctx).height(width)
}

/// The hint under column `col` of the footer's first row.
pub fn footer_hint_id_at(ctx: &FooterContext, origin_x: u16, width: u16, col: u16) -> (id: Option<
    HintId,
>)
    ensures
        id == ({
            let lines = spec_rendered_hint_lines(spec_active_footer_hints(*ctx), width as int);
            if lines.len() == 0 {
                None
            } else {
                spec_placement_at(lines[0].1, origin_x as int, col as int)
            }
        }),
{
    let line = footer_line(ctx);
    let lines = line.rendered_lines(width);
    if lines.len() == 0 {
        return None;
    }
    proof {
        lemma_rendered_placements_bounded(spec_active_footer_hints(*ctx), width as int);
        assert(lines@[0]@ == spec_rendered_hint_lines(spec_active_footer_hints(*ctx), width as int)[0]);
    }
    placement_at(lines[0].placements.as_slice(), origin_x, col)
}

/// The footer hint under `(col, row)`, the footer drawn from
/// `(origin_x, origin_y)`; `None` while hints are hidden.
pub fn footer_hint_id_at_point(
    ctx: &FooterContext,
    origin_x: u16,
    origin_y: u16,
    width: u16,
    col: u16,
    row: u16,
) -> (id: Option<HintId>)
    ensures
        id == (if !ctx.editor_open && !ctx.show_hints {
            None
        } else {
            spec_hint_id_at_wrapped(
                spec_active_footer_hints(*ctx),
                origin_x as int,
                origin_y as int,
                width as int,
                col as int,
                row as int,
            )
        }),
{
    if !ctx.editor_open && !ctx.show_hints {
        return None;
    }
    footer_line(ctx).hint_id_at_point(origin_x, origin_y, width, col, row)
}

/// The expanded footer's justified rows joined by newlines; the grid sits one
/// column in from the left edge.
pub fn expanded_footer_text(ctx: &FooterContext, width: u16) -> (text: String)
    ensures
        text@ == (if ctx.editor_open {
            spec_grid_text(spec_editor_footer_hints(), width as int)
        } else {
            spec_grid_text(spec_expanded_footer_hints(*ctx), sat_sub(width as int, 1))
        }),
{
    if ctx.editor_open {
        let line = editor_footer_line();
        let lines = line.rendered_lines(width);
        let text = join_rendered_texts(&lines);
        assert(lines@.map_values(|l: RenderedHintLine| l@) =~= spec_rendered_hint_lines(
            spec_editor_footer_hints(),
            width as int,
        ));
        return text;
    }
    let hints = expanded_footer_hints(ctx);
    let inner = width.saturating_sub(1);
    let lines = rendered_hint_lines(hints.as_slice(), inner);
    let text = join_rendered_texts(&lines);
    assert(lines@.map_values(|l: RenderedHintLine| l@) =~= spec_rendered_hint_lines(
        spec_expanded_footer_hints(*ctx),
        inner as int,
    ));
    text
}

/// Rows the expanded footer needs.
pub fn expanded_footer_height(ctx: &FooterContext, width: u16) -> (height: u16)
    ensures
        height == (if ctx.editor_open {
            spec_hint_height(spec_editor_footer_hints(), width as int)
        } else if !ctx.show_hints {
            0
        } else {
            spec_hint_height(spec_expanded_footer_hints(*ctx), sat_sub(width as int, 1))
        }),
{
    if ctx.editor_open {
        return editor_footer_line().height(width);
    }
    if !ctx.show_hints {
        return 0;
    }
    let hints = expanded_footer_hints(ctx);
    hint_height(hints.as_slice(), width.saturating_sub(1))
}

/// The expanded-footer hint under `(col, row)`.
pub fn expanded_footer_hint_id_at_point(
    ctx: &FooterContext,
    origin_x: u16,
    origin_y: u16,
    width: u16,
    col: u16,
    row: u16,
) -> (id: Option<HintId>)
    ensures
        id == (if ctx.editor_open {
            spec_hint_id_at_wrapped(
                spec_editor_footer_hints(),
                origin_x as int,
                origin_y as int,
                width as int,
                col as int,
                row as int,
            )
        } else if !ctx.show_hints {
            None
        } else {
            spec_hint_id_at_wrapped(
                spec_expanded_footer_hints(*ctx),
                sat_add_u16(origin_x as int, 1),
                origin_y as int,
                sat_sub(width as int, 1),
                col as int,
                row as int,
            )
        }),
{
    if ctx.editor_open {
        return editor_footer_line().hint_id_at_point(origin_x, origin_y, width, col, row);
    }
    if !ctx.show_hints {
        return None;
    }
    let hints = expanded_footer_hints(ctx);
    hint_id_at_wrapped(
        hints.as_slice(),
        origin_x.saturating_add(1),
        origin_y,
        width.saturating_sub(1),
        col,
        row,
    )
}

} // verus!
