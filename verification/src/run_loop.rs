//! The event loop's own bookkeeping, one decision at a time: when a watched
//! change schedules a library refresh, what the startup validation's answer
//! becomes, where an input event goes, when a debounced refresh or theme
//! reload is due, when mouse capture is re-asserted, and whether a frame is
//! drawn (and the screen cleared first). Times are nanoseconds on one
//! monotonic clock; the loop around the library reads the clock and the
//! terminal, performs each action, and feeds the results back.
use vstd::prelude::*;
use crate::runtime::initial_library_result_is_stale;

verus! {

/// The quiet period a watched change waits before the library refreshes (or
/// the theme reloads), so a burst of writes coalesces into one reload.
pub const REFRESH_DEBOUNCE_NANOS: u64 = 400_000_000;

/// How long after start-up mouse capture is enabled a second time.
pub const MOUSE_REASSERT_NANOS: u64 = 250_000_000;

/// What the loop remembers between iterations.
#[derive(Clone, Copy, Debug, PartialEq, Eq, Structural)]
pub struct LoopState {
    /// A watched change landed while the startup validation was running.
    pub validation_dirty: bool,
    /// The startup validation has answered (or there is none).
    pub validation_finished: bool,
    /// When the debounced library refresh is due.
    pub refresh_at: Option<u64>,
    /// When the debounced theme reload is due.
    pub theme_reload_at: Option<u64>,
    /// When mouse capture is re-asserted.
    pub reassert_mouse_at: Option<u64>,
    /// An overlay was on screen at the last frame.
    pub overlay_was_visible: bool,
}

/// `a + b`, capped at `u64::MAX`.
pub open spec fn sat_add64(a: int, b: int) -> int {
    if a + b > u64::MAX { u64::MAX as int } else { a + b }
}

/// The state the loop starts in: no refresh or reload scheduled, mouse
/// capture re-asserted shortly after `now`, the validation finished only if
/// there is none.
pub open spec fn spec_start(now: u64, validating: bool, overlay_visible: bool) -> LoopState {
    LoopState {
        validation_dirty: false,
        validation_finished: !validating,
        refresh_at: None,
        theme_reload_at: None,
        reassert_mouse_at: Some(sat_add64(now as int, MOUSE_REASSERT_NANOS as int) as u64),
        overlay_was_visible: overlay_visible,
    }
}

pub fn start_state(now: u64, validating: bool, overlay_visible: bool) -> (state: LoopState)
    ensures
        state == spec_start(now, validating, overlay_visible),
{
    LoopState {
        validation_dirty: false,
        validation_finished: !validating,
        refresh_at: None,
        theme_reload_at: None,
        reassert_mouse_at: Some(now.saturating_add(MOUSE_REASSERT_NANOS)),
        overlay_was_visible: overlay_visible,
    }
}

/// Watched library changes: any change (re)starts the refresh's quiet
/// period, and one landing before the validation answered marks its answer
/// as possibly stale.
pub open spec fn spec_on_library_changes(s: LoopState, changed: usize, now: u64) -> LoopState {
    if changed == 0 {
        s
    } else {
        LoopState {
            validation_dirty: s.validation_dirty || !s.validation_finished,
            refresh_at: Some(sat_add64(now as int, REFRESH_DEBOUNCE_NANOS as int) as u64),
            ..s
        }
    }
}

pub fn on_library_changes(s: LoopState, changed: usize, now: u64) -> (next: LoopState)
    ensures
        next == spec_on_library_changes(s, changed, now),
{
    if changed == 0 {
        s
    } else {
        LoopState {
            validation_dirty: s.validation_dirty || !s.validation_finished,
            refresh_at: Some(now.saturating_add(REFRESH_DEBOUNCE_NANOS)),
            ..s
        }
    }
}

/// What the startup validation's answer becomes.
#[derive(Clone, Copy, Debug, PartialEq, Eq, Structural)]
pub enum ValidationOutcome {
    /// The snapshot may predate a change: rebuild from the current tree.
    Stale,
    /// Install the validated snapshot.
    Validated,
    /// Report the failure.
    Failed,
}

/// An answer (`Some(true)` for a snapshot, `Some(false)` for an error,
/// `None` for none yet): a snapshot is stale when a change landed during the
/// validation or the library was rebuilt since it started; any answer
/// finishes the validation.
pub open spec fn spec_on_validation(
    s: LoopState,
    answer: Option<bool>,
    started_at: Option<u64>,
    current: u64,
) -> (LoopState, Option<ValidationOutcome>) {
    match answer {
        None => (s, None),
        Some(ok) => (
            LoopState { validation_finished: true, ..s },
            Some(if !ok {
                ValidationOutcome::Failed
            } else if s.validation_dirty || (started_at matches Some(g) && g != current) {
                ValidationOutcome::Stale
            } else {
                ValidationOutcome::Validated
            }),
        ),
    }
}

pub fn on_validation(s: LoopState, answer: Option<bool>, started_at: Option<u64>, current: u64) -> (out: (
    LoopState,
    Option<ValidationOutcome>,
))
    ensures
        out == spec_on_validation(s, answer, started_at, current),
{
    match answer {
        None => (s, None),
        Some(ok) => {
            let outcome = if !ok {
                ValidationOutcome::Failed
            } else if initial_library_result_is_stale(started_at, current, s.validation_dirty) {
                ValidationOutcome::Stale
            } else {
                ValidationOutcome::Validated
            };
            (LoopState { validation_finished: true, ..s }, Some(outcome))
        },
    }
}

/// Whether mouse capture is re-asserted now (once, when its time has come).
pub open spec fn spec_reassert_mouse(s: LoopState, now: u64) -> (LoopState, bool) {
    match s.reassert_mouse_at {
        Some(at) if now >= at => (LoopState { reassert_mouse_at: None, ..s }, true),
        _ => (s, false),
    }
}

pub fn reassert_mouse(s: LoopState, now: u64) -> (out: (LoopState, bool))
    ensures
        out == spec_reassert_mouse(s, now),
{
    match s.reassert_mouse_at {
        Some(at) => if now >= at {
            (LoopState { reassert_mouse_at: None, ..s }, true)
        } else {
            (s, false)
        },
        None => (s, false),
    }
}

/// An input event, as far as the loop tells them apart.
#[derive(Clone, Copy, Debug, PartialEq, Eq, Structural)]
pub enum LoopEvent {
    KeyPress,
    KeyRepeat,
    KeyRelease,
    MouseWheel,
    MouseMoved,
    MouseOther,
    Paste,
    Resize,
    Other,
}

/// Where an event goes.
#[derive(Clone, Copy, Debug, PartialEq, Eq, Structural)]
pub enum EventRoute {
    /// Dropped without a redraw.
    Ignore,
    /// Clear the hover (back to keyboard mode), then handle the key.
    Key,
    /// Drain the queued wheel burst and apply its net movement at once.
    WheelBurst,
    /// Coalesce the motion burst and update the hover.
    Hover,
    /// Handle the mouse event.
    Mouse,
    /// Handle the pasted text.
    Paste,
    /// Just redraw.
    Redraw,
}

/// Key releases (which the enhanced keyboard protocol reports) are dropped;
/// presses and repeats are handled, so held keys repeat; a wheel burst is
/// coalesced unless an overlay or the editor is up (they take the wheel one
/// step at a time); a resize redraws.
pub open spec fn spec_route_event(event: LoopEvent, overlay: bool, editor_open: bool) -> EventRoute {
    match event {
        LoopEvent::KeyRelease => EventRoute::Ignore,
        LoopEvent::KeyPress | LoopEvent::KeyRepeat => EventRoute::Key,
        LoopEvent::MouseWheel => if !overlay && !editor_open { EventRoute::WheelBurst } else { EventRoute::Mouse },
        LoopEvent::MouseMoved => EventRoute::Hover,
        LoopEvent::MouseOther => EventRoute::Mouse,
        LoopEvent::Paste => EventRoute::Paste,
        LoopEvent::Resize => EventRoute::Redraw,
        LoopEvent::Other => EventRoute::Ignore,
    }
}

pub fn route_event(event: LoopEvent, overlay: bool, editor_open: bool) -> (route: EventRoute)
    ensures
        route == spec_route_event(event, overlay, editor_open),
{
    match event {
        LoopEvent::KeyRelease => EventRoute::Ignore,
        LoopEvent::KeyPress | LoopEvent::KeyRepeat => EventRoute::Key,
        LoopEvent::MouseWheel => if !overlay && !editor_open {
            EventRoute::WheelBurst
        } else {
            EventRoute::Mouse
        },
        LoopEvent::MouseMoved => EventRoute::Hover,
        LoopEvent::MouseOther => EventRoute::Mouse,
        LoopEvent::Paste => EventRoute::Paste,
        LoopEvent::Resize => EventRoute::Redraw,
        LoopEvent::Other => EventRoute::Ignore,
    }
}

/// Whether the debounced library refresh runs now: once its quiet period is
/// over, clearing the schedule.
pub open spec fn spec_refresh_due(s: LoopState, now: u64) -> (LoopState, bool) {
    match s.refresh_at {
        Some(at) if now >= at => (LoopState { refresh_at: None, ..s }, true),
        _ => (s, false),
    }
}

pub fn refresh_due(s: LoopState, now: u64) -> (out: (LoopState, bool))
    ensures
        out == spec_refresh_due(s, now),
{
    match s.refresh_at {
        Some(at) => if now >= at {
            (LoopState { refresh_at: None, ..s }, true)
        } else {
            (s, false)
        },
        None => (s, false),
    }
}

/// A changed file under the themes directory, by its name's stem and
/// extension.
pub struct ChangedFile {
    pub stem: Option<String>,
    pub extension: Option<String>,
}

/// Whether a change touches the active theme: a `.toml` file named after it.
pub open spec fn touches_theme(file: ChangedFile, active: Seq<char>) -> bool {
    (file.extension matches Some(e) && e@ == "toml"@) && (file.stem matches Some(s) && s@ == active)
}

/// Changes to the themes directory: one touching the active theme (edits to
/// other themes wait until they are chosen) (re)starts the reload's quiet
/// period.
pub open spec fn spec_on_theme_changes(s: LoopState, changed: Seq<ChangedFile>, active: Seq<char>, now: u64) -> LoopState {
    if exists|i: int| 0 <= i < changed.len() && touches_theme(#[trigger] changed[i], active) {
        LoopState { theme_reload_at: Some(sat_add64(now as int, REFRESH_DEBOUNCE_NANOS as int) as u64), ..s }
    } else {
        s
    }
}

fn same_text(a: &String, b: &str) -> (same: bool)
    ensures
        same == (a@ == b@),
{
    let owned = crate::text::string_of(b);
    *a == owned
}

pub fn on_theme_changes(s: LoopState, changed: &Vec<ChangedFile>, active: &str, now: u64) -> (next: LoopState)
    ensures
        next == spec_on_theme_changes(s, changed@, active@, now),
{
    let mut i: usize = 0;
    while i < changed.len()
        invariant
            i <= changed@.len(),
            forall|k: int| 0 <= k < i ==> !touches_theme(#[trigger] changed@[k], active@),
        decreases changed@.len() - i,
    {
        let file = &changed[i];
        let toml = match &file.extension {
            Some(e) => same_text(e, "toml"),
            None => false,
        };
        let named = match &file.stem {
            Some(n) => same_text(n, active),
            None => false,
        };
        proof {
            reveal_strlit("toml");
        }
        if toml && named {
            assert(touches_theme(changed@[i as int], active@));
            return LoopState { theme_reload_at: Some(now.saturating_add(REFRESH_DEBOUNCE_NANOS)), ..s };
        }
        i += 1;
    }
    s
}

/// Whether the debounced theme reload runs now, clearing the schedule.
pub open spec fn spec_theme_reload_due(s: LoopState, now: u64) -> (LoopState, bool) {
    match s.theme_reload_at {
        Some(at) if now >= at => (LoopState { theme_reload_at: None, ..s }, true),
        _ => (s, false),
    }
}

pub fn theme_reload_due(s: LoopState, now: u64) -> (out: (LoopState, bool))
    ensures
        out == spec_theme_reload_due(s, now),
{
    match s.theme_reload_at {
        Some(at) => if now >= at {
            (LoopState { theme_reload_at: None, ..s }, true)
        } else {
            (s, false)
        },
        None => (s, false),
    }
}

/// What happened this iteration that may need a frame.
#[derive(Clone, Copy, Debug, PartialEq, Eq, Structural)]
pub struct Changes {
    pub event_redraw: bool,
    pub library_updated: bool,
    pub refreshed: bool,
    pub theme_reloaded: bool,
    pub search_recomputed: bool,
    pub images_ready: bool,
    pub geocode_ready: bool,
    pub environment_ready: bool,
    pub timers_changed: bool,
    /// An image is being prepared for the open viewer, or the "Fetching…"
    /// notice is up: their ellipsis animates.
    pub animate_loading: bool,
    /// Toasts are visible: their countdown shrinks.
    pub animate_toasts: bool,
}

/// What the loop does with the screen at the end of an iteration.
#[derive(Clone, Copy, Debug, PartialEq, Eq, Structural)]
pub enum FrameAction {
    Skip,
    Draw,
    /// Clear the screen first: an overlay just closed over graphics images,
    /// whose cells the terminal diff would not re-emit.
    ClearAndDraw,
}

pub open spec fn any_change(c: Changes) -> bool {
    c.event_redraw || c.library_updated || c.refreshed || c.theme_reloaded || c.search_recomputed
        || c.images_ready || c.geocode_ready || c.environment_ready || c.timers_changed || c.animate_loading
        || c.animate_toasts
}

/// The end of an iteration: a frame is drawn when anything changed or
/// animates, after clearing the screen when an overlay has just closed and
/// images are drawn as graphics; the overlay's visibility is remembered.
pub open spec fn spec_frame(s: LoopState, c: Changes, overlay_visible: bool, graphics: bool) -> (LoopState, FrameAction) {
    let closed = s.overlay_was_visible && !overlay_visible;
    (
        LoopState { overlay_was_visible: overlay_visible, ..s },
        if !any_change(c) {
            FrameAction::Skip
        } else if closed && graphics {
            FrameAction::ClearAndDraw
        } else {
            FrameAction::Draw
        },
    )
}

pub fn frame_action(s: LoopState, c: Changes, overlay_visible: bool, graphics: bool) -> (out: (LoopState, FrameAction))
    ensures
        out == spec_frame(s, c, overlay_visible, graphics),
{
    let closed = s.overlay_was_visible && !overlay_visible;
    let next = LoopState { overlay_was_visible: overlay_visible, ..s };
    let changed = c.event_redraw || c.library_updated || c.refreshed || c.theme_reloaded || c.search_recomputed
        || c.images_ready || c.geocode_ready || c.environment_ready || c.timers_changed || c.animate_loading
        || c.animate_toasts;
    if !changed {
        (next, FrameAction::Skip)
    } else if closed && graphics {
        (next, FrameAction::ClearAndDraw)
    } else {
        (next, FrameAction::Draw)
    }
}

/// A debounced refresh runs exactly once per quiet period: right after it
/// runs nothing is scheduled, and a change that lands before it is due
/// pushes it back to a full quiet period after that change.
pub proof fn lemma_refresh_runs_once_after_quiet(s: LoopState, now: u64, later: u64)
    requires
        s.refresh_at is Some,
        now <= later,
    ensures
        spec_refresh_due(spec_refresh_due(s, now).0, later).1 ==> !spec_refresh_due(s, now).1,
        spec_on_library_changes(s, 1, now).refresh_at == Some(sat_add64(now as int, REFRESH_DEBOUNCE_NANOS as int) as u64),
{
}


/// The pause after the last keystroke before a search query is committed.
pub const SEARCH_DEBOUNCE_NANOS: u64 = 120_000_000;

/// Whether the debounced search recompute runs now: the query changed, and
/// typing has paused for the debounce (or no keystroke time is known).
pub fn search_commit_due(dirty: bool, since_last_edit: Option<u64>) -> (due: bool)
    ensures
        due == (dirty && match since_last_edit {
            Some(t) => t >= SEARCH_DEBOUNCE_NANOS,
            None => true,
        }),
{
    dirty && match since_last_edit {
        Some(t) => t >= SEARCH_DEBOUNCE_NANOS,
        None => true,
    }
}

/// The journal id remembered for the next session: the selected journal's
/// id (an empty id counts as none).
pub open spec fn remembered_id(selected: Option<Seq<char>>) -> Option<Seq<char>> {
    match selected {
        Some(id) => if id.len() == 0 { None } else { Some(id) },
        None => None,
    }
}

/// An optional text as its characters.
pub open spec fn opt_view(text: Option<&str>) -> Option<Seq<char>> {
    match text {
        Some(t) => Some(t@),
        None => None,
    }
}

/// On exit: what to store as the last journal, when it differs from what is
/// stored (`None` when nothing needs writing; `Some(None)` clears it).
pub fn journal_to_save(stored: Option<&str>, selected: Option<&str>) -> (save: Option<Option<String>>)
    ensures
        match save {
            None => opt_view(stored) == remembered_id(opt_view(selected)),
            Some(v) => opt_view(stored) != remembered_id(opt_view(selected)) && match v {
                Some(id) => remembered_id(opt_view(selected)) == Some(id@),
                None => remembered_id(opt_view(selected)) is None,
            },
        },
{
    let wanted: Option<&str> = match selected {
        Some(id) => if id.unicode_len() == 0 { None } else { Some(id) },
        None => None,
    };
    let same = match (stored, wanted) {
        (Some(a), Some(b)) => crate::run_loop::same_str(a, b),
        (None, None) => true,
        _ => false,
    };
    if same {
        None
    } else {
        match wanted {
            Some(id) => Some(Some(crate::text::string_of(id))),
            None => Some(None),
        }
    }
}

fn same_str(a: &str, b: &str) -> (same: bool)
    ensures
        same == (a@ == b@),
{
    let x = crate::text::string_of(a);
    let y = crate::text::string_of(b);
    x == y
}

} // verus!
