//! Decisions of the event loop: how long to wait for input, what a poll of the
//! background library validation yields, when its answer is stale, and what a
//! key does while a device-access request waits for approval.
use vstd::prelude::*;
use crate::text::string_of;
use crate::unlock::{KeyCode, KeyPress};

verus! {

/// The longest the loop waits for input before redrawing anyway.
pub const IDLE_POLL_NANOS: u64 = 200_000_000;

/// The wait while an image is still being decoded or encoded.
pub const IMAGE_POLL_NANOS: u64 = 30_000_000;

/// The wait while a geocoding lookup or address backfill is running.
pub const GEOCODE_POLL_NANOS: u64 = 50_000_000;

/// The wait while a weather / environment lookup or backfill is running.
pub const ENVIRONMENT_POLL_NANOS: u64 = 100_000_000;

/// What the loop knows when it picks its input timeout. Every duration is in
/// nanoseconds; `None` means the source has nothing scheduled.
pub struct PollState {
    /// Time until the next toast expires.
    pub toast_deadline: Option<u64>,
    /// Time left on the reader's heading-anchor flash.
    pub anchor_flash_remaining: Option<u64>,
    /// An image is still being prepared.
    pub image_pending: bool,
    /// A geocoding lookup or an address backfill is running.
    pub geocode_pending: bool,
    /// An environment lookup or backfill is running.
    pub environment_pending: bool,
    /// Time until the toast countdown line next shrinks by a column.
    pub countdown_step: Option<u64>,
    /// With an unsettled search query: time left of its debounce.
    pub search_debounce_remaining: Option<u64>,
    /// Time until a scheduled library refresh.
    pub refresh_remaining: Option<u64>,
    /// Time until a scheduled theme reload.
    pub theme_reload_remaining: Option<u64>,
}

pub open spec fn min_nat(a: int, b: int) -> int {
    if a <= b { a } else { b }
}

/// `current`, lowered to `bound` when the source has one.
pub open spec fn min_opt(current: int, bound: Option<u64>) -> int {
    match bound {
        Some(b) => min_nat(current, b as int),
        None => current,
    }
}

/// `current`, lowered to `bound` when `active`.
pub open spec fn min_if(current: int, active: bool, bound: int) -> int {
    if active { min_nat(current, bound) } else { current }
}

/// The moments something on screen or in flight needs the loop again, in
/// nanoseconds from now; `None` where the source has nothing scheduled.
pub open spec fn poll_bounds(s: PollState) -> Seq<Option<u64>> {
    seq![
        s.toast_deadline,
        s.anchor_flash_remaining,
        if s.image_pending { Some(IMAGE_POLL_NANOS) } else { None },
        if s.geocode_pending { Some(GEOCODE_POLL_NANOS) } else { None },
        if s.environment_pending { Some(ENVIRONMENT_POLL_NANOS) } else { None },
        s.countdown_step,
        s.search_debounce_remaining,
        s.refresh_remaining,
        s.theme_reload_remaining,
    ]
}

/// The least of `start` and the bounds that are set.
pub open spec fn least_bound(start: int, bounds: Seq<Option<u64>>) -> int
    decreases bounds.len(),
{
    if bounds.len() == 0 {
        start
    } else {
        min_opt(least_bound(start, bounds.drop_last()), bounds.last())
    }
}

/// The input timeout: the idle wait, or the nearest of the moments the
/// loop is needed again, whichever comes first.
pub open spec fn spec_poll_timeout(s: PollState) -> int {
    least_bound(IDLE_POLL_NANOS as int, poll_bounds(s))
}

fn lower(current: u64, bound: Option<u64>) -> (t: u64)
    ensures
        t == min_opt(current as int, bound),
{
    match bound {
        Some(b) => if b < current { b } else { current },
        None => current,
    }
}

/// How long the event loop may block waiting for input: never longer than
/// the idle wait, and never past the next toast expiry, anchor flash end,
/// countdown step, search debounce, scheduled refresh or theme reload; short
/// fixed waits keep background image, geocoding and environment work flowing.
pub fn poll_timeout(state: &PollState) -> (timeout: u64)
    ensures
        timeout == spec_poll_timeout(*state),
        timeout <= IDLE_POLL_NANOS,
{
    let mut t = lower(IDLE_POLL_NANOS, state.toast_deadline);
    t = lower(t, state.anchor_flash_remaining);
    t = lower(t, if state.image_pending { Some(IMAGE_POLL_NANOS) } else { None });
    t = lower(t, if state.geocode_pending { Some(GEOCODE_POLL_NANOS) } else { None });
    t = lower(t, if state.environment_pending { Some(ENVIRONMENT_POLL_NANOS) } else { None });
    t = lower(t, state.countdown_step);
    t = lower(t, state.search_debounce_remaining);
    t = lower(t, state.refresh_remaining);
    let t = lower(t, state.theme_reload_remaining);
    proof {
        reveal_with_fuel(least_bound, 10);
    }
    t
}

/// What one non-blocking receive on the validation channel found.
pub enum ChannelPoll<T> {
    /// The worker sent its result.
    Received(T),
    /// Nothing yet; the worker is still running.
    Empty,
    /// The worker hung up.
    Disconnected,
}

/// The error reported when the validation worker dies without an answer.
pub open spec fn worker_stopped_message() -> Seq<char> {
    "journal validation worker stopped unexpectedly"@
}

/// What a poll of the library validation yields: the worker's result once it
/// arrives, nothing while it is still running, and — exactly once, while the
/// validation is not yet `finished` — an error when the worker hung up
/// without answering.
pub fn poll_library_validation<T>(polled: ChannelPoll<Result<T, String>>, finished: bool) -> (result:
    Option<Result<T, String>>)
    ensures
        match polled {
            ChannelPoll::Received(r) => result == Some(r),
            ChannelPoll::Empty => result is None,
            ChannelPoll::Disconnected => if finished {
                result is None
            } else {
                result matches Some(Err(message)) && message@ == worker_stopped_message()
            },
        },
{
    match polled {
        ChannelPoll::Received(r) => Some(r),
        ChannelPoll::Empty => None,
        ChannelPoll::Disconnected => {
            if finished {
                None
            } else {
                Some(Err(string_of("journal validation worker stopped unexpectedly")))
            }
        },
    }
}

/// Whether the first library validation answered for a library that has
/// changed since it started: the file watcher saw a change, or the library's
/// generation moved on from the one the validation `started_at`.
pub fn initial_library_result_is_stale(started_at: Option<u64>, current: u64, watcher_dirty: bool) -> (stale: bool)
    ensures
        stale == (watcher_dirty || (started_at matches Some(s) && s != current)),
{
    watcher_dirty || match started_at {
        Some(s) => s != current,
        None => false,
    }
}

/// Tracks whether the terminal still needs restoring: armed when raw mode and
/// the alternate screen are entered, disarmed once they were restored.
pub struct TerminalRestoreGuard {
    active: bool,
}

impl TerminalRestoreGuard {
    pub closed spec fn armed(self) -> bool {
        self.active
    }

    /// A guard that will restore the terminal.
    pub fn new() -> (guard: Self)
        ensures
            guard.armed(),
    {
        Self { active: true }
    }

    /// The terminal was restored; nothing is left to undo.
    pub fn disarm(&mut self)
        ensures
            !final(self).armed(),
    {
        self.active = false;
    }

    /// Whether dropping the guard must still restore the terminal.
    pub fn is_active(&self) -> (active: bool)
        ensures
            active == self.armed(),
    {
        self.active
    }
}


/// What a key press does while a device-access request is on screen.
#[derive(Clone, Copy, Debug, PartialEq, Eq, Structural)]
pub enum PendingAction {
    /// Approve the request (re-encrypting history for the new device).
    Approve,
    /// Deny it (its request file is removed).
    Deny,
    /// Leave it, and any later ones, for the next launch.
    Defer,
    /// Quit the program.
    Quit,
    /// Nothing: wait for another key.
    Ignore,
}

/// Only a key's first press acts (key release and repeat are reported too);
/// Ctrl+C quits, `y` approves, `n` denies and Esc defers, in either case.
pub open spec fn spec_pending_key_action(key: KeyPress, is_press: bool) -> PendingAction {
    if !is_press {
        PendingAction::Ignore
    } else if key.control && key.code == KeyCode::Char('c') {
        PendingAction::Quit
    } else {
        match key.code {
            KeyCode::Char(c) => if c == 'y' || c == 'Y' {
                PendingAction::Approve
            } else if c == 'n' || c == 'N' {
                PendingAction::Deny
            } else {
                PendingAction::Ignore
            },
            KeyCode::Esc => PendingAction::Defer,
            _ => PendingAction::Ignore,
        }
    }
}

pub fn pending_key_action(key: KeyPress, is_press: bool) -> (action: PendingAction)
    ensures
        action == spec_pending_key_action(key, is_press),
{
    if !is_press {
        return PendingAction::Ignore;
    }
    if key.control && key.code == KeyCode::Char('c') {
        return PendingAction::Quit;
    }
    match key.code {
        KeyCode::Char(c) => if c == 'y' || c == 'Y' {
            PendingAction::Approve
        } else if c == 'n' || c == 'N' {
            PendingAction::Deny
        } else {
            PendingAction::Ignore
        },
        KeyCode::Esc => PendingAction::Defer,
        _ => PendingAction::Ignore,
    }
}

/// Whether a request's key is already among the store's recipients (such as
/// this device's own request synced back before it was removed): such a
/// request needs no approval and is cleared without asking.
pub fn already_recipient(recipient_keys: &Vec<String>, request_key: &str) -> (known: bool)
    ensures
        known == exists|i: int| 0 <= i < recipient_keys@.len() && #[trigger] recipient_keys@[i]@ == request_key@,
{
    let wanted = string_of(request_key);
    let mut i: usize = 0;
    while i < recipient_keys.len()
        invariant
            i <= recipient_keys@.len(),
            wanted@ == request_key@,
            forall|j: int| 0 <= j < i ==> #[trigger] recipient_keys@[j]@ != request_key@,
        decreases recipient_keys@.len() - i,
    {
        if recipient_keys[i] == wanted {
            return true;
        }
        i += 1;
    }
    false
}

} // verus!
