use notema_tui::runtime::{
    already_recipient, initial_library_result_is_stale, pending_key_action, poll_library_validation,
    poll_timeout, ChannelPoll, PendingAction, PollState, TerminalRestoreGuard,
};
use notema_tui::unlock::{KeyCode, KeyPress};

#[test]
fn changed_library_rejects_an_older_validation_result() {
    assert!(!initial_library_result_is_stale(Some(4), 4, false));
    assert!(initial_library_result_is_stale(Some(4), 5, false));
    assert!(initial_library_result_is_stale(Some(4), 4, true));
}

#[test]
fn a_validation_without_a_start_generation_is_stale_only_when_dirty() {
    assert!(!initial_library_result_is_stale(None, 9, false));
    assert!(initial_library_result_is_stale(None, 9, true));
}

#[test]
fn disconnected_library_validator_is_reported_once() {
    let result = poll_library_validation::<()>(ChannelPoll::Disconnected, false).unwrap();

    assert_eq!(
        result.unwrap_err(),
        "journal validation worker stopped unexpectedly"
    );
    assert!(poll_library_validation::<()>(ChannelPoll::Disconnected, true).is_none());
}

#[test]
fn a_received_validation_result_is_passed_through() {
    assert_eq!(
        poll_library_validation(ChannelPoll::Received(Ok::<u8, String>(7)), false),
        Some(Ok(7))
    );
    assert_eq!(poll_library_validation::<u8>(ChannelPoll::Empty, false), None);
}

fn idle() -> PollState {
    PollState {
        toast_deadline: None,
        anchor_flash_remaining: None,
        image_pending: false,
        geocode_pending: false,
        environment_pending: false,
        countdown_step: None,
        search_debounce_remaining: None,
        refresh_remaining: None,
        theme_reload_remaining: None,
    }
}

#[test]
fn poll_timeout_waits_the_idle_interval_when_nothing_is_scheduled() {
    assert_eq!(poll_timeout(&idle()), 200_000_000);
}

#[test]
fn poll_timeout_takes_the_nearest_deadline() {
    let mut state = idle();
    state.toast_deadline = Some(500_000_000);
    state.environment_pending = true;
    assert_eq!(poll_timeout(&state), 100_000_000);
    state.geocode_pending = true;
    assert_eq!(poll_timeout(&state), 50_000_000);
    state.image_pending = true;
    assert_eq!(poll_timeout(&state), 30_000_000);
    state.search_debounce_remaining = Some(0);
    assert_eq!(poll_timeout(&state), 0);
}

#[test]
fn poll_timeout_honours_refresh_and_theme_reload_deadlines() {
    let mut state = idle();
    state.refresh_remaining = Some(120_000_000);
    state.theme_reload_remaining = Some(80_000_000);
    state.countdown_step = Some(150_000_000);
    assert_eq!(poll_timeout(&state), 80_000_000);
}

#[test]
fn terminal_guard_is_armed_until_disarmed() {
    let mut guard = TerminalRestoreGuard::new();
    assert!(guard.is_active());
    guard.disarm();
    assert!(!guard.is_active());
}

fn key(code: KeyCode, control: bool) -> KeyPress {
    KeyPress { code, control }
}

#[test]
fn pending_requests_answer_to_y_n_and_esc() {
    assert_eq!(pending_key_action(key(KeyCode::Char('y'), false), true), PendingAction::Approve);
    assert_eq!(pending_key_action(key(KeyCode::Char('Y'), false), true), PendingAction::Approve);
    assert_eq!(pending_key_action(key(KeyCode::Char('n'), false), true), PendingAction::Deny);
    assert_eq!(pending_key_action(key(KeyCode::Char('N'), false), true), PendingAction::Deny);
    assert_eq!(pending_key_action(key(KeyCode::Esc, false), true), PendingAction::Defer);
    assert_eq!(pending_key_action(key(KeyCode::Char('c'), true), true), PendingAction::Quit);
    assert_eq!(pending_key_action(key(KeyCode::Char('c'), false), true), PendingAction::Ignore);
    assert_eq!(pending_key_action(key(KeyCode::Enter, false), true), PendingAction::Ignore);
}

#[test]
fn only_the_first_press_of_a_key_acts() {
    assert_eq!(pending_key_action(key(KeyCode::Char('y'), false), false), PendingAction::Ignore);
}

#[test]
fn a_request_from_a_known_recipient_is_stale() {
    let keys = vec!["age1abc".to_string(), "age1def".to_string()];
    assert!(already_recipient(&keys, "age1def"));
    assert!(!already_recipient(&keys, "age1xyz"));
    assert!(!already_recipient(&vec![], "age1abc"));
}
