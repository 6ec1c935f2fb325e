use notema_tui::run_loop::{
    frame_action, on_library_changes, on_theme_changes, on_validation, reassert_mouse, refresh_due, route_event,
    start_state, theme_reload_due, ChangedFile, Changes, EventRoute, FrameAction, LoopEvent, ValidationOutcome,
};

fn quiet() -> Changes {
    Changes {
        event_redraw: false,
        library_updated: false,
        refreshed: false,
        theme_reloaded: false,
        search_recomputed: false,
        images_ready: false,
        geocode_ready: false,
        environment_ready: false,
        timers_changed: false,
        animate_loading: false,
        animate_toasts: false,
    }
}

#[test]
fn a_change_during_validation_makes_its_snapshot_stale_and_schedules_a_refresh() {
    let s = start_state(100, true, false);
    assert!(!s.validation_finished);
    assert_eq!(s.reassert_mouse_at, Some(250_000_100));
    let s = on_library_changes(s, 1, 1_000);
    assert!(s.validation_dirty);
    assert_eq!(s.refresh_at, Some(400_001_000));
    let (s, outcome) = on_validation(s, Some(true), Some(1), 1);
    assert_eq!(outcome, Some(ValidationOutcome::Stale));
    assert!(s.validation_finished);
    let (_, outcome) = on_validation(start_state(0, true, false), Some(true), Some(1), 1);
    assert_eq!(outcome, Some(ValidationOutcome::Validated));
    let (_, outcome) = on_validation(start_state(0, true, false), Some(false), None, 1);
    assert_eq!(outcome, Some(ValidationOutcome::Failed));
}

#[test]
fn debounced_work_runs_once_its_quiet_period_is_over() {
    let s = on_library_changes(start_state(0, false, false), 2, 0);
    let (s, due) = refresh_due(s, 399_999_999);
    assert!(!due);
    let (s, due) = refresh_due(s, 400_000_000);
    assert!(due);
    let (_, due) = refresh_due(s, 900_000_000);
    assert!(!due);
    let (s, due) = reassert_mouse(start_state(0, false, false), 250_000_000);
    assert!(due && s.reassert_mouse_at.is_none());
}

#[test]
fn only_the_active_themes_file_schedules_a_reload() {
    let s = start_state(0, false, false);
    let other = vec![ChangedFile { stem: Some("dawn".to_string()), extension: Some("toml".to_string()) }];
    assert_eq!(on_theme_changes(s, &other, "dusk", 5).theme_reload_at, None);
    let ours = vec![ChangedFile { stem: Some("dusk".to_string()), extension: Some("toml".to_string()) }];
    let s = on_theme_changes(s, &ours, "dusk", 5);
    assert_eq!(s.theme_reload_at, Some(400_000_005));
    assert!(theme_reload_due(s, 400_000_005).1);
}

#[test]
fn events_are_routed_as_the_loop_handles_them() {
    assert_eq!(route_event(LoopEvent::KeyRelease, false, false), EventRoute::Ignore);
    assert_eq!(route_event(LoopEvent::KeyRepeat, false, false), EventRoute::Key);
    assert_eq!(route_event(LoopEvent::MouseWheel, false, false), EventRoute::WheelBurst);
    assert_eq!(route_event(LoopEvent::MouseWheel, true, false), EventRoute::Mouse);
    assert_eq!(route_event(LoopEvent::MouseWheel, false, true), EventRoute::Mouse);
    assert_eq!(route_event(LoopEvent::Resize, false, false), EventRoute::Redraw);
}

#[test]
fn a_closed_overlay_over_graphics_clears_before_drawing() {
    let s = start_state(0, false, true);
    assert_eq!(frame_action(s, quiet(), false, true).1, FrameAction::Skip);
    let changed = Changes { timers_changed: true, ..quiet() };
    let (next, action) = frame_action(s, changed, false, true);
    assert_eq!(action, FrameAction::ClearAndDraw);
    assert!(!next.overlay_was_visible);
    assert_eq!(frame_action(s, changed, false, false).1, FrameAction::Draw);
}
