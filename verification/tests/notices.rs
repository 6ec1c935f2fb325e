use notema_tui::chrome::ChromeStyle;
use notema_tui::geometry::Rect;
use notema_tui::notices::{
    fetching_environment_notice, loading_notice, disable_notice_screen, pending_notice_screen, unlock_screen, AccessNotice, ModalNotice,
    UnlockScreen, APPROVE_CMD, ENROLL_CMD,
};

/// Everything the screen shows, one piece per line.
fn notice_text(screen: &ModalNotice) -> String {
    let mut parts = vec![
        screen.title.clone(),
        screen.key_hint.clone(),
        screen.box_title.clone(),
    ];
    parts.extend(screen.lines.iter().cloned());
    parts.join("\n")
}

fn unlock_text(screen: &UnlockScreen) -> String {
    let mut parts = vec![
        screen.title.clone(),
        screen.key_hint.clone(),
        screen.box_title.clone(),
        screen.field.clone(),
    ];
    parts.extend(screen.status.iter().cloned());
    parts.join("\n")
}

fn render_unlock_text(input: &str, error: Option<&str>) -> String {
    unlock_text(&unlock_screen(
        Rect::new(0, 0, 60, 16),
        ChromeStyle::Bordered,
        input,
        error,
    ))
}

fn render_pending_notice_text(device_name: &str, notice: AccessNotice) -> String {
    render_pending_notice_text_in(device_name, notice, ChromeStyle::Bordered)
}

fn render_pending_notice_text_in(device_name: &str, notice: AccessNotice, chrome: ChromeStyle) -> String {
    notice_text(&pending_notice_screen(
        Rect::new(0, 0, 72, 20),
        chrome,
        device_name,
        notice,
    ))
}

#[test]
fn unlock_screen_masks_passphrase_and_draws_border() {
    let text = render_unlock_text("hunter2", None);
    // Bordered fullscreen chrome with the title and hint.
    assert!(text.contains("Unlock Notema"));
    assert!(text.contains("enter unlock"));
    assert!(text.contains("esc quit"));
    // The field sits in its own bordered box titled on the top-left.
    assert!(text.contains("Enter Password"));
    // The raw passphrase is never echoed; one '*' per character is.
    assert!(!text.contains("hunter2"));
    assert!(text.contains("*******"));
    // A standing hint sits below the field when there's no error.
    assert!(text.contains("Enter your passphrase to unlock"));
}

#[test]
fn unlock_screen_replaces_hint_with_error() {
    let text = render_unlock_text("", Some("Incorrect passphrase"));
    // The error takes the hint's place after a wrong passphrase.
    assert!(text.contains("Incorrect passphrase"));
    assert!(!text.contains("Enter your passphrase to unlock"));
}

#[test]
fn unlock_status_wraps_on_a_narrow_terminal() {
    // Too narrow to fit the hint on one line: it must wrap across rows rather
    // than clip, so every word survives.
    let screen = unlock_screen(Rect::new(0, 0, 24, 20), ChromeStyle::Bordered, "", None);
    let rows: Vec<String> = screen.status.iter().map(|row| row.trim().to_string()).collect();
    let your_row = rows.iter().position(|r| r.contains("your"));
    let phrase_row = rows.iter().position(|r| r.contains("passphrase"));
    // Both hint words render in full (not truncated) on separate rows.
    assert!(your_row.is_some() && phrase_row.is_some());
    assert_ne!(your_row, phrase_row);
    // The container reserves a row for every status line.
    assert_eq!(screen.container_height, 8 + rows.len() as u16);
}

#[test]
fn pending_notice_wraps_in_the_journal_chrome_frame() {
    let text = render_pending_notice_text("phone", AccessNotice::NeedsEnroll { retired_key: false });
    // Outer Notema chrome frame with its dismiss hint, plus the inner state box.
    assert!(text.contains("Notema"));
    assert!(text.contains("any key to exit"));
    assert!(text.contains("Not authorized"));
    assert!(text.contains("Device 'phone'"));
    assert!(text.contains(ENROLL_CMD));
}

#[test]
fn pending_notice_only_mentions_a_retired_key_when_one_was_retired() {
    let retired = render_pending_notice_text("phone", AccessNotice::NeedsEnroll { retired_key: true });
    assert!(retired.contains("old key has been retired"));

    // A never-enrolled device never had a key, so the line is omitted.
    let fresh = render_pending_notice_text("", AccessNotice::NeedsEnroll { retired_key: false });
    assert!(!fresh.contains("old key has been retired"));
    // A keyless device reads as the sentence subject "This device", not a name.
    assert!(fresh.contains("This device"));
}

#[test]
fn pending_notice_awaiting_points_at_approval() {
    let text = render_pending_notice_text("phone", AccessNotice::AwaitingApproval);
    assert!(text.contains("Awaiting approval"));
    assert!(text.contains(&format!("{} phone", APPROVE_CMD)));
    assert!(!text.contains("old key has been retired"));
}

#[test]
fn pending_notice_shows_the_enroll_command_in_flat_chrome() {
    let text = render_pending_notice_text_in(
        "phone",
        AccessNotice::NeedsEnroll { retired_key: false },
        ChromeStyle::Flat,
    );
    assert!(text.contains("Not authorized"));
    assert!(text.contains(ENROLL_CMD));
}

#[test]
fn pending_notice_shows_the_approve_command_in_flat_chrome() {
    let text = render_pending_notice_text_in("phone", AccessNotice::AwaitingApproval, ChromeStyle::Flat);
    assert!(text.contains("Awaiting approval"));
    assert!(text.contains(&format!("{} phone", APPROVE_CMD)));
}

#[test]
fn disable_notice_shows_the_enable_hint_in_flat_chrome() {
    let text = notice_text(&disable_notice_screen(Rect::new(0, 0, 72, 20), ChromeStyle::Flat));
    assert!(text.contains("Encryption disabled"));
    assert!(text.contains("notema encryption enable"));
}

#[test]
fn disable_notice_renders_in_the_journal_chrome_frame() {
    let text = notice_text(&disable_notice_screen(Rect::new(0, 0, 72, 20), ChromeStyle::Bordered));
    assert!(text.contains("Notema"));
    assert!(text.contains("any key to continue"));
    assert!(text.contains("Encryption disabled"));
    assert!(text.contains("notema encryption enable"));
}

#[test]
fn a_short_screen_keeps_only_the_rows_the_container_has() {
    // 10 rows: the frame leaves 8, the bordered container spends 4 of them.
    let screen = pending_notice_screen(
        Rect::new(0, 0, 72, 10),
        ChromeStyle::Bordered,
        "phone",
        AccessNotice::NeedsEnroll { retired_key: true },
    );
    assert_eq!(screen.inner, Rect::new(1, 1, 70, 8));
    assert_eq!(screen.container_width, 68);
    assert_eq!(screen.container_height, 8);
    assert_eq!(screen.lines.len(), 4);
    assert!(screen.lines[0].starts_with("Device 'phone' isn't a recipient"));
}

#[test]
fn the_flat_frame_disappears_on_a_tiny_screen() {
    let screen = disable_notice_screen(Rect::new(3, 3, 1, 1), ChromeStyle::Flat);
    assert_eq!(screen.inner, Rect::new(0, 0, 0, 0));
    assert_eq!(screen.container_height, 0);
    assert!(screen.lines.is_empty());
}

#[test]
fn the_loading_ellipsis_cycles_without_changing_width() {
    assert_eq!(loading_notice(0), "Loading image.  ");
    assert_eq!(loading_notice(399), "Loading image.  ");
    assert_eq!(loading_notice(400), "Loading image.. ");
    assert_eq!(loading_notice(800), "Loading image...");
    assert_eq!(loading_notice(1200), "Loading image.  ");
    assert_eq!(fetching_environment_notice(450), "Fetching weather and air quality.. ");
}
