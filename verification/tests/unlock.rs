use notema_tui::geometry::Rect;
use notema_tui::unlock::{
    unlock_failed, unlock_key_action, unlock_step, KeyCode, KeyPress, PassphraseInput,
    UnlockAction, UnlockCommand, UnlockEvent,
};

fn key(code: KeyCode) -> KeyPress {
    KeyPress { code, control: false }
}

/// Drive a fresh passphrase buffer through a sequence of keys the same way
/// the unlock screen does, returning the resulting buffer and whether it
/// submitted (Enter) or cancelled (Esc / Ctrl-C).
fn drive(keys: &[KeyPress]) -> (String, Option<bool>) {
    let mut input = PassphraseInput::new();
    for &k in keys {
        match unlock_key_action(k) {
            UnlockAction::Submit => return (input.as_string(), Some(true)),
            UnlockAction::Cancel => return (input.as_string(), Some(false)),
            UnlockAction::Insert(ch) => input.insert(ch),
            UnlockAction::Delete => input.backspace(),
            UnlockAction::MoveLeft => input.move_left(),
            UnlockAction::MoveRight => input.move_right(),
            UnlockAction::Ignore => {}
        }
    }
    (input.as_string(), None)
}

#[test]
fn typing_and_backspace_edit_the_passphrase() {
    let (input, done) = drive(&[
        key(KeyCode::Char('h')),
        key(KeyCode::Char('i')),
        key(KeyCode::Char('x')),
        key(KeyCode::Backspace),
    ]);
    assert_eq!(input, "hi");
    assert_eq!(done, None);
}

#[test]
fn enter_submits_the_typed_passphrase() {
    let (input, done) = drive(&[
        key(KeyCode::Char('p')),
        key(KeyCode::Char('w')),
        key(KeyCode::Enter),
    ]);
    assert_eq!(input, "pw");
    assert_eq!(done, Some(true));
}

#[test]
fn esc_cancels() {
    let (_input, done) = drive(&[key(KeyCode::Char('p')), key(KeyCode::Esc)]);
    assert_eq!(done, Some(false));
}

#[test]
fn ctrl_c_cancels() {
    let ctrl_c = KeyPress { code: KeyCode::Char('c'), control: true };
    assert!(matches!(unlock_key_action(ctrl_c), UnlockAction::Cancel));
}

#[test]
fn non_editing_keys_are_ignored() {
    assert!(matches!(unlock_key_action(key(KeyCode::Up)), UnlockAction::Ignore));
    assert!(matches!(unlock_key_action(key(KeyCode::Tab)), UnlockAction::Ignore));
}

#[test]
fn arrows_move_the_caret_for_mid_passphrase_edits() {
    // "ac", Left, "b" → the caret edit lands between the two chars.
    let (input, done) = drive(&[
        key(KeyCode::Char('a')),
        key(KeyCode::Char('c')),
        key(KeyCode::Left),
        key(KeyCode::Char('b')),
    ]);
    assert_eq!(input, "abc");
    assert_eq!(done, None);
}

#[test]
fn the_caret_stops_at_both_ends() {
    let mut input = PassphraseInput::new();
    input.move_left();
    input.backspace();
    assert_eq!((input.as_string(), input.cursor()), (String::new(), 0));
    input.insert('a');
    input.move_right();
    assert_eq!(input.cursor(), 1);
}

#[test]
fn clicks_in_the_field_place_the_caret_and_paste_skips_control_characters() {
    let field = Some(Rect::new(10, 5, 20, 1));
    let mut input = PassphraseInput::new();
    let pasted = unlock_step(&mut input, field, UnlockEvent::Paste("se\ncret\u{7f}".to_string()));
    assert_eq!(pasted, UnlockCommand::Continue);
    assert_eq!(input.as_string(), "secret");
    unlock_step(&mut input, field, UnlockEvent::Click { column: 12, row: 5 });
    assert_eq!(input.cursor(), 2);
    unlock_step(&mut input, field, UnlockEvent::Click { column: 29, row: 5 });
    assert_eq!(input.cursor(), 6);
    unlock_step(&mut input, field, UnlockEvent::Click { column: 11, row: 6 });
    assert_eq!(input.cursor(), 6);
    let submit = unlock_step(&mut input, field, UnlockEvent::Key(key(KeyCode::Enter)));
    assert_eq!(submit, UnlockCommand::Submit);
}

#[test]
fn a_wrong_passphrase_is_forgotten_and_reported() {
    let mut input = PassphraseInput::new();
    input.insert('x');
    assert_eq!(unlock_failed(&mut input), "Incorrect passphrase");
    assert_eq!(input.len(), 0);
}

#[test]
fn zeroizing_forgets_the_passphrase_and_the_caret() {
    let mut input = PassphraseInput::new();
    for c in "hunter2".chars() {
        input.insert(c);
    }
    input.move_left();
    input.zeroize();
    assert_eq!((input.as_string(), input.cursor()), (String::new(), 0));
}
