//! The unlock screen's input handling: the masked passphrase buffer with its
//! caret, what each key does, and one step of the screen's event loop.
use vstd::prelude::*;
use crate::geometry::Rect;
use crate::text::{push_char, string_of};

verus! {

/// A passphrase being typed: its characters and the caret between them.
pub struct PassphraseInput {
    chars: Vec<char>,
    cursor: usize,
}

impl View for PassphraseInput {
    type V = (Seq<char>, int);

    closed spec fn view(&self) -> (Seq<char>, int) {
        (self.chars@, self.cursor as int)
    }
}

impl PassphraseInput {
    /// The caret sits between two characters or at either end.
    pub closed spec fn wf(&self) -> bool {
        self.cursor <= self.chars@.len()
    }

    /// An empty passphrase with the caret at its start.
    pub fn new() -> (input: Self)
        ensures
            input.wf(),
            input@ == (Seq::<char>::empty(), 0int),
    {
        Self { chars: Vec::new(), cursor: 0 }
    }

    /// The typed passphrase.
    pub fn as_string(&self) -> (text: String)
        ensures
            text@ == self@.0,
    {
        let mut text = String::new();
        let mut i: usize = 0;
        while i < self.chars.len()
            invariant
                i <= self.chars@.len(),
                text@ == self.chars@.take(i as int),
            decreases self.chars@.len() - i,
        {
            push_char(&mut text, self.chars[i]);
            i += 1;
            assert(text@ =~= self.chars@.take(i as int));
        }
        assert(self.chars@.take(i as int) =~= self.chars@);
        text
    }

    /// The number of typed characters.
    pub fn len(&self) -> (n: usize)
        ensures
            n == self@.0.len(),
    {
        self.chars.len()
    }

    /// The caret's position: how many characters precede it.
    pub fn cursor(&self) -> (cursor: usize)
        ensures
            cursor == self@.1,
    {
        self.cursor
    }

    /// Type `c` at the caret, which moves past it.
    pub fn insert(&mut self, c: char)
        requires
            old(self).wf(),
        ensures
            final(self).wf(),
            final(self)@.0 == old(self)@.0.insert(old(self)@.1, c),
            final(self)@.1 == old(self)@.1 + 1,
    {
        self.chars.insert(self.cursor, c);
        let n = self.chars.len();
        assert(self.cursor < n);
        self.cursor = self.cursor + 1;
    }

    /// Delete the character before the caret, if any.
    pub fn backspace(&mut self)
        requires
            old(self).wf(),
        ensures
            final(self).wf(),
            old(self)@.1 == 0 ==> final(self)@ == old(self)@,
            old(self)@.1 > 0 ==> final(self)@.0 == old(self)@.0.remove(old(self)@.1 - 1),
            old(self)@.1 > 0 ==> final(self)@.1 == old(self)@.1 - 1,
    {
        if self.cursor > 0 {
            self.cursor = self.cursor - 1;
            self.chars.remove(self.cursor);
        }
    }

    /// Move the caret one character left, stopping at the start.
    pub fn move_left(&mut self)
        requires
            old(self).wf(),
        ensures
            final(self).wf(),
            final(self)@.0 == old(self)@.0,
            final(self)@.1 == if old(self)@.1 > 0 { old(self)@.1 - 1 } else { 0 },
    {
        if self.cursor > 0 {
            self.cursor = self.cursor - 1;
        }
    }

    /// Move the caret one character right, stopping at the end.
    pub fn move_right(&mut self)
        requires
            old(self).wf(),
        ensures
            final(self).wf(),
            final(self)@.0 == old(self)@.0,
            final(self)@.1 == if old(self)@.1 < old(self)@.0.len() {
                old(self)@.1 + 1
            } else {
                old(self)@.1
            },
    {
        if self.cursor < self.chars.len() {
            self.cursor = self.cursor + 1;
        }
    }

    /// Put the caret at the `column`th cell of the field: before that
    /// character, or at the end when the click lands past the text.
    pub fn click_at(&mut self, column: u16)
        requires
            old(self).wf(),
        ensures
            final(self).wf(),
            final(self)@.0 == old(self)@.0,
            final(self)@.1 == if column < old(self)@.0.len() {
                column as int
            } else {
                old(self)@.0.len() as int
            },
    {
        let col = column as usize;
        self.cursor = if col < self.chars.len() {
            col
        } else {
            self.chars.len()
        };
    }

    /// Forget the passphrase: overwrite and empty the buffer, reset the caret.
    pub fn zeroize(&mut self)
        ensures
            final(self).wf(),
            final(self)@ == (Seq::<char>::empty(), 0int),
    {
        wipe_chars(&mut self.chars);
        self.cursor = 0;
    }
}

/// `Zeroize::zeroize` of the `zeroize` crate on a character buffer: it
/// overwrites every character and the spare capacity with zeros, then empties
/// the buffer. Trusted to leave the buffer empty.
#[verifier::external_body]
fn wipe_chars(chars: &mut Vec<char>)
    ensures
        final(chars)@ == Seq::<char>::empty(),
{
    zeroize::Zeroize::zeroize(chars);
}

/// Typing a character and deleting it again restores the passphrase and the
/// caret exactly.
pub proof fn lemma_backspace_undoes_insert(text: Seq<char>, cursor: int, c: char)
    requires
        0 <= cursor <= text.len(),
    ensures
        text.insert(cursor, c).remove(cursor) == text,
{
    assert(text.insert(cursor, c).remove(cursor) =~= text);
}

/// A key as the unlock screen sees it.
#[derive(Clone, Copy, Debug, PartialEq, Eq, Structural)]
pub enum KeyCode {
    Char(char),
    Enter,
    Esc,
    Backspace,
    Left,
    Right,
    Up,
    Down,
    Tab,
    Other,
}

/// A key press: its code and whether Control was held.
#[derive(Clone, Copy, Debug, PartialEq, Eq, Structural)]
pub struct KeyPress {
    pub code: KeyCode,
    pub control: bool,
}

/// What a key press does on the unlock screen.
#[derive(Clone, Copy, Debug, PartialEq, Eq, Structural)]
pub enum UnlockAction {
    Submit,
    Cancel,
    Insert(char),
    Delete,
    MoveLeft,
    MoveRight,
    Ignore,
}

pub open spec fn spec_unlock_key_action(key: KeyPress) -> UnlockAction {
    if key.control && key.code == KeyCode::Char('c') {
        UnlockAction::Cancel
    } else {
        match key.code {
            KeyCode::Enter => UnlockAction::Submit,
            KeyCode::Esc => UnlockAction::Cancel,
            KeyCode::Backspace => UnlockAction::Delete,
            KeyCode::Left => UnlockAction::MoveLeft,
            KeyCode::Right => UnlockAction::MoveRight,
            KeyCode::Char(c) => UnlockAction::Insert(c),
            KeyCode::Up | KeyCode::Down | KeyCode::Tab | KeyCode::Other => UnlockAction::Ignore,
        }
    }
}

/// Map a key press to its action: Ctrl+C and Esc cancel, Enter submits,
/// Backspace deletes, the arrows move the caret, and any other character is
/// typed.
pub fn unlock_key_action(key: KeyPress) -> (action: UnlockAction)
    ensures
        action == spec_unlock_key_action(key),
{
    if key.control && key.code == KeyCode::Char('c') {
        return UnlockAction::Cancel;
    }
    match key.code {
        KeyCode::Enter => UnlockAction::Submit,
        KeyCode::Esc => UnlockAction::Cancel,
        KeyCode::Backspace => UnlockAction::Delete,
        KeyCode::Left => UnlockAction::MoveLeft,
        KeyCode::Right => UnlockAction::MoveRight,
        KeyCode::Char(c) => UnlockAction::Insert(c),
        KeyCode::Up | KeyCode::Down | KeyCode::Tab | KeyCode::Other => UnlockAction::Ignore,
    }
}

/// Whether `c` is a control character (Unicode general category `Cc`:
/// U+0000–U+001F and U+007F–U+009F), as `char::is_control` decides.
pub open spec fn is_control(c: char) -> bool {
    (c as u32) < 0x20 || (0x7f <= (c as u32) && (c as u32) < 0xa0)
}

fn is_control_char(c: char) -> (b: bool)
    ensures
        b == is_control(c),
{
    let code = c as u32;
    code < 0x20 || (0x7f <= code && code < 0xa0)
}

/// What reached the unlock screen.
pub enum UnlockEvent {
    /// A key was pressed.
    Key(KeyPress),
    /// The left button went down on a cell.
    Click { column: u16, row: u16 },
    /// Text was pasted.
    Paste(String),
    /// Anything else (a key release, a resize, other mouse activity).
    Other,
}

/// What the loop does after an event.
#[derive(Clone, Copy, Debug, PartialEq, Eq, Structural)]
pub enum UnlockCommand {
    /// Redraw and wait for the next event.
    Continue,
    /// Try the typed passphrase.
    Submit,
    /// Leave without unlocking.
    Quit,
}

/// The passphrase after pasting `text`: its characters other than control
/// characters typed one after another at the caret.
pub open spec fn pasted(text: Seq<char>, cursor: int, pasting: Seq<char>) -> (Seq<char>, int)
    decreases pasting.len(),
{
    if pasting.len() == 0 {
        (text, cursor)
    } else {
        let (t, k) = pasted(text, cursor, pasting.drop_last());
        let c = pasting.last();
        if is_control(c) {
            (t, k)
        } else {
            (t.insert(k, c), k + 1)
        }
    }
}

/// The field's row contains the click, so the click places the caret.
pub open spec fn click_hits(field: Option<Rect>, column: int, row: int) -> bool {
    match field {
        Some(r) => row == r.y && r.x <= column < r.x + r.width,
        None => false,
    }
}

/// One event of the unlock loop: key presses edit the passphrase, submit or
/// quit; a click inside the drawn passphrase `field` places the caret; pasted
/// text is typed without its control characters. The caller tries the
/// passphrase on `Submit` and leaves on `Quit`.
pub fn unlock_step(input: &mut PassphraseInput, field: Option<Rect>, event: UnlockEvent) -> (command:
    UnlockCommand)
    requires
        old(input).wf(),
    ensures
        final(input).wf(),
        match event {
            UnlockEvent::Key(key) => match spec_unlock_key_action(key) {
                UnlockAction::Submit => command == UnlockCommand::Submit && final(input)@ == old(input)@,
                UnlockAction::Cancel => command == UnlockCommand::Quit && final(input)@ == old(input)@,
                UnlockAction::Insert(c) => command == UnlockCommand::Continue && final(input)@ == (
                old(input)@.0.insert(old(input)@.1, c), old(input)@.1 + 1),
                UnlockAction::Delete => command == UnlockCommand::Continue && (if old(input)@.1 > 0 {
                    final(input)@ == (old(input)@.0.remove(old(input)@.1 - 1), old(input)@.1 - 1)
                } else {
                    final(input)@ == old(input)@
                }),
                UnlockAction::MoveLeft => command == UnlockCommand::Continue && final(input)@ == (
                old(input)@.0, if old(input)@.1 > 0 { old(input)@.1 - 1 } else { 0 }),
                UnlockAction::MoveRight => command == UnlockCommand::Continue && final(input)@ == (
                old(input)@.0, if old(input)@.1 < old(input)@.0.len() {
                    old(input)@.1 + 1
                } else {
                    old(input)@.1
                }),
                UnlockAction::Ignore => command == UnlockCommand::Continue && final(input)@ == old(input)@,
            },
            UnlockEvent::Click { column, row } => command == UnlockCommand::Continue && if click_hits(
                field,
                column as int,
                row as int,
            ) {
                let rel = column - field->0.x;
                final(input)@ == (old(input)@.0, if rel < old(input)@.0.len() {
                    rel
                } else {
                    old(input)@.0.len() as int
                })
            } else {
                final(input)@ == old(input)@
            },
            UnlockEvent::Paste(text) => command == UnlockCommand::Continue && final(input)@ == pasted(
                old(input)@.0,
                old(input)@.1,
                text@,
            ),
            UnlockEvent::Other => command == UnlockCommand::Continue && final(input)@ == old(input)@,
        },
{
    match event {
        UnlockEvent::Key(key) => match unlock_key_action(key) {
            UnlockAction::Submit => UnlockCommand::Submit,
            UnlockAction::Cancel => UnlockCommand::Quit,
            UnlockAction::Insert(c) => {
                input.insert(c);
                UnlockCommand::Continue
            },
            UnlockAction::Delete => {
                input.backspace();
                UnlockCommand::Continue
            },
            UnlockAction::MoveLeft => {
                input.move_left();
                UnlockCommand::Continue
            },
            UnlockAction::MoveRight => {
                input.move_right();
                UnlockCommand::Continue
            },
            UnlockAction::Ignore => UnlockCommand::Continue,
        },
        UnlockEvent::Click { column, row } => {
            match field {
                Some(r) => {
                    if row == r.y && r.x <= column && (column as u32) < r.x as u32 + r.width as u32 {
                        input.click_at(column - r.x);
                    }
                },
                None => {},
            }
            UnlockCommand::Continue
        },
        UnlockEvent::Paste(text) => {
            let n = text.as_str().unicode_len();
            let mut i: usize = 0;
            while i < n
                invariant
                    n == text@.len(),
                    i <= n,
                    input.wf(),
                    input@ == pasted(old(input)@.0, old(input)@.1, text@.take(i as int)),
                decreases n - i,
            {
                let c = text.as_str().get_char(i);
                assert(text@.take(i + 1).drop_last() =~= text@.take(i as int));
                assert(text@.take(i + 1).last() == c);
                if !is_control_char(c) {
                    input.insert(c);
                }
                i += 1;
            }
            assert(text@.take(n as int) =~= text@);
            UnlockCommand::Continue
        },
        UnlockEvent::Other => UnlockCommand::Continue,
    }
}

/// The message shown after a wrong passphrase.
pub open spec fn wrong_passphrase_message() -> Seq<char> {
    "Incorrect passphrase"@
}

/// A failed unlock: the typed passphrase is forgotten and the error message
/// takes the hint's place.
pub fn unlock_failed(input: &mut PassphraseInput) -> (error: String)
    ensures
        final(input).wf(),
        final(input)@ == (Seq::<char>::empty(), 0int),
        error@ == wrong_passphrase_message(),
{
    input.zeroize();
    string_of("Incorrect passphrase")
}

} // verus!
