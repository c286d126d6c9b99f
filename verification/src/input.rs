use vstd::prelude::*;

use crate::editor::{row_of, Editor, EditorRow, EditorState};
use crate::modes::Modes;
use crate::text::{chars_of, first_non_white_space, first_non_white_space_pos};

verus! {

/// A key, as the terminal reports it.
#[derive(Clone, Copy, PartialEq, Eq, Structural, Debug)]
pub enum KeyCode {
    Backspace,
    Enter,
    Left,
    Right,
    Up,
    Down,
    Home,
    End,
    PageUp,
    PageDown,
    Tab,
    BackTab,
    Delete,
    Insert,
    F(u8),
    Char(char),
    Null,
    Esc,
    CapsLock,
    ScrollLock,
    NumLock,
    PrintScreen,
    Pause,
    Menu,
    KeypadBegin,
    Media,
    Modifier,
}

impl EditorState {
    /// Column of the first character of the cursor's row that is not white
    /// space; 0 when there is none.
    pub open spec fn first_char_col(self) -> usize {
        match first_non_white_space(self.current_row()) {
            Some(i) => i as usize,
            None => 0,
        }
    }

    /// The largest column the cursor may stay on: the last character of the
    /// row, or one past it in insert mode.
    pub open spec fn max_cursor_x(self) -> int {
        let len = self.current_row_len() as int;
        if self.mode != Modes::Insert {
            if len == 0 { 0 } else { len - 1 }
        } else {
            len
        }
    }

    /// The cursor pulled back onto the row.
    pub open spec fn clamped(self) -> EditorState {
        if self.cursor_x <= self.max_cursor_x() {
            self
        } else {
            EditorState { cursor_x: self.max_cursor_x() as usize, ..self }
        }
    }

    pub open spec fn with_cursor_x(self, x: usize) -> EditorState {
        EditorState { cursor_x: x, ..self }
    }

    pub open spec fn with_cursor_y(self, y: usize) -> EditorState {
        EditorState { cursor_y: y, ..self }
    }

    pub open spec fn with_mode(self, mode: Modes) -> EditorState {
        EditorState { mode, ..self }
    }

    /// What a key does before the cursor is pulled back onto its row.
    /// `pending` tells whether the previous key was a `g` in normal mode.
    pub open spec fn key_action(self, key: KeyCode, pending: bool) -> EditorState {
        let normal = self.mode == Modes::Normal;
        let len = self.text_rows.len();
        if key == KeyCode::Left {
            self.with_cursor_x(self.cursor_x.saturating_sub(1))
        } else if key == KeyCode::Right {
            self.with_cursor_x(self.cursor_x.saturating_add(1))
        } else if key == KeyCode::Up {
            self.with_cursor_y(self.cursor_y.saturating_sub(1))
        } else if key == KeyCode::Down && self.cursor_y + 1 < len {
            self.with_cursor_y((self.cursor_y + 1) as usize)
        } else if key == KeyCode::Esc {
            self.with_mode(Modes::Normal)
        } else if key == KeyCode::Char('a') && normal {
            self.with_cursor_x((self.cursor_x + 1) as usize).with_mode(Modes::Insert)
        } else if key == KeyCode::Char('A') && normal {
            self.with_cursor_x(self.current_row_len() as usize).with_mode(Modes::Insert)
        } else if key == KeyCode::Char('i') && normal {
            self.with_mode(Modes::Insert)
        } else if key == KeyCode::Char('I') && normal {
            self.with_cursor_x(self.first_char_col()).with_mode(Modes::Insert)
        } else if (key == KeyCode::Char('r') || key == KeyCode::Char('R')) && normal {
            self.with_mode(Modes::Replace)
        } else if (key == KeyCode::Char('v') || key == KeyCode::Char('V')) && normal {
            self.with_mode(Modes::Visual)
        } else if key == KeyCode::Backspace && normal {
            self.with_cursor_x(self.cursor_x.saturating_sub(1))
        } else if key == KeyCode::Enter && normal {
            self.with_cursor_y(self.cursor_y.saturating_add(1))
        } else if key == KeyCode::Char('0') && normal {
            self.with_cursor_x(0)
        } else if key == KeyCode::Char('h') && pending && normal {
            self.with_cursor_x(self.first_char_col())
        } else if key == KeyCode::Char('_') && normal {
            self.with_cursor_x(self.first_char_col())
        } else if key == KeyCode::Char('g') && pending && normal {
            self.with_cursor_y(0)
        } else if key == KeyCode::Char('g') && normal {
            EditorState { pending_g: true, ..self }
        } else if key == KeyCode::Char('$') && normal {
            self.with_cursor_x((self.current_row_len() as usize).saturating_sub(1))
        } else if key == KeyCode::Char('l') && pending && normal {
            self.with_cursor_x((self.current_row_len() as usize).saturating_sub(1))
        } else if key == KeyCode::Char('G') && normal {
            self.with_cursor_y((len as usize).saturating_sub(1))
        } else if key == KeyCode::Char('M') && normal {
            self.with_cursor_y((self.row_offset + self.rows / 2) as usize)
        } else if key == KeyCode::Char('h') && normal {
            self.with_cursor_x(self.cursor_x.saturating_sub(1))
        } else if key == KeyCode::Char('l') && self.cursor_x + 1 < self.current_row_len() && normal {
            self.with_cursor_x(self.cursor_x.saturating_add(1))
        } else if key == KeyCode::Char('k') && normal {
            self.with_cursor_y(self.cursor_y.saturating_sub(1))
        } else if key == KeyCode::Char('j') && self.cursor_y + 1 < len && normal {
            self.with_cursor_y((self.cursor_y + 1) as usize)
        } else if key is Char && self.mode == Modes::Insert {
            self.inserted(key->Char_0)
        } else if key == KeyCode::Enter && self.mode == Modes::Insert {
            EditorState {
                text_rows: self.text_rows.push(row_of(Seq::empty())),
                cursor_y: (self.cursor_y + 1) as usize,
                ..self
            }
        } else {
            self
        }
    }

    /// The editor after one key press: a pending `g` is used up, the key
    /// acts, and the cursor is pulled back onto its row.
    pub open spec fn after_key(self, key: KeyCode) -> EditorState {
        EditorState { pending_g: false, ..self }.key_action(key, self.pending_g).clamped()
    }

    /// The sums that a key press computes stay within `usize`.
    pub open spec fn key_in_range(self, key: KeyCode) -> bool {
        self.key_fits(key, self.pending_g)
    }

    /// The sums that `key_action` computes stay within `usize`.
    pub open spec fn key_fits(self, key: KeyCode, pending: bool) -> bool {
        let normal = self.mode == Modes::Normal;
        &&& (key == KeyCode::Down || key == KeyCode::Char('j')) ==> self.cursor_y < usize::MAX
        &&& key == KeyCode::Enter && self.mode == Modes::Insert ==> self.cursor_y < usize::MAX
        &&& key == KeyCode::Char('a') && normal ==> self.cursor_x < usize::MAX
        &&& key == KeyCode::Char('l') && !(pending && normal) ==> self.cursor_x < usize::MAX
        &&& key == KeyCode::Char('M') && normal ==> self.row_offset + self.rows / 2 <= usize::MAX
    }
}

/// The characters of the cursor's row, none when the cursor is below the
/// last row.
fn current_row_chars(editor: &Editor) -> (v: Vec<char>)
    ensures
        v@ == editor@.current_row(),
{
    if editor.cursor_y < editor.text_rows.len() {
        chars_of(editor.text_rows[editor.cursor_y].chars.as_str())
    } else {
        Vec::new()
    }
}

/// Column of the first character of the cursor's row that is not white
/// space, or 0.
fn first_char_col(editor: &Editor) -> (x: usize)
    ensures
        x == editor@.first_char_col(),
{
    let v = current_row_chars(editor);
    first_non_white_space_pos(&v)
}

/// What a key does, before the cursor is pulled back onto its row.
fn apply_key(editor: &mut Editor, key: KeyCode, pending_g: bool)
    requires
        old(editor)@.key_fits(key, pending_g),
    ensures
        final(editor)@ == old(editor)@.key_action(key, pending_g),
        old(editor)@.wf() ==> final(editor)@.wf(),
        final(editor).status_message == old(editor).status_message,
{
    let mut typed: Option<char> = None;
    match key {
        KeyCode::Left => {
            editor.cursor_x = editor.cursor_x.saturating_sub(1);
        },
        KeyCode::Right => {
            editor.cursor_x = editor.cursor_x.saturating_add(1);
        },
        KeyCode::Up => {
            editor.cursor_y = editor.cursor_y.saturating_sub(1);
        },
        KeyCode::Down if editor.cursor_y + 1 < editor.text_rows.len() => {
            editor.cursor_y += 1;
        },
        KeyCode::Esc => {
            editor.mode = Modes::Normal;
        },
        KeyCode::Char('a') if editor.mode == Modes::Normal => {
            editor.cursor_x += 1;
            editor.mode = Modes::Insert;
        },
        KeyCode::Char('A') if editor.mode == Modes::Normal => {
            editor.cursor_x = editor.current_row_len();
            editor.mode = Modes::Insert;
        },
        KeyCode::Char('i') if editor.mode == Modes::Normal => {
            editor.mode = Modes::Insert;
        },
        KeyCode::Char('I') if editor.mode == Modes::Normal => {
            editor.cursor_x = first_char_col(editor);
            editor.mode = Modes::Insert;
        },
        KeyCode::Char('r') if editor.mode == Modes::Normal => {
            editor.mode = Modes::Replace;
        },
        KeyCode::Char('R') if editor.mode == Modes::Normal => {
            editor.mode = Modes::Replace;
        },
        KeyCode::Char('v') if editor.mode == Modes::Normal => {
            editor.mode = Modes::Visual;
        },
        KeyCode::Char('V') if editor.mode == Modes::Normal => {
            editor.mode = Modes::Visual;
        },
        KeyCode::Backspace if editor.mode == Modes::Normal => {
            editor.cursor_x = editor.cursor_x.saturating_sub(1);
        },
        KeyCode::Enter if editor.mode == Modes::Normal => {
            editor.cursor_y = editor.cursor_y.saturating_add(1);
        },
        KeyCode::Char('0') if editor.mode == Modes::Normal => {
            editor.cursor_x = 0;
        },
        KeyCode::Char('h') if pending_g && editor.mode == Modes::Normal => {
            editor.cursor_x = first_char_col(editor);
        },
        KeyCode::Char('_') if editor.mode == Modes::Normal => {
            editor.cursor_x = first_char_col(editor);
        },
        KeyCode::Char('g') if pending_g && editor.mode == Modes::Normal => {
            editor.cursor_y = 0;
        },
        KeyCode::Char('g') if editor.mode == Modes::Normal => {
            editor.pending_g = true;
        },
        KeyCode::Char('$') if editor.mode == Modes::Normal => {
            editor.cursor_x = editor.current_row_len().saturating_sub(1);
        },
        KeyCode::Char('l') if pending_g && editor.mode == Modes::Normal => {
            editor.cursor_x = editor.current_row_len().saturating_sub(1);
        },
        KeyCode::Char('G') if editor.mode == Modes::Normal => {
            editor.cursor_y = editor.text_rows.len().saturating_sub(1);
        },
        KeyCode::Char('M') if editor.mode == Modes::Normal => {
            editor.cursor_y = editor.row_offset + editor.rows as usize / 2;
        },
        KeyCode::Char('h') if editor.mode == Modes::Normal => {
            editor.cursor_x = editor.cursor_x.saturating_sub(1);
        },
        KeyCode::Char('l') if editor.cursor_x + 1 < editor.current_row_len() && editor.mode
            == Modes::Normal => {
            editor.cursor_x = editor.cursor_x.saturating_add(1);
        },
        KeyCode::Char('k') if editor.mode == Modes::Normal => {
            editor.cursor_y = editor.cursor_y.saturating_sub(1);
        },
        KeyCode::Char('j') if editor.cursor_y + 1 < editor.text_rows.len() && editor.mode
            == Modes::Normal => {
            editor.cursor_y += 1;
        },
        KeyCode::Char(c) if editor.mode == Modes::Insert => {
            typed = Some(c);
        },
        KeyCode::Enter if editor.mode == Modes::Insert => {
            editor.text_rows.push(EditorRow::new(String::new()));
            editor.cursor_y += 1;
            assert(editor@.text_rows == old(editor)@.text_rows.push(row_of(Seq::empty())));
        },
        _ => {},
    }
    if let Some(c) = typed {
        editor.insert_char(c);
    }
}

/// Applies one key press to the editor.
///
/// # Available keybindings
///
/// ## All modes
/// - arrow keys to move through text
/// - ESC to return to normal mode
///
/// ## Normal mode
/// - hkjl to move through text
/// - Backspace to move back one char
/// - Enter to move one row down
/// - $ or gl to move to last char in row
/// - 0 to move to start of the row
/// - gh / _ to move to first char in row
/// - gg to move to first row
/// - G to move to last row
/// - M to move to middle line of screen
/// - a to enter insert mode to the right of the cursor
/// - A to enter insert mode at the end of the row
/// - i to enter insert mode to the left of the cursor
/// - I to enter insert mode to the left of the first char in the row
/// - r / R to enter replace mode
/// - v / V to enter visual mode
///
/// ## Insert mode
/// - a character is typed at the cursor
/// - Enter adds an empty row at the end of the file and moves down
pub fn handle_keypress(editor: &mut Editor, key: KeyCode)
    requires
        old(editor)@.key_in_range(key),
    ensures
        final(editor)@ == old(editor)@.after_key(key),
        old(editor)@.wf() ==> final(editor)@.wf(),
        final(editor).status_message == old(editor).status_message,
{
    // get a local state of pending_g so we don't have to reset it on every branch
    let pending_g = editor.pending_g;
    editor.pending_g = false;
    apply_key(editor, key, pending_g);

    let row_len = editor.current_row_len();
    let line_length = if editor.mode != Modes::Insert {
        row_len.saturating_sub(1)
    } else {
        row_len
    };
    let ghost acted_rows = editor@.text_rows;
    if editor.cursor_x > line_length {
        editor.cursor_x = line_length;
    }
    assert(editor@.text_rows == acted_rows);
}


/// `KeyModifiers::CONTROL` is set in the bits of a modifier set.
pub open spec fn has_control(modifiers: u8) -> bool {
    modifiers & 0b0000_0010u8 == 0b0000_0010u8
}

/// crossterm's `KeyModifiers::from_bits_retain(bits).contains(KeyModifiers::CONTROL)`:
/// in crossterm `CONTROL` is the bit `0b0000_0010`, and bitflags' `contains`
/// tests `bits & other == other`.
#[verifier::external_body]
fn modifiers_contain_control(modifiers: u8) -> (res: bool)
    ensures
        res == has_control(modifiers),
{
    crossterm::event::KeyModifiers::from_bits_retain(modifiers).contains(
        crossterm::event::KeyModifiers::CONTROL,
    )
}

/// Whether a key event asks the editor to quit: Ctrl-q.
pub open spec fn is_quit(code: KeyCode, modifiers: u8) -> bool {
    code == KeyCode::Char('q') && has_control(modifiers)
}

/// Handles one key event, given its key and the bits of its modifier set.
/// Ctrl-q asks to quit and changes nothing; any other key is applied to the
/// editor (see `handle_keypress`). Returns whether to quit.
pub fn process_key_event(editor: &mut Editor, code: KeyCode, modifiers: u8) -> (quit: bool)
    requires
        !is_quit(code, modifiers) ==> old(editor)@.key_in_range(code),
    ensures
        quit == is_quit(code, modifiers),
        quit ==> final(editor)@ == old(editor)@,
        !quit ==> final(editor)@ == old(editor)@.after_key(code),
        old(editor)@.wf() ==> final(editor)@.wf(),
        final(editor).status_message == old(editor).status_message,
{
    if code == KeyCode::Char('q') && modifiers_contain_control(modifiers) {
        true
    } else {
        handle_keypress(editor, code);
        false
    }
}

} // verus!
