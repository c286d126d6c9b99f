use std::time::Instant;

use vstd::prelude::*;

use crate::modes::Modes;
use crate::text::{
    chars_of, expand_tabs, lines_of, push_char, push_chars, push_repeated, split_lines,
    string_from_chars, TAB_WIDTH,
};

verus! {

broadcast use vstd::string::group_string_axioms;

/// `std::time::Instant`, carried through as an opaque value.
#[verifier::external_type_specification]
#[verifier::external_body]
pub struct ExInstant(Instant);

/// A message shown to the user, with the moment it was created.
pub struct StatusMessage {
    pub text: String,
    pub created_at: Instant,
}

/// One line of the file: its characters, and how they are drawn on screen.
pub struct EditorRow {
    pub chars: String,
    pub render: String,
}

/// The abstract value of a row.
pub struct RowView {
    pub chars: Seq<char>,
    pub render: Seq<char>,
}

impl View for EditorRow {
    type V = RowView;

    open spec fn view(&self) -> RowView {
        RowView { chars: self.chars@, render: self.render@ }
    }
}

/// The abstract values of a sequence of rows.
pub open spec fn rows_view(rows: Seq<EditorRow>) -> Seq<RowView> {
    Seq::new(rows.len(), |i: int| rows[i]@)
}

/// The row that holds `chars`, drawn with its tabs expanded.
pub open spec fn row_of(chars: Seq<char>) -> RowView {
    RowView { chars, render: expand_tabs(chars) }
}

impl RowView {
    /// The rendering of the row is its characters with tabs expanded.
    pub open spec fn wf(self) -> bool {
        self.render == expand_tabs(self.chars)
    }
}

/// The state of the editor.
pub struct Editor {
    pub cols: u16,
    pub rows: u16,
    pub cursor_x: usize,
    pub cursor_y: usize,
    pub render_x: usize,
    // tracks whether gg to go top of file is going to be pressed
    pub pending_g: bool,
    pub text_rows: Vec<EditorRow>,
    // which file line is at the top and edge of the screen
    pub row_offset: usize,
    pub col_offset: usize,
    pub mode: Modes,
    pub filename: Option<String>,
    pub status_message: Option<StatusMessage>,
}

/// The abstract value of the editor: every field but the status message,
/// with strings as character sequences.
pub struct EditorState {
    pub cols: u16,
    pub rows: u16,
    pub cursor_x: usize,
    pub cursor_y: usize,
    pub render_x: usize,
    pub pending_g: bool,
    pub text_rows: Seq<RowView>,
    pub row_offset: usize,
    pub col_offset: usize,
    pub mode: Modes,
    pub filename: Option<Seq<char>>,
}

impl View for Editor {
    type V = EditorState;

    open spec fn view(&self) -> EditorState {
        EditorState {
            cols: self.cols,
            rows: self.rows,
            cursor_x: self.cursor_x,
            cursor_y: self.cursor_y,
            render_x: self.render_x,
            pending_g: self.pending_g,
            text_rows: rows_view(self.text_rows@),
            row_offset: self.row_offset,
            col_offset: self.col_offset,
            mode: self.mode,
            filename: match self.filename {
                Some(f) => Some(f@),
                None => None,
            },
        }
    }
}

impl EditorState {
    /// Every row is drawn as its characters with tabs expanded.
    pub open spec fn wf(self) -> bool {
        forall|i: int| 0 <= i < self.text_rows.len() ==> (#[trigger] self.text_rows[i]).wf()
    }

    /// The characters of the row the cursor is on; none when the cursor is
    /// below the last row.
    pub open spec fn current_row(self) -> Seq<char> {
        if self.cursor_y < self.text_rows.len() {
            self.text_rows[self.cursor_y as int].chars
        } else {
            Seq::empty()
        }
    }

    /// Number of characters in the row the cursor is on.
    pub open spec fn current_row_len(self) -> nat {
        self.current_row().len()
    }

    /// The editor after loading the file `filename` whose text is
    /// `contents`: one row per line of the text, the rest unchanged.
    pub open spec fn loaded(self, filename: Seq<char>, contents: Seq<char>) -> EditorState {
        EditorState {
            filename: Some(filename),
            text_rows: split_lines(contents).map_values(|l: Seq<char>| row_of(l)),
            ..self
        }
    }
}

/// Margin kept between the cursor and an edge of a view `size` cells long:
/// five cells, but never more than half of what lies beside the cursor.
pub open spec fn scroll_margin(size: usize) -> usize {
    if 5 <= size.saturating_sub(1) / 2 { 5 } else { size.saturating_sub(1) / 2 }
}

/// Moves the start of a view `size` cells long so that `cursor` keeps at
/// least `scroll_margin(size)` cells to either edge; a view that already
/// does so stays where it is. Near the start of the file the view stops at
/// offset 0; moving it down or right, `cursor + margin + 1` saturates at
/// `usize::MAX`.
pub open spec fn scrolled_offset(offset: usize, cursor: usize, size: usize) -> usize {
    let m = scroll_margin(size);
    let first = if cursor < offset + m { cursor.saturating_sub(m) } else { offset };
    if cursor >= first + size - m {
        cursor.saturating_add(m).saturating_add(1).saturating_sub(size)
    } else {
        first
    }
}

/// Whether the view moves down (or right) to follow the cursor.
pub open spec fn scrolls_down(offset: usize, cursor: usize, size: usize) -> bool {
    let m = scroll_margin(size);
    let first = if cursor < offset + m { cursor.saturating_sub(m) } else { offset };
    cursor >= first + size - m
}

/// `scrolled_offset` can be computed without overflow.
pub open spec fn scroll_fits(offset: usize, cursor: usize, size: usize) -> bool {
    let m = scroll_margin(size);
    let first = if cursor < offset + m { cursor.saturating_sub(m) } else { offset };
    &&& offset + m <= usize::MAX
    &&& first + size <= usize::MAX
}

impl EditorState {
    /// The editor after its view has followed the cursor.
    pub open spec fn scrolled(self) -> EditorState {
        if self.rows == 0 {
            self
        } else {
            EditorState {
                row_offset: scrolled_offset(self.row_offset, self.cursor_y, self.rows as usize),
                col_offset: scrolled_offset(self.col_offset, self.cursor_x, self.cols as usize),
                ..self
            }
        }
    }

    /// The sums that scrolling computes stay within `usize`.
    pub open spec fn scroll_in_range(self) -> bool {
        self.rows > 0 ==> {
            &&& scroll_fits(self.row_offset, self.cursor_y, self.rows as usize)
            &&& scrolls_down(self.row_offset, self.cursor_y, self.rows as usize) ==> self.cursor_y
                + scroll_margin(self.rows as usize) + 1 <= usize::MAX
            &&& scroll_fits(self.col_offset, self.cursor_x, self.cols as usize)
        }
    }
}


impl EditorState {
    /// The editor after `c` was typed at the cursor: below the last row a new
    /// empty row is added first and the cursor moves onto it; the character
    /// goes in at the cursor's column (at the end of the row if the cursor is
    /// past it), and the cursor ends up just after it.
    pub open spec fn inserted(self, c: char) -> EditorState {
        let len = self.text_rows.len();
        let y: int = if self.cursor_y < len { self.cursor_y as int } else { len as int };
        let rows = if self.cursor_y < len {
            self.text_rows
        } else {
            self.text_rows.push(row_of(Seq::empty()))
        };
        let line = rows[y].chars;
        let at: int = if self.cursor_x <= line.len() { self.cursor_x as int } else { line.len() as int };
        EditorState {
            text_rows: rows.update(y, row_of(line.take(at).push(c) + line.skip(at))),
            cursor_y: y as usize,
            cursor_x: (at + 1) as usize,
            ..self
        }
    }
}

/// The message shown when the editor starts.
pub open spec fn greeting() -> Seq<char> {
    seq!['C', 't', 'r', 'l', '-', 'q', ' ', 't', 'o', ' ', 'q', 'u', 'i', 't']
}

impl EditorRow {
    /// A row holding `chars`, with every tab drawn as `TAB_WIDTH` spaces.
    pub fn new(chars: String) -> (row: Self)
        ensures
            row.chars@ == chars@,
            row.render@ == expand_tabs(chars@),
            row@ == row_of(chars@),
    {
        let v = chars_of(chars.as_str());
        let mut render = String::new();
        let mut i: usize = 0;
        while i < v.len()
            invariant
                i <= v.len(),
                v@ == chars@,
                render@ == expand_tabs(v@.take(i as int)),
            decreases v.len() - i,
        {
            let c = v[i];
            assert(v@.take(i + 1).drop_last() == v@.take(i as int));
            if c == '\t' {
                push_repeated(&mut render, ' ', TAB_WIDTH);
            } else {
                push_char(&mut render, c);
            }
            i = i + 1;
        }
        assert(v@.take(v.len() as int) == v@);
        EditorRow { chars, render }
    }
}

impl Editor {
    /// A fresh editor for a terminal of `screen_cols` by `screen_rows`
    /// cells: two lines are kept for the status bar, there is no file, the
    /// cursor is at the top left, and the greeting message is shown.
    pub fn new(screen_cols: u16, screen_rows: u16, now: Instant) -> (editor: Self)
        ensures
            editor@ == (EditorState {
                cols: screen_cols,
                rows: screen_rows.saturating_sub(2),
                cursor_x: 0,
                cursor_y: 0,
                render_x: 0,
                pending_g: false,
                text_rows: Seq::empty(),
                row_offset: 0,
                col_offset: 0,
                mode: Modes::Normal,
                filename: None,
            }),
            editor.status_message matches Some(m) && m.text@ == greeting() && m.created_at == now,
    {
        let mut text = String::new();
        push_char(&mut text, 'C');
        push_char(&mut text, 't');
        push_char(&mut text, 'r');
        push_char(&mut text, 'l');
        push_char(&mut text, '-');
        push_char(&mut text, 'q');
        push_char(&mut text, ' ');
        push_char(&mut text, 't');
        push_char(&mut text, 'o');
        push_char(&mut text, ' ');
        push_char(&mut text, 'q');
        push_char(&mut text, 'u');
        push_char(&mut text, 'i');
        push_char(&mut text, 't');
        let editor = Editor {
            cols: screen_cols,
            rows: screen_rows.saturating_sub(2),
            cursor_x: 0,
            cursor_y: 0,
            render_x: 0,
            pending_g: false,
            text_rows: Vec::new(),
            row_offset: 0,
            col_offset: 0,
            mode: Modes::Normal,
            filename: None,
            status_message: Some(StatusMessage { text, created_at: now }),
        };
        assert(editor@.text_rows == Seq::<RowView>::empty());
        editor
    }

    /// Replaces the file being edited: `filename` is its name, and its rows
    /// are the lines of `contents`.
    pub fn load(&mut self, filename: String, contents: &str)
        ensures
            final(self)@ == old(self)@.loaded(filename@, contents@),
            final(self)@.wf(),
            final(self).status_message == old(self).status_message,
    {
        let lines = lines_of(contents);
        let mut rows: Vec<EditorRow> = Vec::new();
        let mut i: usize = 0;
        while i < lines.len()
            invariant
                i <= lines.len(),
                lines@.len() == split_lines(contents@).len(),
                forall|k: int| 0 <= k < lines@.len() ==> #[trigger] lines@[k]@ == split_lines(contents@)[k],
                rows@.len() == i,
                forall|k: int| 0 <= k < i ==> (#[trigger] rows@[k])@ == row_of(split_lines(contents@)[k]),
            decreases lines.len() - i,
        {
            let line = lines[i].clone();
            rows.push(EditorRow::new(line));
            i = i + 1;
        }
        self.filename = Some(filename);
        self.text_rows = rows;
        assert(self@.text_rows == split_lines(contents@).map_values(|l: Seq<char>| row_of(l)));
    }

    /// Number of characters in the row the cursor is on (0 below the last
    /// row).
    pub fn current_row_len(&self) -> (len: usize)
        ensures
            len == self@.current_row_len(),
    {
        if self.cursor_y < self.text_rows.len() {
            self.text_rows[self.cursor_y].chars.as_str().unicode_len()
        } else {
            0
        }
    }

    /// Moves the view so that the cursor stays on screen with a margin to
    /// every edge (see `scrolled_offset`). With a screen of no rows nothing
    /// moves.
    pub fn scroll(&mut self)
        requires
            old(self)@.scroll_in_range(),
        ensures
            final(self)@ == old(self)@.scrolled(),
            final(self).text_rows == old(self).text_rows,
            final(self).status_message == old(self).status_message,
    {
        // VERTICAL SCROLL
        let screen_rows = self.rows as usize;

        if screen_rows == 0 {
            return;
        }

        let half = screen_rows.saturating_sub(1) / 2;
        let v_margin = if 5 <= half { 5 } else { half };

        // if cursor is above the offset scroll up
        if self.cursor_y < self.row_offset + v_margin {
            self.row_offset = self.cursor_y.saturating_sub(v_margin);
        }

        // if cursor is below the offset scroll down
        if self.cursor_y >= self.row_offset + screen_rows - v_margin {
            self.row_offset = self.cursor_y + v_margin + 1 - screen_rows;
        }

        // HORIZONTAL SCROLL
        let screen_cols = self.cols as usize;
        let half = screen_cols.saturating_sub(1) / 2;
        let h_margin = if 5 <= half { 5 } else { half };

        if self.cursor_x < self.col_offset + h_margin {
            self.col_offset = self.cursor_x.saturating_sub(h_margin);
        }

        if self.cursor_x >= self.col_offset + screen_cols - h_margin {
            self.col_offset = self
                .cursor_x
                .saturating_add(h_margin)
                .saturating_add(1)
                .saturating_sub(screen_cols);
        }
    }

    /// Types `c` at the cursor (see `EditorState::inserted`).
    pub fn insert_char(&mut self, c: char)
        ensures
            final(self)@ == old(self)@.inserted(c),
            old(self)@.wf() ==> final(self)@.wf(),
            final(self).status_message == old(self).status_message,
    {
        let len = self.text_rows.len();
        if self.cursor_y >= len {
            self.text_rows.push(EditorRow::new(String::new()));
            self.cursor_y = len;
            assert(self@.text_rows == old(self)@.text_rows.push(row_of(Seq::empty())));
        }
        let y = self.cursor_y;
        let line = chars_of(self.text_rows[y].chars.as_str());
        let at = if self.cursor_x <= line.len() { self.cursor_x } else { line.len() };
        let mut chars = string_from_chars(&line, 0, at);
        push_char(&mut chars, c);
        push_chars(&mut chars, &line, at, line.len());
        assert(line@.subrange(0, at as int) == line@.take(at as int));
        assert(line@.subrange(at as int, line@.len() as int) == line@.skip(at as int));
        // the new row's length, a `usize`, bounds the new cursor column
        let new_row_len = chars.as_str().unicode_len();
        assert(at + 1 <= new_row_len);
        let row = EditorRow::new(chars);
        self.text_rows.set(y, row);
        self.cursor_x = at + 1;
        assert(self@.text_rows == old(self)@.inserted(c).text_rows);
    }
}

} // verus!
