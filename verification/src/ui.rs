use vstd::prelude::*;

use crate::editor::{Editor, EditorState};
use crate::modes::mode_name;
use crate::text::{
    chars_of, decimal, pad_left, push_char, push_chars, push_decimal, push_decimal_padded,
    push_repeated, repeat_char, utf8_len, utf8_len_up_to,
};

verus! {

broadcast use vstd::string::group_string_axioms;

/// The line shown in the middle of an empty screen.
pub const WELCOME_MESSAGE: &'static str = "Oxide Editor -- Version 0.1.0";

/// The characters of `WELCOME_MESSAGE`.
pub open spec fn welcome() -> Seq<char> {
    WELCOME_MESSAGE@
}

/// The part of a rendered row that fits on screen: `take` characters from
/// column `skip` on, fewer at the end of the row, none past it.
pub open spec fn visible_part(render: Seq<char>, skip: usize, take: u16) -> Seq<char> {
    if skip >= render.len() {
        Seq::empty()
    } else if skip + take <= render.len() {
        render.subrange(skip as int, skip + take)
    } else {
        render.subrange(skip as int, render.len() as int)
    }
}

/// The welcome line for a screen `cols` wide: the message (cut to the screen
/// width), centred, the left padding starting with a `~`.
pub open spec fn home_line(cols: u16) -> Seq<char> {
    let message_len: int = if welcome().len() <= cols { welcome().len() as int } else { cols as int };
    let padding: int = (cols - message_len) / 2;
    let message = welcome().take(message_len);
    if padding > 0 {
        seq!['~'] + repeat_char(' ', (padding - 1) as nat) + message
    } else {
        message
    }
}

/// What screen line `row` shows: the visible part of the file row there;
/// on an empty file, the welcome line a third of the way down; otherwise a
/// `~`.
pub open spec fn row_text(s: EditorState, row: int) -> Seq<char> {
    let file_row = row + s.row_offset;
    if file_row < s.text_rows.len() {
        visible_part(s.text_rows[file_row].render, s.col_offset, s.cols)
    } else if s.text_rows.len() == 0 && row == s.rows / 3 {
        home_line(s.cols)
    } else {
        seq!['~']
    }
}

/// The first `n` screen lines, each but the last of the screen followed by
/// `"\r\n"`.
pub open spec fn rows_text(s: EditorState, n: int) -> Seq<char>
    decreases n,
{
    if n <= 0 {
        Seq::empty()
    } else {
        let line = row_text(s, n - 1);
        let sep = if n < s.rows { seq!['\r', '\n'] } else { Seq::empty() };
        rows_text(s, n - 1) + line + sep
    }
}

/// The whole text area of the screen, ending with `"\r\n"`.
pub open spec fn screen_text(s: EditorState) -> Seq<char> {
    rows_text(s, s.rows as int) + seq!['\r', '\n']
}

/// Appends the welcome line for a screen `cols` wide.
fn show_home_screen(cols: u16, buffer: &mut String)
    ensures
        final(buffer)@ == old(buffer)@ + home_line(cols),
{
    proof {
        reveal_strlit("Oxide Editor -- Version 0.1.0");
    }
    let message = chars_of(WELCOME_MESSAGE);
    let message_len = if message.len() <= cols as usize { message.len() } else { cols as usize };
    let mut padding = (cols as usize - message_len) / 2;

    if padding > 0 {
        push_char(buffer, '~');
        padding -= 1;
    }
    push_repeated(buffer, ' ', padding);
    push_chars(buffer, &message, 0, message_len);
    assert(message@.subrange(0, message_len as int) == welcome().take(message_len as int));
}

/// The text area of the screen (see `screen_text`).
pub fn draw_rows(screen: &Editor) -> (buffer: String)
    requires
        screen.row_offset + screen.rows <= usize::MAX + 1,
    ensures
        buffer@ == screen_text(screen@),
{
    let mut buffer = String::new();
    let rows = screen.rows;
    let cols = screen.cols;
    let ghost s = screen@;

    let mut row: u16 = 0;
    while row < rows
        invariant
            row <= rows,
            rows == screen.rows,
            cols == screen.cols,
            s == screen@,
            screen.row_offset + screen.rows <= usize::MAX + 1,
            buffer@ == rows_text(s, row as int),
        decreases rows - row,
    {
        let file_row = row as usize + screen.row_offset;
        let ghost before = buffer@;
        if file_row < screen.text_rows.len() {
            let render = chars_of(screen.text_rows[file_row].render.as_str());
            let len = render.len();
            let start = screen.col_offset;
            if start < len {
                let end = if cols as usize <= len - start { start + cols as usize } else { len };
                push_chars(&mut buffer, &render, start, end);
            }
        } else if screen.text_rows.len() == 0 && row == rows / 3 {
            show_home_screen(cols, &mut buffer);
        } else {
            push_char(&mut buffer, '~');
        }
        assert(buffer@ == before + row_text(s, row as int));

        if row + 1 < rows {
            push_char(&mut buffer, '\r');
            push_char(&mut buffer, '\n');
        }
        row = row + 1;
    }
    push_char(&mut buffer, '\r');
    push_char(&mut buffer, '\n');
    buffer
}

/// The name of the file, or `NO FILE`.
pub open spec fn file_label(s: EditorState) -> Seq<char> {
    match s.filename {
        Some(f) => f,
        None => seq!['N', 'O', ' ', 'F', 'I', 'L', 'E'],
    }
}

/// The left part of the status bar: ` MODE | file | N lines`.
pub open spec fn status_text(s: EditorState) -> Seq<char> {
    seq![' '] + mode_name(s.mode) + seq![' ', '|', ' '] + file_label(s) + seq![' ', '|', ' ']
        + decimal(s.text_rows.len()) + seq![' ', 'l', 'i', 'n', 'e', 's']
}

/// The status bar: its left part, spaces up to five columns before the
/// screen width, counted in bytes of UTF-8, and the cursor position as
/// `row:col`, each number at least two characters wide.
pub open spec fn status_bar(s: EditorState) -> Seq<char> {
    let text = status_text(s);
    text + repeat_char(' ', (s.cols - utf8_len(text) - 5) as nat)
        + pad_left(decimal(s.cursor_y as nat), 2) + seq![':'] + pad_left(decimal(s.cursor_x as nat), 2)
}

/// The left part of the status bar (see `status_text`).
pub fn status_summary(screen: &Editor) -> (text: String)
    ensures
        text@ == status_text(screen@),
{
    let mut text = String::new();
    push_char(&mut text, ' ');
    text.append(screen.mode.as_str());
    push_char(&mut text, ' ');
    push_char(&mut text, '|');
    push_char(&mut text, ' ');
    match &screen.filename {
        Some(f) => text.append(f.as_str()),
        None => {
            push_char(&mut text, 'N');
            push_char(&mut text, 'O');
            push_char(&mut text, ' ');
            push_char(&mut text, 'F');
            push_char(&mut text, 'I');
            push_char(&mut text, 'L');
            push_char(&mut text, 'E');
        },
    }
    push_char(&mut text, ' ');
    push_char(&mut text, '|');
    push_char(&mut text, ' ');
    push_decimal(&mut text, screen.text_rows.len());
    push_char(&mut text, ' ');
    push_char(&mut text, 'l');
    push_char(&mut text, 'i');
    push_char(&mut text, 'n');
    push_char(&mut text, 'e');
    push_char(&mut text, 's');
    text
}

/// The status bar (see `status_bar`). The screen must be wide enough for
/// its left part and five more columns.
pub fn show_status_bar(screen: &Editor) -> (output: String)
    requires
        utf8_len(status_text(screen@)) + 5 <= screen.cols,
    ensures
        output@ == status_bar(screen@),
{
    let mut output = status_summary(screen);
    let text_chars = chars_of(output.as_str());
    let width = screen.cols as usize;
    let text_len = match utf8_len_up_to(&text_chars, width - 5) {
        Some(n) => n,
        None => width - 5,
    };
    push_repeated(&mut output, ' ', width - text_len - 5);
    push_decimal_padded(&mut output, screen.cursor_y, 2);
    push_char(&mut output, ':');
    push_decimal_padded(&mut output, screen.cursor_x, 2);
    output
}

} // verus!
