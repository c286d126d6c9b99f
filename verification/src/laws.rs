use vstd::prelude::*;

use crate::editor::{row_of, scroll_fits, scroll_margin, scrolled_offset, EditorState};
use crate::input::KeyCode;
use crate::modes::Modes;
use vstd::math::{max, min};
use crate::text::{
    decimal, digit_char, expand_tabs, is_white_space, lemma_first_non_white_space, lemma_utf8_len_concat, line_scan, pad_left, repeat_char,
    split_lines, strip_cr, utf8_len, TAB_WIDTH,
};
use crate::ui::{home_line, row_text, status_bar, status_text, welcome};

verus! {

/// Escape returns to normal mode, whatever the mode and the state.
pub proof fn law_escape_returns_to_normal(s: EditorState)
    ensures
        s.after_key(KeyCode::Esc).mode == Modes::Normal,
{
}

/// After any key the cursor stands on its row: at most on the last
/// character (at most one past it in insert mode), at column 0 on an empty
/// row.
pub proof fn law_cursor_stays_on_row(s: EditorState, key: KeyCode)
    ensures
        s.after_key(key).cursor_x <= s.after_key(key).max_cursor_x(),
{
}

/// A `g` is pending only right after a `g` pressed in normal mode that did
/// not itself complete a `gg`.
pub proof fn law_pending_g_only_after_g(s: EditorState, key: KeyCode)
    ensures
        s.after_key(key).pending_g <==> (key == KeyCode::Char('g') && s.mode == Modes::Normal
            && !s.pending_g),
{
}

/// `gg` in normal mode moves to the first row.
pub proof fn law_gg_goes_to_top(s: EditorState)
    requires
        s.mode == Modes::Normal,
    ensures
        s.after_key(KeyCode::Char('g')).after_key(KeyCode::Char('g')).cursor_y == 0,
{
}

/// In normal mode `j` then `k` comes back to the same row when there is a
/// row below.
pub proof fn law_down_then_up(s: EditorState)
    requires
        s.mode == Modes::Normal,
        s.cursor_y + 1 < s.text_rows.len() <= usize::MAX,
    ensures
        s.after_key(KeyCode::Char('j')).after_key(KeyCode::Char('k')).cursor_y == s.cursor_y,
{
}


/// In normal mode `a`, `A`, `i` and `I` enter insert mode, `v` and `V`
/// visual mode, `r` and `R` replace mode.
pub proof fn law_mode_keys(s: EditorState)
    requires
        s.mode == Modes::Normal,
    ensures
        s.after_key(KeyCode::Char('a')).mode == Modes::Insert,
        s.after_key(KeyCode::Char('A')).mode == Modes::Insert,
        s.after_key(KeyCode::Char('i')).mode == Modes::Insert,
        s.after_key(KeyCode::Char('I')).mode == Modes::Insert,
        s.after_key(KeyCode::Char('v')).mode == Modes::Visual,
        s.after_key(KeyCode::Char('V')).mode == Modes::Visual,
        s.after_key(KeyCode::Char('r')).mode == Modes::Replace,
        s.after_key(KeyCode::Char('R')).mode == Modes::Replace,
{
}

/// In normal mode `G` moves to the last row, and `$` to the last character
/// of the row.
pub proof fn law_to_last_row_and_char(s: EditorState)
    requires
        s.mode == Modes::Normal,
        s.text_rows.len() <= usize::MAX,
        s.current_row_len() <= usize::MAX,
    ensures
        s.text_rows.len() > 0 ==> s.after_key(KeyCode::Char('G')).cursor_y == s.text_rows.len() - 1,
        s.current_row_len() > 0 ==> s.after_key(KeyCode::Char('$')).cursor_x == s.current_row_len() - 1,
{
}

/// In insert mode a typed character goes in at the cursor (at the end of
/// the row when the cursor is past it), the other characters and rows stay,
/// and the cursor moves just after it.
pub proof fn law_typed_char_lands_at_cursor(s: EditorState, c: char)
    requires
        s.mode == Modes::Insert,
        s.cursor_y < s.text_rows.len(),
        s.current_row_len() < usize::MAX,
    ensures
        ({
            let t = s.after_key(KeyCode::Char(c));
            let old_row = s.current_row();
            let at = if s.cursor_x <= old_row.len() { s.cursor_x as int } else { old_row.len() as int };
            &&& t.text_rows.len() == s.text_rows.len()
            &&& t.cursor_y == s.cursor_y
            &&& t.current_row() == old_row.take(at) + seq![c] + old_row.skip(at)
            &&& t.text_rows[s.cursor_y as int] == row_of(t.current_row())
            &&& t.cursor_x == at + 1
            &&& forall|i: int| 0 <= i < s.text_rows.len() && i != s.cursor_y ==> t.text_rows[i] == s.text_rows[i]
        }),
{
    let old_row = s.current_row();
    let at = if s.cursor_x <= old_row.len() { s.cursor_x as int } else { old_row.len() as int };
    assert(old_row.take(at).push(c) == old_row.take(at) + seq![c]);
}

/// After scrolling, the cursor is on screen: its row is among the screen
/// rows, and its column among the screen columns.
pub proof fn law_scroll_keeps_cursor_visible(s: EditorState)
    requires
        s.rows > 0,
        s.cols > 0,
        s.scroll_in_range(),
        s.cursor_x + scroll_margin(s.cols as usize) + 1 <= usize::MAX,
    ensures
        s.scrolled().row_offset <= s.cursor_y < s.scrolled().row_offset + s.rows,
        s.scrolled().col_offset <= s.cursor_x < s.scrolled().col_offset + s.cols,
{
}

/// Scrolling a second time changes nothing.
pub proof fn law_scroll_idempotent(s: EditorState)
    requires
        s.scroll_in_range(),
        s.cursor_x + scroll_margin(s.cols as usize) + 1 <= usize::MAX,
    ensures
        s.scrolled().scrolled() == s.scrolled(),
{
}


/// Number of times `c` occurs in `s`.
pub open spec fn count_char(s: Seq<char>, c: char) -> nat
    decreases s.len(),
{
    if s.len() == 0 {
        0
    } else {
        count_char(s.drop_last(), c) + if s.last() == c { 1nat } else { 0nat }
    }
}

/// A rendered row holds no tab, and each tab of the row has become
/// `TAB_WIDTH` characters: the rendering is longer by `TAB_WIDTH - 1` per
/// tab.
pub proof fn law_render_expands_tabs(s: Seq<char>)
    ensures
        forall|i: int| 0 <= i < expand_tabs(s).len() ==> #[trigger] expand_tabs(s)[i] != '\t',
        expand_tabs(s).len() == s.len() + (TAB_WIDTH - 1) * count_char(s, '\t'),
    decreases s.len(),
{
    if s.len() > 0 {
        law_render_expands_tabs(s.drop_last());
        let p = expand_tabs(s.drop_last());
        if s.last() == '\t' {
            assert forall|i: int| 0 <= i < expand_tabs(s).len() implies #[trigger] expand_tabs(s)[i] != '\t' by {
                if i >= p.len() {
                    assert(expand_tabs(s)[i] == repeat_char(' ', TAB_WIDTH as nat)[i - p.len()]);
                } else {
                    assert(expand_tabs(s)[i] == p[i]);
                }
            }
        } else {
            assert forall|i: int| 0 <= i < expand_tabs(s).len() implies #[trigger] expand_tabs(s)[i] != '\t' by {
                if i < p.len() {
                    assert(expand_tabs(s)[i] == p[i]);
                }
            }
        }
    }
}

/// The text with a `'\n'` after each line.
pub open spec fn join_lines(lines: Seq<Seq<char>>) -> Seq<char>
    decreases lines.len(),
{
    if lines.len() == 0 {
        Seq::empty()
    } else {
        join_lines(lines.drop_last()) + lines.last().push('\n')
    }
}

proof fn lemma_line_scan(s: Seq<char>)
    ensures
        forall|i: int| 0 <= i < line_scan(s).0.len() ==> !(#[trigger] line_scan(s).0[i]).contains('\n'),
        !line_scan(s).1.contains('\n'),
        !s.contains('\r') ==> join_lines(line_scan(s).0) + line_scan(s).1 == s,
        line_scan(s).1.len() == 0 ==> s.len() == 0 || s.last() == '\n',
    decreases s.len(),
{
    if s.len() > 0 {
        let p = s.drop_last();
        lemma_line_scan(p);
        let (done, cur) = line_scan(p);
        if !s.contains('\r') {
            assert(!p.contains('\r')) by {
                if p.contains('\r') {
                    let k = choose|k: int| 0 <= k < p.len() && p[k] == '\r';
                    assert(s[k] == '\r');
                }
            }
        }
        if s.last() == '\n' {
            let line = strip_cr(cur);
            assert(!line.contains('\n')) by {
                if line.contains('\n') {
                    let k = choose|k: int| 0 <= k < line.len() && line[k] == '\n';
                    assert(cur[k] == '\n');
                }
            }
            if !s.contains('\r') {
                if cur.len() > 0 {
                    assert(cur.last() == p[p.len() - 1]) by {
                        assert(join_lines(done) + cur == p);
                        assert(p[p.len() - 1] == (join_lines(done) + cur)[p.len() - 1]);
                    }
                    assert(cur.last() != '\r') by {
                        assert(s[p.len() - 1] == p[p.len() - 1]);
                    }
                }
                assert(line == cur);
                assert(join_lines(done.push(line)) == join_lines(done) + cur.push('\n')) by {
                    assert(done.push(line).drop_last() == done);
                }
                assert(join_lines(done) + cur.push('\n') == p.push('\n'));
                assert(s == p.push('\n'));
            }
            assert forall|i: int| 0 <= i < done.push(line).len() implies !(#[trigger] done.push(line)[i]).contains('\n') by {
                if i < done.len() {
                    assert(done.push(line)[i] == done[i]);
                }
            }
        } else {
            assert(!cur.push(s.last()).contains('\n')) by {
                if cur.push(s.last()).contains('\n') {
                    let k = choose|k: int| 0 <= k < cur.push(s.last()).len() && cur.push(s.last())[k] == '\n';
                    if k < cur.len() {
                        assert(cur[k] == '\n');
                    }
                }
            }
            if !s.contains('\r') {
                assert(join_lines(done) + cur.push(s.last()) == p.push(s.last()));
                assert(s == p.push(s.last()));
            }
        }
    }
}

/// No line holds a line feed; and a text without carriage returns is given
/// back by its lines, each followed by `'\n'`, up to a line ending added at
/// the end of a text that had none.
pub proof fn law_lines_round_trip(s: Seq<char>)
    ensures
        forall|i: int| 0 <= i < split_lines(s).len() ==> !(#[trigger] split_lines(s)[i]).contains('\n'),
        !s.contains('\r') ==> join_lines(split_lines(s)) == if s.len() == 0 || s.last() == '\n' {
            s
        } else {
            s.push('\n')
        },
{
    lemma_line_scan(s);
    let (done, cur) = line_scan(s);
    if cur.len() > 0 {
        assert forall|i: int| 0 <= i < done.push(cur).len() implies !(#[trigger] done.push(cur)[i]).contains('\n') by {
            if i < done.len() {
                assert(done.push(cur)[i] == done[i]);
            }
        }
        if !s.contains('\r') {
            assert(done.push(cur).drop_last() == done);
            assert(join_lines(done.push(cur)) == join_lines(done) + cur.push('\n'));
            assert(s.len() > 0 && s.last() == cur.last()) by {
                assert(s[s.len() - 1] == (join_lines(done) + cur)[s.len() - 1]);
            }
            assert(join_lines(done) + cur.push('\n') == s.push('\n'));
        }
    } else {
        if !s.contains('\r') {
            assert(join_lines(done) + cur == join_lines(done));
        }
    }
}


/// Nothing drawn on a screen line is wider than the screen.
pub proof fn law_rows_fit_screen(s: EditorState, row: int)
    requires
        s.cols > 0,
    ensures
        row_text(s, row).len() <= s.cols,
{
    let cols = s.cols;
    let message_len: int = if welcome().len() <= cols { welcome().len() as int } else { cols as int };
    assert(welcome().take(message_len).len() == message_len);
    assert(home_line(cols).len() <= cols);
}

proof fn lemma_utf8_len_ascii(s: Seq<char>)
    requires
        forall|i: int| 0 <= i < s.len() ==> (#[trigger] s[i] as u32) < 0x80,
    ensures
        utf8_len(s) == s.len(),
    decreases s.len(),
{
    if s.len() > 0 {
        assert forall|i: int| 0 <= i < s.drop_last().len() implies (#[trigger] s.drop_last()[i] as u32) < 0x80 by {
            assert(s.drop_last()[i] == s[i]);
        }
        lemma_utf8_len_ascii(s.drop_last());
        assert(s.last() == s[s.len() - 1]);
    }
}

proof fn lemma_small_decimal_field(n: nat)
    requires
        n < 100,
    ensures
        utf8_len(pad_left(decimal(n), 2)) == 2,
{
    let d = decimal(n);
    if n < 10 {
        assert(d == seq![digit_char(n)]);
    } else {
        assert(decimal(n / 10) == seq![digit_char(n / 10)]);
        assert(d == seq![digit_char(n / 10), digit_char(n % 10)]);
    }
    let f = pad_left(d, 2);
    assert(f.len() == 2);
    assert forall|i: int| 0 <= i < f.len() implies (#[trigger] f[i] as u32) < 0x80 by {
        if n < 10 {
            assert(f == seq![' ', digit_char(n)]);
        } else {
            assert(f == d);
        }
    }
    lemma_utf8_len_ascii(f);
}

/// With both cursor coordinates under 100, the status bar is exactly as
/// wide as the screen, counted in bytes of UTF-8.
pub proof fn law_status_bar_fills_screen(s: EditorState)
    requires
        utf8_len(status_text(s)) + 5 <= s.cols,
        s.cursor_x < 100,
        s.cursor_y < 100,
    ensures
        utf8_len(status_bar(s)) == s.cols,
{
    let text = status_text(s);
    let spaces = repeat_char(' ', (s.cols - utf8_len(text) - 5) as nat);
    let y = pad_left(decimal(s.cursor_y as nat), 2);
    let x = pad_left(decimal(s.cursor_x as nat), 2);
    lemma_small_decimal_field(s.cursor_y as nat);
    lemma_small_decimal_field(s.cursor_x as nat);
    lemma_utf8_len_ascii(spaces);
    lemma_utf8_len_ascii(seq![':']);
    lemma_utf8_len_concat(text, spaces);
    lemma_utf8_len_concat(text + spaces, y);
    lemma_utf8_len_concat(text + spaces + y, seq![':']);
    lemma_utf8_len_concat(text + spaces + y + seq![':'], x);
}


/// In normal mode `M` moves the cursor to the middle line of the screen:
/// `rows / 2` lines below the first line shown, so onto the screen.
pub proof fn law_m_goes_to_middle_of_screen(s: EditorState)
    requires
        s.mode == Modes::Normal,
        s.row_offset + s.rows / 2 <= usize::MAX,
    ensures
        s.after_key(KeyCode::Char('M')).cursor_y == s.row_offset + s.rows / 2,
        s.rows > 0 ==> s.row_offset <= s.after_key(KeyCode::Char('M')).cursor_y < s.row_offset
            + s.rows,
{
}

/// An offset of a view `size` cells long keeps the margin around `cursor`:
/// at least `scroll_margin(size)` cells before it (or the view starts at 0),
/// and at least as many after it.
pub open spec fn keeps_margin(o: int, cursor: int, size: int) -> bool {
    let m = scroll_margin(size as usize) as int;
    &&& 0 <= o
    &&& o <= if cursor >= m { cursor - m } else { 0 }
    &&& cursor + m + 1 <= o + size
}

/// Distance between two offsets.
pub open spec fn dist(a: int, b: int) -> int {
    if a <= b { b - a } else { a - b }
}

proof fn lemma_scrolled_offset_minimal(offset: usize, cursor: usize, size: usize)
    requires
        size > 0,
        scroll_fits(offset, cursor, size),
        cursor + scroll_margin(size) + 1 <= usize::MAX,
    ensures
        keeps_margin(scrolled_offset(offset, cursor, size) as int, cursor as int, size as int),
        forall|o: int| keeps_margin(o, cursor as int, size as int) ==> dist(o, offset as int) >= dist(
            scrolled_offset(offset, cursor, size) as int,
            offset as int,
        ),
        cursor < offset + scroll_margin(size) ==> scrolled_offset(offset, cursor, size)
            == cursor.saturating_sub(scroll_margin(size)),
        scrolled_offset(offset, cursor, size) == max(
            (cursor + scroll_margin(size) + 1 - size),
            min(offset as int, cursor.saturating_sub(scroll_margin(size)) as int),
        ),
{
}

/// Scrolling moves each offset as little as possible so that the cursor
/// keeps its margin to every edge of the screen: the new offset keeps the
/// margin, and no offset that keeps it lies closer to the old one. In
/// particular a cursor that moved into the left (or top) margin pulls the
/// view back by just enough.
pub proof fn law_scroll_moves_view_minimally(s: EditorState)
    requires
        s.rows > 0,
        s.cols > 0,
        s.scroll_in_range(),
        s.cursor_x + scroll_margin(s.cols as usize) + 1 <= usize::MAX,
    ensures
        keeps_margin(s.scrolled().row_offset as int, s.cursor_y as int, s.rows as int),
        forall|o: int| keeps_margin(o, s.cursor_y as int, s.rows as int) ==> dist(o, s.row_offset as int)
            >= dist(s.scrolled().row_offset as int, s.row_offset as int),
        keeps_margin(s.scrolled().col_offset as int, s.cursor_x as int, s.cols as int),
        forall|o: int| keeps_margin(o, s.cursor_x as int, s.cols as int) ==> dist(o, s.col_offset as int)
            >= dist(s.scrolled().col_offset as int, s.col_offset as int),
        s.cursor_x < s.col_offset + scroll_margin(s.cols as usize) ==> s.scrolled().col_offset
            == s.cursor_x.saturating_sub(scroll_margin(s.cols as usize)),
        s.cursor_y < s.row_offset + scroll_margin(s.rows as usize) ==> s.scrolled().row_offset
            == s.cursor_y.saturating_sub(scroll_margin(s.rows as usize)),
        s.scrolled().col_offset == max(
            s.cursor_x + scroll_margin(s.cols as usize) + 1 - s.cols,
            min(s.col_offset as int, s.cursor_x.saturating_sub(scroll_margin(s.cols as usize)) as int),
        ),
        s.scrolled().row_offset == max(
            s.cursor_y + scroll_margin(s.rows as usize) + 1 - s.rows,
            min(s.row_offset as int, s.cursor_y.saturating_sub(scroll_margin(s.rows as usize)) as int),
        ),
{
    lemma_scrolled_offset_minimal(s.row_offset, s.cursor_y, s.rows as usize);
    lemma_scrolled_offset_minimal(s.col_offset, s.cursor_x, s.cols as usize);
}


/// Value of a decimal digit character.
pub open spec fn digit_value(c: char) -> int {
    (c as u32) as int - ('0' as u32) as int
}

/// Whether a character is a decimal digit.
pub open spec fn is_digit(c: char) -> bool {
    '0' <= c && c <= '9'
}

/// Value of a numeral: its digits folded as `v * 10 + d`, left to right.
pub open spec fn numeral_value(s: Seq<char>) -> int
    decreases s.len(),
{
    if s.len() == 0 {
        0
    } else {
        numeral_value(s.drop_last()) * 10 + digit_value(s.last())
    }
}

/// `decimal(n)` is the base-10 numeral of `n`: a non-empty string of digits,
/// with no leading zero unless `n == 0`, whose value is `n`.
pub proof fn law_decimal_is_numeral(n: nat)
    ensures
        decimal(n).len() > 0,
        forall|i: int| 0 <= i < decimal(n).len() ==> is_digit(#[trigger] decimal(n)[i]),
        decimal(n)[0] == '0' ==> n == 0,
        numeral_value(decimal(n)) == n,
    decreases n,
{
    if n >= 10 {
        law_decimal_is_numeral(n / 10);
        let p = decimal(n / 10);
        let d = decimal(n);
        assert(d.drop_last() == p);
        assert forall|i: int| 0 <= i < d.len() implies is_digit(#[trigger] d[i]) by {
            if i < p.len() {
                assert(d[i] == p[i]);
            }
        }
        assert(d[0] == p[0]);
        assert(digit_value(digit_char(n % 10)) == n % 10);
        assert(d.last() == digit_char(n % 10));
        assert(numeral_value(d) == numeral_value(p) * 10 + digit_value(d.last()));
        assert((n / 10) * 10 + n % 10 == n);
    } else {
        let d = decimal(n);
        assert(d.drop_last() == Seq::<char>::empty());
        assert(digit_value(digit_char(n)) == n);
        assert(numeral_value(d) == numeral_value(d.drop_last()) * 10 + digit_value(d.last()));
    }
}

/// A line of the screen that shows a file row shows the characters of its
/// rendering from column `col_offset` on, in order: as many as fit on the
/// screen, and all that remain when fewer remain; none when the row ends
/// before `col_offset`.
pub proof fn law_row_shows_render_from_col_offset(s: EditorState, row: int)
    requires
        0 <= row,
        row + s.row_offset < s.text_rows.len(),
    ensures
        ({
            let render = s.text_rows[row + s.row_offset].render;
            let shown = row_text(s, row);
            &&& s.col_offset >= render.len() ==> shown.len() == 0
            &&& s.col_offset < render.len() ==> shown.len() == min(s.cols as int, render.len() - s.col_offset)
            &&& forall|i: int| 0 <= i < shown.len() ==> #[trigger] shown[i] == render[s.col_offset + i]
        }),
{
}

/// The text of lines joined with `sep` after each.
pub open spec fn join_with(lines: Seq<Seq<char>>, sep: Seq<char>) -> Seq<char>
    decreases lines.len(),
{
    if lines.len() == 0 {
        Seq::empty()
    } else {
        join_with(lines.drop_last(), sep) + lines.last() + sep
    }
}

proof fn lemma_line_scan_append(p: Seq<char>, x: Seq<char>)
    requires
        !x.contains('\n'),
    ensures
        line_scan(p + x) == (line_scan(p).0, line_scan(p).1 + x),
    decreases x.len(),
{
    if x.len() == 0 {
        assert(p + x == p);
        assert(line_scan(p).1 + x == line_scan(p).1);
    } else {
        let y = x.drop_last();
        assert(!y.contains('\n')) by {
            if y.contains('\n') {
                let k = choose|k: int| 0 <= k < y.len() && y[k] == '\n';
                assert(x[k] == '\n');
            }
        }
        lemma_line_scan_append(p, y);
        assert((p + x).drop_last() == p + y);
        assert(x.last() != '\n') by {
            assert(x[x.len() - 1] == x.last());
        }
        assert((p + x).last() == x.last());
        assert((line_scan(p).1 + y).push(x.last()) == line_scan(p).1 + x);
    }
}

proof fn lemma_line_scan_joined(lines: Seq<Seq<char>>, crlf: bool)
    requires
        forall|i: int| 0 <= i < lines.len() ==> !(#[trigger] lines[i]).contains('\n'),
        !crlf ==> forall|i: int| 0 <= i < lines.len() ==> !(#[trigger] lines[i]).contains('\r'),
    ensures
        line_scan(join_with(lines, if crlf { seq!['\r', '\n'] } else { seq!['\n'] })) == (
            lines,
            Seq::<char>::empty(),
        ),
    decreases lines.len(),
{
    let sep = if crlf { seq!['\r', '\n'] } else { seq!['\n'] };
    if lines.len() > 0 {
        let ls = lines.drop_last();
        assert forall|i: int| 0 <= i < ls.len() implies !(#[trigger] ls[i]).contains('\n') by {
            assert(ls[i] == lines[i]);
        }
        if !crlf {
            assert forall|i: int| 0 <= i < ls.len() implies !(#[trigger] ls[i]).contains('\r') by {
                assert(ls[i] == lines[i]);
            }
        }
        lemma_line_scan_joined(ls, crlf);
        let p = join_with(ls, sep);
        let l = lines.last();
        assert(l == lines[lines.len() - 1]);
        let body = if crlf { l.push('\r') } else { l };
        assert(!body.contains('\n')) by {
            if body.contains('\n') {
                let k = choose|k: int| 0 <= k < body.len() && body[k] == '\n';
                assert(k < l.len());
                assert(l[k] == '\n');
            }
        }
        lemma_line_scan_append(p, body);
        assert(Seq::<char>::empty() + body == body);
        assert(p + l + sep == (p + body).push('\n'));
        assert((p + body).push('\n').drop_last() == p + body);
        if crlf {
            assert(strip_cr(body) == l);
        } else {
            if l.len() > 0 {
                assert(!l.contains('\r'));
                assert(l[l.len() - 1] == l.last());
            }
            assert(strip_cr(body) == l);
        }
        assert(ls.push(l) == lines);
    }
}

/// A text made of lines each followed by `"\r\n"` splits back into exactly
/// those lines: every CRLF line ending is dropped whole, an empty line's
/// included. Likewise with `"\n"` for lines without `'\r'`.
pub proof fn law_lines_of_joined_text(lines: Seq<Seq<char>>)
    requires
        forall|i: int| 0 <= i < lines.len() ==> !(#[trigger] lines[i]).contains('\n'),
    ensures
        split_lines(join_with(lines, seq!['\r', '\n'])) == lines,
        (forall|i: int| 0 <= i < lines.len() ==> !(#[trigger] lines[i]).contains('\r'))
            ==> split_lines(join_with(lines, seq!['\n'])) == lines,
{
    lemma_line_scan_joined(lines, true);
    if forall|i: int| 0 <= i < lines.len() ==> !(#[trigger] lines[i]).contains('\r') {
        lemma_line_scan_joined(lines, false);
    }
}


/// The column the cursor is pulled back to after a key, in terms of the
/// row it ends on: at most its last character, one past it in insert mode.
pub open spec fn fit_column(x: int, t: EditorState) -> int {
    let len = t.current_row_len() as int;
    let limit = if t.mode == Modes::Insert { len } else if len == 0 { 0 } else { len - 1 };
    if x <= limit { x } else { limit }
}

/// The motions of normal mode, without a pending `g`: `h`, `Left` and
/// `Backspace` move one column left, `Right` one right and `l` one right
/// while a character follows, `k` and `Up` one row up, `Enter` one row
/// down, `0` to column 0, `A` to the end of the row, `a` one column right;
/// `_` and `I` to the first character that is not white space (column 0 on
/// a row of white space only). The column then stays on the row.
pub proof fn law_normal_motions(s: EditorState)
    requires
        s.mode == Modes::Normal,
        !s.pending_g,
        s.text_rows.len() <= usize::MAX,
        s.current_row_len() <= usize::MAX,
        s.cursor_x < usize::MAX,
        s.cursor_y < usize::MAX,
    ensures
        ({
            let x = s.cursor_x as int;
            let y = s.cursor_y as int;
            let left = if x == 0 { 0 } else { x - 1 };
            let up = if y == 0 { 0 } else { y - 1 };
            &&& s.after_key(KeyCode::Char('h')).cursor_x == fit_column(left, s)
            &&& s.after_key(KeyCode::Left).cursor_x == fit_column(left, s)
            &&& s.after_key(KeyCode::Backspace).cursor_x == fit_column(left, s)
            &&& s.after_key(KeyCode::Right).cursor_x == fit_column(x + 1, s)
            &&& s.after_key(KeyCode::Char('l')).cursor_x == fit_column(
                if x + 1 < s.current_row_len() { x + 1 } else { x },
                s,
            )
            &&& s.after_key(KeyCode::Char('0')).cursor_x == 0
            &&& s.after_key(KeyCode::Char('k')).cursor_y == up
            &&& s.after_key(KeyCode::Up).cursor_y == up
            &&& s.after_key(KeyCode::Enter).cursor_y == y + 1
            &&& s.after_key(KeyCode::Char('A')).cursor_x == s.current_row_len()
            &&& s.after_key(KeyCode::Char('a')).cursor_x == if x + 1 <= s.current_row_len() {
                x + 1
            } else {
                s.current_row_len() as int
            }
            &&& s.after_key(KeyCode::Char('h')).cursor_y == y
            &&& s.after_key(KeyCode::Char('l')).cursor_y == y
        }),
        forall|k: KeyCode| #![trigger s.after_key(k)] (k == KeyCode::Char('_') || k == KeyCode::Char('I')) ==> {
            let row = s.current_row();
            let c = s.after_key(k).cursor_x as int;
            &&& (forall|j: int| 0 <= j < c ==> is_white_space(#[trigger] row[j]))
            &&& (exists|j: int| 0 <= j < row.len() && !is_white_space(#[trigger] row[j])) ==> c < row.len()
                && !is_white_space(row[c])
            &&& (forall|j: int| 0 <= j < row.len() ==> is_white_space(#[trigger] row[j])) ==> c == 0
        },
{
    lemma_first_non_white_space(s.current_row());
    assert forall|k: KeyCode| #![trigger s.after_key(k)] (k == KeyCode::Char('_') || k == KeyCode::Char('I')) implies {
        let row = s.current_row();
        let c = s.after_key(k).cursor_x as int;
        &&& (forall|j: int| 0 <= j < c ==> is_white_space(#[trigger] row[j]))
        &&& (exists|j: int| 0 <= j < row.len() && !is_white_space(#[trigger] row[j])) ==> c < row.len()
            && !is_white_space(row[c])
        &&& (forall|j: int| 0 <= j < row.len() ==> is_white_space(#[trigger] row[j])) ==> c == 0
    } by {
        lemma_first_non_white_space(s.current_row());
        assert(s.after_key(k).current_row() == s.current_row());
        assert(s.after_key(k).cursor_x == s.first_char_col());
    }
}

/// A number field is the numeral right-aligned: spaces, then the numeral,
/// `width` characters in all unless the numeral is longer.
pub proof fn law_pad_left(t: Seq<char>, width: nat)
    ensures
        pad_left(t, width).len() == max(t.len() as int, width as int),
        pad_left(t, width).subrange(pad_left(t, width).len() - t.len(), pad_left(t, width).len() as int)
            == t,
        forall|i: int| 0 <= i < pad_left(t, width).len() - t.len() ==> #[trigger] pad_left(t, width)[i] == ' ',
{
    let r = pad_left(t, width);
    assert(r.subrange(r.len() - t.len(), r.len() as int) == t);
}

/// On an empty file the welcome line stands a third of the way down: the
/// message, cut to the screen width, preceded by half of the remaining
/// width, whose first cell is a `~`.
pub proof fn law_home_line_centred(s: EditorState)
    requires
        s.text_rows.len() == 0,
    ensures
        ({
            let line = row_text(s, (s.rows / 3) as int);
            let shown = min(welcome().len() as int, s.cols as int);
            let padding = (s.cols - shown) / 2;
            &&& line.len() == padding + shown
            &&& line.subrange(padding, line.len() as int) == welcome().take(shown)
            &&& padding > 0 ==> line[0] == '~'
            &&& forall|i: int| 1 <= i < padding ==> #[trigger] line[i] == ' '
        }),
{
    let line = row_text(s, (s.rows / 3) as int);
    let shown = min(welcome().len() as int, s.cols as int);
    let padding = (s.cols - shown) / 2;
    assert(line.subrange(padding, line.len() as int) == welcome().take(shown));
}

} // verus!
