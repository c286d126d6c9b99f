use oxide_rs::editor::{Editor, EditorRow};
use oxide_rs::modes::Modes;

fn build_app() -> Editor {
    Editor {
        cols: 100,
        rows: 40,
        cursor_y: 0,
        cursor_x: 0,
        render_x: 0,
        pending_g: false,
        text_rows: Vec::new(),
        row_offset: 0,
        col_offset: 0,
        mode: Modes::Normal,
        filename: None,
        status_message: None,
    }
}

fn open_test_file(editor: &mut Editor) {
    editor.load("test.txt".to_string(), TEST_TXT);
}

#[test]
fn test_line_length() {
    let mut editor = build_app();
    editor.text_rows = vec![EditorRow::new("Hello, this is a test.".to_string())];
    assert_eq!(editor.current_row_len(), 22);

    editor.text_rows = vec![EditorRow::new(String::new())];
    assert_eq!(editor.current_row_len(), 0);
}

#[test]
fn file_opens() {
    let mut editor = build_app();
    open_test_file(&mut editor);
    let first_line = "use crossterm::{cursor, execute, style, terminal};".to_string();
    assert_eq!(editor.text_rows[0].chars, first_line);

    let second_line = "use std::io::{Result, stdout};".to_string();
    assert_eq!(editor.text_rows[1].chars, second_line);

    let third_line = String::new();
    assert_eq!(editor.text_rows[2].chars, third_line);
}

#[test]
fn render_tabs() {
    let mut editor = build_app();
    let line = "\tabc".to_string();
    editor.text_rows = vec![EditorRow::new(line)];
    assert_eq!(editor.text_rows[0].render, "    abc");

    let line = "\t\tabc".to_string();
    editor.text_rows = vec![EditorRow::new(line)];
    assert_eq!(editor.text_rows[0].render, "        abc");

    let line = "\ta\tbc".to_string();
    editor.text_rows = vec![EditorRow::new(line)];
    assert_eq!(editor.text_rows[0].render, "    a    bc");
}

#[test]
fn row_without_tabs_renders_as_is() {
    let row = EditorRow::new("héllo wörld".to_string());
    assert_eq!(row.render, "héllo wörld");
    assert_eq!(row.chars, "héllo wörld");
    let row = EditorRow::new("\t".to_string());
    assert_eq!(row.render, "    ");
}

#[test]
fn row_length_counts_characters_not_bytes() {
    let mut editor = build_app();
    editor.text_rows = vec![EditorRow::new("héllo".to_string())];
    assert_eq!(editor.current_row_len(), 5);
    editor.cursor_y = 1;
    assert_eq!(editor.current_row_len(), 0);
}

#[test]
fn load_splits_lines_like_str_lines() {
    let texts = [
        "",
        "\n",
        "a",
        "a\n",
        "a\nb",
        "a\r\nb\r\n",
        "a\n\nb\n\n",
        "x\ry\n",
        "end\r",
        "\t1\n\t\t2",
        "ünïcödé\nline",
    ];
    for text in texts {
        let mut editor = build_app();
        editor.load("f.txt".to_string(), text);
        let expected: Vec<&str> = text.lines().collect();
        assert_eq!(editor.text_rows.len(), expected.len(), "{:?}", text);
        for (row, line) in editor.text_rows.iter().zip(expected) {
            assert_eq!(row.chars, line);
            assert_eq!(row.render, line.replace('\t', "    "));
        }
        assert_eq!(editor.filename, Some("f.txt".to_string()));
    }
}

#[test]
fn load_keeps_cursor_and_mode() {
    let mut editor = build_app();
    editor.cursor_y = 10;
    editor.cursor_x = 3;
    editor.mode = Modes::Insert;
    open_test_file(&mut editor);
    assert_eq!(editor.cursor_y, 10);
    assert_eq!(editor.cursor_x, 3);
    assert_eq!(editor.mode, Modes::Insert);
    assert_eq!(editor.text_rows.len(), TEST_TXT.lines().count());
}

#[test]
fn new_editor_reserves_status_lines() {
    let now = std::time::Instant::now();
    let editor = Editor::new(80, 24, now);
    assert_eq!(editor.cols, 80);
    assert_eq!(editor.rows, 22);
    assert_eq!(editor.cursor_x, 0);
    assert_eq!(editor.cursor_y, 0);
    assert_eq!(editor.mode, Modes::Normal);
    assert!(editor.text_rows.is_empty());
    assert!(editor.filename.is_none());
    let message = editor.status_message.as_ref().unwrap();
    assert_eq!(message.text, "Ctrl-q to quit");
    assert_eq!(message.created_at, now);

    let editor = Editor::new(10, 1, now);
    assert_eq!(editor.rows, 0);
}

#[test]
fn insert_char_in_middle_and_past_end() {
    let mut editor = build_app();
    editor.text_rows = vec![EditorRow::new("ac".to_string())];
    editor.cursor_x = 1;
    editor.insert_char('\t');
    assert_eq!(editor.text_rows[0].chars, "a\tc");
    assert_eq!(editor.text_rows[0].render, "a    c");
    assert_eq!(editor.cursor_x, 2);

    editor.cursor_x = 50;
    editor.insert_char('!');
    assert_eq!(editor.text_rows[0].chars, "a\tc!");
    assert_eq!(editor.cursor_x, 4);

    editor.cursor_y = 7;
    editor.cursor_x = 5;
    editor.insert_char('z');
    assert_eq!(editor.text_rows.len(), 2);
    assert_eq!(editor.text_rows[1].chars, "z");
    assert_eq!(editor.cursor_y, 1);
    assert_eq!(editor.cursor_x, 1);
}

#[test]
fn scroll_follows_cursor_down_and_up() {
    let mut editor = build_app();
    editor.rows = 20;
    editor.cols = 30;
    editor.cursor_y = 50;
    editor.scroll();
    // margin is 5 rows: the cursor ends up 5 rows above the bottom
    assert_eq!(editor.row_offset, 50 + 5 + 1 - 20);

    editor.cursor_y = 30;
    editor.scroll();
    assert_eq!(editor.row_offset, 25);

    editor.cursor_y = 2;
    editor.scroll();
    assert_eq!(editor.row_offset, 0);

    editor.cursor_x = 100;
    editor.scroll();
    assert_eq!(editor.col_offset, 100 + 5 + 1 - 30);
    let once = editor.col_offset;
    editor.scroll();
    assert_eq!(editor.col_offset, once);
}

#[test]
fn scroll_small_screens() {
    let mut editor = build_app();
    editor.rows = 0;
    editor.cursor_y = 100;
    editor.cursor_x = 100;
    editor.scroll();
    assert_eq!(editor.row_offset, 0);
    assert_eq!(editor.col_offset, 0);

    editor.rows = 3;
    editor.cols = 1;
    editor.scroll();
    // margin is (3 - 1) / 2 = 1 row, and 0 columns
    assert_eq!(editor.row_offset, 100 + 1 + 1 - 3);
    assert_eq!(editor.col_offset, 100);
}

const TEST_TXT: &str = r##"use crossterm::{cursor, execute, style, terminal};
use std::io::{Result, stdout};

use crate::editor::Editor;

const WELCOME_MESSAGE: &str = "Oxide Editor -- Version 0.1.0";

pub fn draw_rows(screen: &Editor) -> String {
    let mut buffer = String::new();
    let rows = screen.rows;
    let cols = screen.cols;

    for row in 0..rows {
        let file_row = usize::from(row) + screen.row_offset;
        if let Some(text_row) = screen.text_rows.get(file_row) {
            buffer.extend(
                text_row
                    .render
                    .chars()
                    .skip(screen.col_offset)
                    .take(cols as usize),
            );
        } else if screen.text_rows.is_empty() && row == rows / 3 {
            show_home_screen(cols, &mut buffer);
        } else {
            buffer.push('~');
        }

        if row + 1 < rows {
            buffer.push_str("\r\n");
        }
    }
    buffer.push_str("\r\n");

    buffer
}

pub fn refresh_screen(screen: &Editor) -> Result<()> {
    let buffer_rows = draw_rows(screen);
    let status_bar = show_status_bar(screen);

    execute!(
        stdout(),
        cursor::Hide,
        terminal::Clear(terminal::ClearType::All),
        cursor::MoveTo(0, 0),
        style::Print(buffer_rows),
        style::SetAttribute(style::Attribute::Reverse),
        style::Print(status_bar),
        style::SetAttribute(style::Attribute::Reset),
        cursor::MoveTo(
            (screen.cursor_x - screen.col_offset) as u16,
            (screen.cursor_y - screen.row_offset) as u16
        ),
        cursor::Show,
    )?;

    Ok(())
}

pub fn show_status_bar(screen: &Editor) -> String {
    let mut output = String::new();

    let text = format!(
        " {} | {} | {} lines",
        screen.mode,
        screen.filename.clone().unwrap_or("NO FILE".to_string()),
        screen.text_rows.len(),
    );
    output.push_str(text.as_str());

    output.push_str(&" ".repeat((screen.cols as usize) - text.len() - 5));

    let location = format!("{:2}:{:2}", screen.cursor_y, screen.cursor_x);
    output.push_str(&location);

    output
}

fn show_home_screen(cols: u16, buffer: &mut String) {
    let message_len = WELCOME_MESSAGE.len().min(cols as usize);
    let mut padding = (cols as usize - message_len) / 2;

    if padding > 0 {
        buffer.push('~');
        padding -= 1;
    }

    for _ in 0..padding {
        buffer.push(' ');
    }

    buffer.push_str(&WELCOME_MESSAGE[..message_len]);
}
"##;
