use oxide_rs::editor::{Editor, EditorRow};
use oxide_rs::modes::Modes;
use oxide_rs::ui::{draw_rows, show_status_bar, status_summary};

fn build_app() -> Editor {
    Editor {
        cols: 100,
        rows: 40,
        cursor_y: 0,
        cursor_x: 0,
        render_x: 0,
        pending_g: false,
        text_rows: Vec::new(),
        row_offset: 0,
        col_offset: 0,
        mode: Modes::Normal,
        filename: None,
        status_message: None,
    }
}

fn open_test_file(editor: &mut Editor) {
    editor.load("test.txt".to_string(), TEST_TXT);
}

/// The screen expected for a file: `rows` lines from `row_offset`, each cut
/// to `cols` characters, `~` below the end of the file.
fn expected_screen(text: &str, rows: usize, cols: usize, row_offset: usize) -> String {
    let lines: Vec<&str> = text.lines().collect();
    let mut out = Vec::new();
    for row in 0..rows {
        match lines.get(row + row_offset) {
            Some(line) => out.push(line.chars().take(cols).collect::<String>()),
            None => out.push("~".to_string()),
        }
    }
    out.join("\r\n") + "\r\n"
}

#[test]
fn app_renders_home_screen() {
    let editor = build_app();
    let output = draw_rows(&editor);

    let mut lines = vec!["~".to_string(); 40];
    lines[13] = format!("~{}Oxide Editor -- Version 0.1.0", " ".repeat(34));
    assert_eq!(output, lines.join("\r\n") + "\r\n");
}

#[test]
fn app_renders() {
    let mut editor = build_app();
    open_test_file(&mut editor);
    let output = draw_rows(&editor);

    assert_eq!(output, expected_screen(TEST_TXT, 40, 100, 0));
    assert!(output.starts_with("use crossterm::{cursor, execute, style, terminal};\r\n"));
}

#[test]
fn app_renders_narrow() {
    let mut editor = build_app();
    editor.cols = 40;
    open_test_file(&mut editor);
    let output = draw_rows(&editor);

    assert_eq!(output, expected_screen(TEST_TXT, 40, 40, 0));
    assert!(output.starts_with("use crossterm::{cursor, execute, style, \r\n"));
}

#[test]
fn app_renders_down_screen() {
    let mut editor = build_app();
    editor.row_offset = 20;
    open_test_file(&mut editor);
    let output = draw_rows(&editor);

    assert_eq!(output, expected_screen(TEST_TXT, 40, 100, 20));
    assert!(output.ends_with("~\r\n") == (TEST_TXT.lines().count() < 60));
}

#[test]
fn home_screen_on_narrow_and_tiny_screens() {
    let mut editor = build_app();
    editor.rows = 3;
    editor.cols = 10;
    assert_eq!(draw_rows(&editor), "~\r\nOxide Edit\r\n~\r\n");

    editor.cols = 31;
    editor.rows = 1;
    assert_eq!(draw_rows(&editor), "~Oxide Editor -- Version 0.1.0\r\n");

    editor.rows = 0;
    assert_eq!(draw_rows(&editor), "\r\n");
}

#[test]
fn rows_scrolled_sideways_and_tabs_expanded() {
    let mut editor = build_app();
    editor.rows = 2;
    editor.cols = 4;
    editor.col_offset = 2;
    editor.text_rows = vec![EditorRow::new("\tab".to_string()), EditorRow::new("x".to_string())];
    assert_eq!(draw_rows(&editor), "  ab\r\n\r\n");
}

#[test]
fn status_bar_layout() {
    let mut editor = build_app();
    editor.cols = 40;
    editor.cursor_y = 3;
    editor.cursor_x = 12;
    let text = " NORMAL | NO FILE | 0 lines";
    assert_eq!(status_summary(&editor), text);
    let bar = show_status_bar(&editor);
    assert_eq!(bar, format!("{}{}{:2}:{:2}", text, " ".repeat(40 - text.len() - 5), 3, 12));
    assert_eq!(bar.len(), 40);

    open_test_file(&mut editor);
    editor.mode = Modes::Insert;
    editor.cursor_y = 123;
    editor.cursor_x = 7;
    let text = format!(" INSERT | test.txt | {} lines", TEST_TXT.lines().count());
    let bar = show_status_bar(&editor);
    assert_eq!(bar, format!("{}{}{:2}:{:2}", text, " ".repeat(40 - text.len() - 5), 123, 7));
}

#[test]
fn status_bar_pads_by_bytes() {
    let mut editor = build_app();
    editor.cols = 40;
    editor.mode = Modes::Replace;
    editor.filename = Some("ünï.txt".to_string());
    let text = " REPLACE | ünï.txt | 0 lines";
    assert_eq!(status_summary(&editor), text);
    let bar = show_status_bar(&editor);
    assert_eq!(bar, format!("{}{} 0: 0", text, " ".repeat(40 - text.len() - 5)));
    assert_eq!(bar.len(), 40);

    editor.mode = Modes::Visual;
    editor.filename = None;
    let text = " VISUAL | NO FILE | 0 lines";
    assert_eq!(show_status_bar(&editor), format!("{}{} 0: 0", text, " ".repeat(40 - text.len() - 5)));

    editor.mode = Modes::Command;
    let text = " COMMAND | NO FILE | 0 lines";
    assert_eq!(show_status_bar(&editor), format!("{}{} 0: 0", text, " ".repeat(40 - text.len() - 5)));
}

#[test]
fn mode_names() {
    assert_eq!(Modes::Normal.as_str(), "NORMAL");
    assert_eq!(Modes::Insert.as_str(), "INSERT");
    assert_eq!(Modes::Visual.as_str(), "VISUAL");
    assert_eq!(Modes::Replace.as_str(), "REPLACE");
    assert_eq!(Modes::Command.as_str(), "COMMAND");
}

const TEST_TXT: &str = r##"use crossterm::{cursor, execute, style, terminal};
use std::io::{Result, stdout};

use crate::editor::Editor;

const WELCOME_MESSAGE: &str = "Oxide Editor -- Version 0.1.0";

pub fn draw_rows(screen: &Editor) -> String {
    let mut buffer = String::new();
    let rows = screen.rows;
    let cols = screen.cols;

    for row in 0..rows {
        let file_row = usize::from(row) + screen.row_offset;
        if let Some(text_row) = screen.text_rows.get(file_row) {
            buffer.extend(
                text_row
                    .render
                    .chars()
                    .skip(screen.col_offset)
                    .take(cols as usize),
            );
        } else if screen.text_rows.is_empty() && row == rows / 3 {
            show_home_screen(cols, &mut buffer);
        } else {
            buffer.push('~');
        }

        if row + 1 < rows {
            buffer.push_str("\r\n");
        }
    }
    buffer.push_str("\r\n");

    buffer
}

pub fn refresh_screen(screen: &Editor) -> Result<()> {
    let buffer_rows = draw_rows(screen);
    let status_bar = show_status_bar(screen);

    execute!(
        stdout(),
        cursor::Hide,
        terminal::Clear(terminal::ClearType::All),
        cursor::MoveTo(0, 0),
        style::Print(buffer_rows),
        style::SetAttribute(style::Attribute::Reverse),
        style::Print(status_bar),
        style::SetAttribute(style::Attribute::Reset),
        cursor::MoveTo(
            (screen.cursor_x - screen.col_offset) as u16,
            (screen.cursor_y - screen.row_offset) as u16
        ),
        cursor::Show,
    )?;

    Ok(())
}

pub fn show_status_bar(screen: &Editor) -> String {
    let mut output = String::new();

    let text = format!(
        " {} | {} | {} lines",
        screen.mode,
        screen.filename.clone().unwrap_or("NO FILE".to_string()),
        screen.text_rows.len(),
    );
    output.push_str(text.as_str());

    output.push_str(&" ".repeat((screen.cols as usize) - text.len() - 5));

    let location = format!("{:2}:{:2}", screen.cursor_y, screen.cursor_x);
    output.push_str(&location);

    output
}

fn show_home_screen(cols: u16, buffer: &mut String) {
    let message_len = WELCOME_MESSAGE.len().min(cols as usize);
    let mut padding = (cols as usize - message_len) / 2;

    if padding > 0 {
        buffer.push('~');
        padding -= 1;
    }

    for _ in 0..padding {
        buffer.push(' ');
    }

    buffer.push_str(&WELCOME_MESSAGE[..message_len]);
}
"##;
