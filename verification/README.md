# oxide_rs

A small modal (vim-like) terminal text editor. The editing logic is a
verified library; the terminal program around it is in `app/`.

- `src/modes.rs`: editing modes and their names.
- `src/text.rs`: characters and strings: tab expansion, splitting a text
  into lines, decimal numbers, UTF-8 lengths, white space.
- `src/editor.rs`: the editor state, its rows, loading a file's text,
  typing a character, scrolling the view.
- `src/input.rs`: what each key does (`handle_keypress`) and Ctrl-q.
- `src/ui.rs`: the text drawn on screen and the status bar.
- `src/laws.rs`: properties of the editor proved over the specifications.
- `app/main.rs`: raw mode, terminal size, reading files and key events,
  printing the screen.
