# kilo

A small terminal text editor, written as a verified library (`src/`) and a thin program
around it (`app/`).

- `src/common.rs`: keys, and how the bytes the terminal sends decode into keys.
- `src/editor/file.rs`: the text as lines, their screen form (tabs expanded), dirty
  tracking, cutting and joining lines, loading text and the bytes a save writes.
- `src/editor/status_bar.rs`, `src/editor/message_status.rs`: the message and prompt below
  the text.
- `src/editor/input_mode.rs`: the editing and prompting modes, and what each key does.
- `src/editor/draw.rs`: the bytes that show the editor on the terminal.
- `src/editor/screen.rs`: the window size, and the terminal's cursor position report.
- `src/cursor.rs`, `src/editor/cursor.rs`: cursors.
- `src/paths.rs`, `src/clock.rs`: the parts of `std::path` and `std::time` the editor uses.

The program in `app/` puts the terminal in raw mode, reads keys and writes the screen, and
does the file and directory work the editor asks for (`editor::Request`).
