use kilo::common::{Key, MoveKey};
use kilo::editor::{Editor, Request};
use kilo::editor::screen::{Screen, parse_cursor_report, ReportError};
use kilo::editor::input_mode::{InputMode, InnerType, Normal, Prompt};

fn editor(rows: usize, cols: usize) -> Editor {
    Editor::new(Screen::new(rows, cols))
}

fn text(e: &Editor) -> Vec<String> {
    e.file.lines.iter().map(|l| l.chars.iter().collect()).collect()
}

fn press(e: &mut Editor, key: Key) -> Request {
    assert!(e.can_handle(key));
    e.process_keypress(key)
}

fn type_str(e: &mut Editor, s: &str) {
    for b in s.bytes() {
        assert!(matches!(press(e, Key::Char(b)), Request::Nothing));
    }
}

#[test]
fn typing_fills_an_empty_text() {
    let mut e = editor(10, 80);
    type_str(&mut e, "hi");
    assert_eq!(text(&e), vec!["hi"]);
    assert_eq!((e.cursor.x, e.cursor.y), (2, 0));
    assert!(e.file.is_dirty());
}

#[test]
fn enter_cuts_the_line_and_backspace_joins_it_back() {
    let mut e = editor(10, 80);
    type_str(&mut e, "abcd");
    press(&mut e, Key::Move(MoveKey::ArrowLeft));
    press(&mut e, Key::Move(MoveKey::ArrowLeft));
    press(&mut e, Key::Enter);
    assert_eq!(text(&e), vec!["ab", "cd"]);
    assert_eq!((e.cursor.x, e.cursor.y), (0, 1));
    press(&mut e, Key::BackSpace);
    assert_eq!(text(&e), vec!["abcd"]);
    assert_eq!((e.cursor.x, e.cursor.y), (2, 0));
}

#[test]
fn delete_takes_the_character_under_the_cursor() {
    let mut e = editor(10, 80);
    type_str(&mut e, "abc");
    press(&mut e, Key::Move(MoveKey::Home));
    press(&mut e, Key::Delete);
    assert_eq!(text(&e), vec!["bc"]);
    assert_eq!(e.cursor.x, 0);
    press(&mut e, Key::Move(MoveKey::End));
    press(&mut e, Key::Delete);
    assert_eq!(text(&e), vec!["bc"]);
}

#[test]
fn delete_at_line_end_joins_the_next_line() {
    let mut e = editor(10, 80);
    type_str(&mut e, "ab");
    press(&mut e, Key::Enter);
    type_str(&mut e, "cd");
    press(&mut e, Key::Move(MoveKey::ArrowUp));
    press(&mut e, Key::Move(MoveKey::End));
    press(&mut e, Key::Delete);
    assert_eq!(text(&e), vec!["abcd"]);
    assert_eq!((e.cursor.x, e.cursor.y), (2, 0));
}

#[test]
fn backspace_at_the_start_does_nothing() {
    let mut e = editor(10, 80);
    press(&mut e, Key::BackSpace);
    assert!(e.file.lines.is_empty());
    type_str(&mut e, "a");
    press(&mut e, Key::Move(MoveKey::Home));
    press(&mut e, Key::BackSpace);
    assert_eq!(text(&e), vec!["a"]);
}

#[test]
fn vertical_moves_keep_to_the_column() {
    let mut e = editor(10, 80);
    type_str(&mut e, "long line");
    press(&mut e, Key::Enter);
    type_str(&mut e, "ab");
    press(&mut e, Key::Enter);
    type_str(&mut e, "another long");
    press(&mut e, Key::Move(MoveKey::ArrowUp));
    assert_eq!((e.cursor.x, e.cursor.y), (2, 1));
    press(&mut e, Key::Move(MoveKey::ArrowUp));
    assert_eq!((e.cursor.x, e.cursor.y), (9, 0));
    press(&mut e, Key::Move(MoveKey::ArrowRight));
    assert_eq!((e.cursor.x, e.cursor.y), (0, 1));
    press(&mut e, Key::Move(MoveKey::ArrowLeft));
    assert_eq!((e.cursor.x, e.cursor.y), (9, 0));
}

#[test]
fn page_moves_by_screen_rows() {
    let mut e = editor(2, 80);
    for _ in 0..5 {
        type_str(&mut e, "x");
        press(&mut e, Key::Enter);
    }
    assert_eq!(e.file.lines.len(), 6);
    press(&mut e, Key::Move(MoveKey::PageUp));
    assert_eq!(e.cursor.y, 3);
    press(&mut e, Key::Move(MoveKey::PageUp));
    press(&mut e, Key::Move(MoveKey::PageUp));
    assert_eq!(e.cursor.y, 0);
    press(&mut e, Key::Move(MoveKey::PageDown));
    assert_eq!(e.cursor.y, 2);
    press(&mut e, Key::Move(MoveKey::PageDown));
    press(&mut e, Key::Move(MoveKey::PageDown));
    assert_eq!(e.cursor.y, 5);
}

#[test]
fn quit_without_changes_ends_at_once() {
    let mut e = editor(10, 80);
    assert!(matches!(press(&mut e, Key::Quit), Request::Quit));
}

#[test]
fn quit_with_changes_asks_first() {
    let mut e = editor(10, 80);
    type_str(&mut e, "ab");
    assert!(matches!(press(&mut e, Key::Quit), Request::Nothing));
    assert_eq!(e.input_mode, InputMode::Prompt(Prompt(InnerType::Quit)));
    assert_eq!(e.status_bar.msg, "there are some unsaved changes. are you sure? (y/n)");
    assert_eq!(e.cursor.x, e.status_bar.msg.len());
    press(&mut e, Key::Char(b'x'));
    assert_eq!(e.input_mode, InputMode::Prompt(Prompt(InnerType::Quit)));
    assert!(matches!(press(&mut e, Key::Char(b'n')), Request::Nothing));
    assert_eq!(e.input_mode, InputMode::Normal(Normal));
    assert_eq!(e.cursor.x, 2);
    assert!(e.status_bar.msg.is_empty());
    press(&mut e, Key::Quit);
    assert!(matches!(press(&mut e, Key::Char(b'Y')), Request::Quit));
}

#[test]
fn save_without_a_name_asks_for_one_in_the_working_directory() {
    let mut e = editor(10, 80);
    type_str(&mut e, "ab");
    let msg = match press(&mut e, Key::Save) {
        Request::NeedDir(m) => m,
        _ => panic!("expected a request for the directory"),
    };
    assert_eq!(msg, "file name to save: ");
    assert!(matches!(e.name_requested(&msg, "/tmp/kilo-test-dir"), Request::Nothing));
    assert_eq!(e.input_mode, InputMode::Prompt(Prompt(InnerType::Save)));
    assert_eq!(e.status_bar.message().unwrap(), "file name to save: /tmp/kilo-test-dir/");
    assert_eq!(e.cursor.x, "file name to save: /tmp/kilo-test-dir/".len());
    type_str(&mut e, "f.txt");
    let prompt: String = e.status_bar.prompt.iter().collect();
    assert_eq!(prompt, "/tmp/kilo-test-dir/f.txt");
    press(&mut e, Key::BackSpace);
    press(&mut e, Key::Move(MoveKey::ArrowLeft));
    press(&mut e, Key::Delete);
    let prompt: String = e.status_bar.prompt.iter().collect();
    assert_eq!(prompt, "/tmp/kilo-test-dir/f.t");
    press(&mut e, Key::Move(MoveKey::Home));
    assert_eq!(e.cursor.x, 0);
}

#[test]
fn enter_on_the_name_prompt_saves_under_that_name() {
    let mut e = editor(10, 80);
    type_str(&mut e, "ab");
    let msg = match press(&mut e, Key::Save) {
        Request::NeedDir(m) => m,
        _ => panic!("expected a request for the directory"),
    };
    e.name_requested(&msg, "/nonexistent-kilo-dir");
    type_str(&mut e, "new.txt");
    let request = match press(&mut e, Key::Enter) {
        Request::Write(w) => w,
        _ => panic!("expected a write"),
    };
    assert_eq!(request.path, "/nonexistent-kilo-dir/new.txt");
    assert_eq!(request.bytes, b"ab\n".to_vec());
    assert!(matches!(e.saved(request.first_dirty, Ok(())), Request::Nothing));
    assert!(!e.file.is_dirty());
    assert_eq!(e.input_mode, InputMode::Normal(Normal));
    assert_eq!(e.status_bar.msg, "/nonexistent-kilo-dir/new.txt saved successfully!");
    assert_eq!(e.cursor.x, 2);
    assert!(matches!(press(&mut e, Key::Save), Request::Nothing));
    assert_eq!(e.status_bar.msg, "no changes to save!");
}

#[test]
fn failed_save_forgets_the_name() {
    let mut e = editor(10, 80);
    e.file.set_name("/nonexistent-kilo-dir/x.txt");
    type_str(&mut e, "a");
    let request = match press(&mut e, Key::Save) {
        Request::Write(w) => w,
        _ => panic!("expected a write"),
    };
    let err = std::io::Error::new(std::io::ErrorKind::NotFound, "no such directory");
    e.saved(request.first_dirty, Err(err));
    assert!(e.file.path().is_none());
    assert!(e.status_bar.msg.starts_with("error occurred while saving: "));
    assert!(e.file.is_dirty());
}

#[test]
fn existing_file_asks_before_writing_over_it() {
    let existing = String::from("/etc/passwd");
    let mut e = editor(10, 80);
    type_str(&mut e, "ab");
    let msg = match press(&mut e, Key::Save) {
        Request::NeedDir(m) => m,
        _ => panic!("expected a request for the directory"),
    };
    e.name_requested(&msg, "");
    e.status_bar.take_prompt();
    e.status_bar.set_prompt(existing.clone());
    assert!(matches!(press(&mut e, Key::Enter), Request::Nothing));
    assert_eq!(e.input_mode, InputMode::Prompt(Prompt(InnerType::Overwrite)));
    assert_eq!(e.status_bar.msg, format!("{} already exists. overwrite? (y/n)", existing));
    assert!(matches!(press(&mut e, Key::Char(b'n')), Request::Nothing));
    assert!(e.file.path().is_none());
    assert_eq!(e.input_mode, InputMode::Normal(Normal));
}

#[test]
fn screen_of_an_empty_text_shows_the_greeting() {
    let e = editor(6, 50);
    let rows = e.draw_rows();
    let expected = "~\x1b[K\r\n~\x1b[K\r\n~  kilo editor written in rust -- version 0.0.1\x1b[K\r\n~\x1b[K\r\n~\x1b[K\r\n~\x1b[K\r\n";
    assert_eq!(String::from_utf8(rows).unwrap(), expected);
}

#[test]
fn rows_show_the_text_from_the_offsets() {
    let mut e = editor(2, 3);
    e.file.load("a\tb\nsecond\nthird\n");
    e.cursor.x_offset = 1;
    e.cursor.y_offset = 1;
    let rows = String::from_utf8(e.draw_rows()).unwrap();
    assert_eq!(rows, "eco\x1b[K\r\nhir\x1b[K\r\n");
}

#[test]
fn info_bar_names_the_file_and_the_line() {
    let mut e = editor(5, 40);
    let bar = String::from_utf8(e.draw_info_bar()).unwrap();
    assert_eq!(bar, format!("\x1b[7mscratch{}\x1b[m\r\n", " ".repeat(33)));
    e.file.set_name("/tmp/notes.txt");
    e.file.load("a\nb\n");
    let bar = String::from_utf8(e.draw_info_bar()).unwrap();
    let left = "notes.txt - 2 lines";
    let right = "1/2";
    assert_eq!(bar, format!("\x1b[7m{}{}{}\x1b[m\r\n", left, " ".repeat(40 - left.len() - right.len()), right));
    e.file.set_name("/tmp/a-very-long-file-name-indeed.txt");
    let bar = String::from_utf8(e.draw_info_bar()).unwrap();
    assert!(bar.starts_with("\x1b[7ma-very-long-file-na - 2 lines"));
}

#[test]
fn status_bar_and_cursor_text() {
    let e = editor(5, 10);
    let bar = String::from_utf8(e.draw_status_bar(&e.message().unwrap())).unwrap();
    assert_eq!(bar, "\x1b[KHelp: Ctrl");
    let bar = String::from_utf8(e.draw_status_bar("short")).unwrap();
    assert_eq!(bar, "\x1b[Kshort");
    let bar = String::from_utf8(e.draw_status_bar("")).unwrap();
    assert_eq!(bar, "\x1b[K");
    let cursor = String::from_utf8(e.show_cursor()).unwrap();
    assert_eq!(cursor, "\x1b[1;1H\x1b[?25h");
}

#[test]
fn refresh_scrolls_to_the_cursor() {
    let mut e = editor(2, 50);
    e.file.load("1\n2\n3\n4\n");
    for _ in 0..3 {
        press(&mut e, Key::Move(MoveKey::ArrowDown));
    }
    let message = e.message().unwrap();
    assert!(e.can_refresh(&message));
    let out = String::from_utf8(e.refresh_screen(&message)).unwrap();
    assert_eq!(e.cursor.y_offset, 2);
    assert!(out.starts_with("\x1b[?25l\x1b[H3\x1b[K\r\n4\x1b[K\r\n"));
    assert!(out.ends_with("\x1b[2;1H\x1b[?25h"));
}

#[test]
fn x_render_counts_tab_stops() {
    let mut e = editor(5, 40);
    e.file.load("\tab\n");
    press(&mut e, Key::Move(MoveKey::End));
    assert_eq!(e.x_render(), 10);
    assert_eq!(e.checked_x_render(), Some(10));
    assert_eq!(e.max_x(), 3);
}

#[test]
fn narrow_screen_cannot_show_the_greeting() {
    let e = editor(5, 20);
    assert!(!e.can_refresh(""));
}

#[test]
fn cursor_report_parses_rows_and_columns() {
    assert_eq!(parse_cursor_report(b"\x1b[24;80", usize::MAX), Ok((24, 80)));
    assert_eq!(parse_cursor_report(b"\x1b[+3;+4", usize::MAX), Ok((3, 4)));
    assert_eq!(parse_cursor_report(b"\x1b[24", usize::MAX), Err(ReportError::NoSeparator));
    assert_eq!(parse_cursor_report(b"\x1b[x;80", usize::MAX), Err(ReportError::BadRows));
    assert_eq!(parse_cursor_report(b"\x1b[;80", usize::MAX), Err(ReportError::BadRows));
    assert_eq!(parse_cursor_report(b"\x1b[24;", usize::MAX), Err(ReportError::BadCols));
    assert_eq!(parse_cursor_report(b"\x1b[24;8-0", usize::MAX), Err(ReportError::BadCols));
    assert_eq!(parse_cursor_report(b"\x1b[70000;1", 65535), Err(ReportError::BadRows));
    assert_eq!(parse_cursor_report(b"\x1b[65535;1", 65535), Ok((65535, 1)));
    assert_eq!(parse_cursor_report(b"\x1b[99999999999999999999999;1", usize::MAX), Err(ReportError::BadRows));
    assert_eq!(parse_cursor_report(&[0x1b, b'[', 0xff, b';', b'1'], usize::MAX), Err(ReportError::NotUtf8));
}

#[test]
fn save_as_marks_the_text_changed_and_asks_for_a_name() {
    let mut e = editor(5, 80);
    assert!(matches!(e.save_as(), Request::NeedDir(_)));
    assert!(e.file.is_dirty());
    assert_eq!(e.file.lines.len(), 1);
}

#[test]
fn flush_empties_everything() {
    let mut e = editor(5, 80);
    type_str(&mut e, "abc");
    e.flush();
    assert!(e.file.lines.is_empty());
    assert_eq!((e.cursor.x, e.cursor.y), (0, 0));
    assert!(e.status_bar.msg.is_empty());
}

#[test]
fn prompt_cursor_sits_below_the_bars() {
    let mut e = editor(5, 80);
    type_str(&mut e, "a");
    press(&mut e, Key::Quit);
    let (x, y) = e.input_mode.cursor_position(&e);
    assert_eq!(y, 7);
    assert_eq!(x, e.cursor.x + 1);
}
