use kilo::common::{Key, MoveKey};
use kilo::editor::file::{File, PersistStep};
use kilo::editor::screen::{parse_cursor_report, Screen};
use kilo::editor::{Editor, Request};

fn lines(file: &File) -> Vec<String> {
    file.lines.iter().map(|l| l.chars.iter().collect()).collect()
}

#[test]
fn saved_bytes_read_back_as_the_same_lines() {
    let mut file = File::new();
    file.set_name("/tmp/round-trip.txt");
    file.load("keep\n");
    file.add_new_line("tab\there", true);
    file.add_new_line("", true);
    file.add_new_line("ünïcödé", true);
    let bytes = match file.persist() {
        PersistStep::Write(w) => w.bytes,
        _ => panic!("expected a write"),
    };
    let text = String::from_utf8(bytes).unwrap();
    let mut again = File::new();
    again.load(&text);
    assert_eq!(lines(&again), lines(&file));
}

#[test]
fn a_line_ending_in_carriage_return_does_not_read_back() {
    let mut file = File::new();
    file.set_name("/tmp/round-trip.txt");
    file.add_new_line("a\r", true);
    let bytes = match file.persist() {
        PersistStep::Write(w) => w.bytes,
        _ => panic!("expected a write"),
    };
    let mut again = File::new();
    again.load(&String::from_utf8(bytes).unwrap());
    assert_eq!(lines(&again), vec!["a"]);
}

#[test]
fn cursor_report_reads_back() {
    for (rows, cols) in [(1usize, 1usize), (24, 80), (65535, 9), (123456, 7)] {
        let report = format!("\x1b[{};{}", rows, cols);
        assert_eq!(parse_cursor_report(report.as_bytes(), usize::MAX), Ok((rows, cols)));
    }
}

#[test]
fn typing_then_backspace_gives_the_text_back() {
    let mut e = Editor::new(Screen::new(10, 80));
    e.file.load("hello\nworld\n");
    e.process_keypress(Key::Move(MoveKey::ArrowDown));
    e.process_keypress(Key::Move(MoveKey::ArrowRight));
    e.process_keypress(Key::Char(b'X'));
    assert_eq!(lines(&e.file), vec!["hello", "wXorld"]);
    e.process_keypress(Key::BackSpace);
    assert_eq!(lines(&e.file), vec!["hello", "world"]);
    assert_eq!((e.cursor.x, e.cursor.y), (1, 1));
}

#[test]
fn enter_then_backspace_gives_the_text_back() {
    let mut e = Editor::new(Screen::new(10, 80));
    e.file.load("hello\n");
    e.process_keypress(Key::Move(MoveKey::ArrowRight));
    e.process_keypress(Key::Move(MoveKey::ArrowRight));
    e.process_keypress(Key::Enter);
    assert_eq!(lines(&e.file), vec!["he", "llo"]);
    e.process_keypress(Key::BackSpace);
    assert_eq!(lines(&e.file), vec!["hello"]);
    assert_eq!((e.cursor.x, e.cursor.y), (2, 0));
}

#[test]
fn moves_keep_the_cursor_in_the_text() {
    let mut e = Editor::new(Screen::new(3, 80));
    e.file.load("abc\n\nlonger line\nx\n");
    let keys = [
        MoveKey::End, MoveKey::ArrowDown, MoveKey::ArrowDown, MoveKey::End, MoveKey::PageDown,
        MoveKey::ArrowRight, MoveKey::ArrowRight, MoveKey::PageUp, MoveKey::ArrowLeft, MoveKey::Home,
        MoveKey::ArrowUp, MoveKey::ArrowLeft,
    ];
    for k in keys {
        e.process_keypress(Key::Move(k));
        let y = e.cursor.y;
        assert!(y < e.file.lines.len());
        assert!(e.cursor.x <= e.file.lines[y].chars.len());
    }
}

#[test]
fn scrolling_keeps_the_cursor_on_screen() {
    let mut e = Editor::new(Screen::new(3, 5));
    e.file.load("0123456789\na\nb\nc\nd\ne\n");
    for k in [MoveKey::End, MoveKey::PageDown, MoveKey::PageDown, MoveKey::ArrowUp, MoveKey::Home] {
        e.process_keypress(Key::Move(k));
        let message = e.message().unwrap();
        assert!(e.can_refresh(&message));
        e.refresh_screen(&message);
        assert!(e.cursor.y_offset <= e.cursor.y && e.cursor.y < e.cursor.y_offset + 3);
        let xr = e.x_render();
        assert!(e.cursor.x_offset <= xr && xr < e.cursor.x_offset + 5);
    }
}

#[test]
fn quitting_a_clean_text_needs_no_answer() {
    let mut e = Editor::new(Screen::new(3, 80));
    e.file.load("saved\n");
    assert!(matches!(e.process_keypress(Key::Quit), Request::Quit));
}
