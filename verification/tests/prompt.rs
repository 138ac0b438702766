use kilo::common::{Key, MoveKey};
use kilo::editor::cursor::Cursor;
use kilo::editor::file::File;
use kilo::editor::input_mode::{step_right, InnerType, InputMode, Normal, Prompt};
use kilo::editor::screen::Screen;
use kilo::editor::{Editor, Request};

fn editor_with_text(s: &str) -> Editor {
    let mut e = Editor::new(Screen::new(10, 80));
    for b in s.bytes() {
        assert!(e.can_handle(Key::Char(b)));
        assert!(matches!(e.process_keypress(Key::Char(b)), Request::Nothing));
    }
    e
}

#[test]
fn step_right_stops_at_the_shown_width() {
    assert_eq!(step_right(3, 10), 4);
    assert_eq!(step_right(9, 10), 10);
    assert_eq!(step_right(10, 10), 10);
    assert_eq!(step_right(0, 0), 0);
}

#[test]
fn prompt_cursor_moves_right_within_what_is_shown() {
    let mut e = editor_with_text("ab");
    e.status_bar.set_message(String::from("name: "));
    e.status_bar.set_prompt(String::from("x"));
    e.input_mode = InputMode::Prompt(Prompt(InnerType::Save));
    e.cursor.x = 6;
    Prompt::move_cursor_within(InnerType::Save, &mut e, MoveKey::ArrowRight, 7);
    assert_eq!(e.cursor.x, 7);
    Prompt::move_cursor_within(InnerType::Save, &mut e, MoveKey::ArrowRight, 7);
    assert_eq!(e.cursor.x, 7);
    Prompt::move_cursor_within(InnerType::Quit, &mut e, MoveKey::ArrowLeft, 7);
    assert_eq!(e.cursor.x, 7);
    assert!(matches!(Prompt::move_cursor(InnerType::Save, &mut e, MoveKey::ArrowLeft), Request::Nothing));
    assert_eq!(e.cursor.x, 6);
    assert!(matches!(Prompt::move_cursor(InnerType::Save, &mut e, MoveKey::ArrowRight), Request::Nothing));
    assert_eq!(e.cursor.x, 7);
}

#[test]
fn a_free_name_saves_at_once() {
    let mut e = editor_with_text("ab");
    e.file.set_name("/nonexistent-kilo-dir/free.txt");
    let r = Prompt::after_name(&mut e, String::from("/nonexistent-kilo-dir/free.txt"), false);
    let w = match r {
        Request::Write(w) => w,
        _ => panic!("expected a write"),
    };
    assert_eq!(w.path, "/nonexistent-kilo-dir/free.txt");
    assert_eq!(w.bytes, b"ab\n".to_vec());
}

#[test]
fn a_taken_name_asks_before_writing_over() {
    let mut e = editor_with_text("ab");
    e.file.set_name("taken.txt");
    let r = Prompt::after_name(&mut e, String::from("taken.txt"), true);
    assert!(matches!(r, Request::Nothing));
    assert_eq!(e.status_bar.msg, "taken.txt already exists. overwrite? (y/n)");
    assert_eq!(e.input_mode, InputMode::Prompt(Prompt(InnerType::Overwrite)));
    assert_eq!(e.file.path().unwrap(), "taken.txt");
}

#[test]
fn yes_on_the_overwrite_prompt_saves() {
    let mut e = editor_with_text("ab");
    e.file.set_name("taken.txt");
    Prompt::after_name(&mut e, String::from("taken.txt"), true);
    assert!(e.can_handle(Key::Char(b'y')));
    let w = match e.process_keypress(Key::Char(b'y')) {
        Request::Write(w) => w,
        _ => panic!("expected a write"),
    };
    assert_eq!(w.path, "taken.txt");
    assert_eq!(w.bytes, b"ab\n".to_vec());
}

#[test]
fn no_on_the_overwrite_prompt_empties_the_status_bar() {
    let mut e = editor_with_text("ab");
    e.file.set_name("taken.txt");
    Prompt::after_name(&mut e, String::from("taken.txt"), true);
    assert!(matches!(e.process_keypress(Key::Char(b'N')), Request::Nothing));
    assert!(e.status_bar.msg.is_empty());
    assert!(e.status_bar.prompt.is_empty());
    assert!(e.file.path().is_none());
    assert_eq!(e.input_mode, InputMode::Normal(Normal));
}

#[test]
fn saving_a_clean_text_says_so() {
    let mut e = Editor::new(Screen::new(10, 80));
    e.file.load("ab\n");
    e.file.set_name("clean.txt");
    assert!(matches!(e.process_keypress(Key::Save), Request::Nothing));
    assert_eq!(e.status_bar.msg, "no changes to save!");
}

#[test]
fn any_stores_then_restore_give_the_first_column() {
    let mut c = Cursor::get();
    c.x = 4;
    c.store_x();
    c.x = 9;
    c.store_x();
    c.x = 1;
    c.restore_x();
    assert_eq!(c.x, 4);
    assert!(c.stored_x.is_none());
}

#[test]
fn set_path_keeps_an_absolute_name_and_adds_one_separator() {
    let mut file = File::new();
    assert!(file.set_path("notes.txt", "/home/user/").is_ok());
    assert_eq!(file.path().unwrap(), "/home/user/notes.txt");
    assert!(file.set_path("notes.txt", "").is_ok());
    assert_eq!(file.path().unwrap(), "notes.txt");
}

#[test]
fn an_empty_name_is_saved_without_asking() {
    let mut e = editor_with_text("ab");
    e.status_bar.set_message(String::from("file name to save: "));
    e.input_mode = InputMode::Prompt(Prompt(InnerType::Save));
    e.cursor.stored_x = Some(e.cursor.x);
    e.cursor.x = e.status_bar.msg.len();
    assert!(e.can_handle(Key::Enter));
    let w = match e.process_keypress(Key::Enter) {
        Request::Write(w) => w,
        _ => panic!("expected a write"),
    };
    assert_eq!(w.path, "");
    assert_eq!(w.bytes, b"ab\n".to_vec());
}

#[test]
fn entering_the_prompt_puts_the_cursor_after_what_is_shown() {
    let mut e = editor_with_text("ab");
    Prompt(InnerType::Quit).enter_prompt(&mut e, "héllo");
    assert_eq!(e.cursor.x, 6);
    assert_eq!(e.input_mode, InputMode::Prompt(Prompt(InnerType::Quit)));
    Prompt(InnerType::Save).enter_prompt(&mut e, "");
    assert_eq!(e.cursor.x, 0);
    assert_eq!(e.cursor.y, 0);
}

#[test]
fn a_failed_save_shows_the_error_text() {
    let mut e = editor_with_text("ab");
    e.file.set_name("x.txt");
    e.save_failed("no such directory");
    assert_eq!(e.status_bar.msg, "error occurred while saving: no such directory");
    assert!(e.file.path().is_none());
    assert_eq!(e.input_mode, InputMode::Normal(Normal));
}

#[test]
fn flush_brings_the_cursor_and_screen_back_to_the_start() {
    let mut e = editor_with_text("abc");
    e.cursor.x_offset = 2;
    e.cursor.y_offset = 1;
    e.flush();
    assert_eq!((e.cursor.x, e.cursor.y, e.cursor.x_offset, e.cursor.y_offset, e.cursor.horizon), (0, 0, 0, 0, 0));
    assert!(e.file.lines.is_empty());
    assert_eq!((e.screen.rows(), e.screen.cols()), (10, 80));
}

#[test]
fn messages_carry_the_time_they_were_set() {
    let t = std::time::SystemTime::UNIX_EPOCH;
    let bar = kilo::editor::status_bar::StatusBar::new_at("hi", t);
    assert_eq!(bar.init, t);
    let mut status = kilo::editor::message_status::MessageStatus::new_at("hi", t);
    assert_eq!(status.init, t);
    let later = t + std::time::Duration::from_secs(1);
    status.set_message_at("bye", later);
    assert_eq!(status.init, later);
    assert_eq!(status.msg, "bye");
}
