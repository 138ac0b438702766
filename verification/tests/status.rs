use kilo::editor::cursor::Cursor;
use kilo::editor::status_bar::StatusBar;
use kilo::editor::message_status::MessageStatus;
use kilo::cursor::{self as screen_cursor, distance_from_bottom, distance_from_left, distance_from_right, distance_from_top};

#[test]
fn cursor_starts_at_the_origin_and_refreshes_back() {
    let mut c = Cursor::get();
    assert_eq!((c.x, c.y, c.x_offset, c.y_offset, c.horizon), (0, 0, 0, 0, 0));
    c.x = 3;
    c.y = 4;
    c.y_offset = 2;
    c.store_x();
    c.refresh();
    assert_eq!((c.x, c.y, c.y_offset), (0, 0, 0));
    assert_eq!(c.stored_x, None);
}

#[test]
fn restore_gives_back_the_first_stored_column() {
    let mut c = Cursor::get();
    c.x = 5;
    c.store_x();
    c.x = 9;
    c.store_x();
    c.x = 1;
    c.restore_x();
    assert_eq!(c.x, 5);
    assert_eq!(c.stored_x, None);
    c.x = 7;
    c.restore_x();
    assert_eq!(c.x, 7);
}

#[test]
fn prompt_index_counts_past_the_message() {
    let bar = StatusBar::new("name: ");
    assert_eq!(bar.prompt_index(0), 0);
    assert_eq!(bar.prompt_index(6), 0);
    assert_eq!(bar.prompt_index(9), 3);
    let wide = StatusBar::new("é: ");
    assert_eq!(wide.prompt_index(5), 1);
}

#[test]
fn prompt_edits_at_the_cursor() {
    let mut bar = StatusBar::new("> ");
    bar.set_prompt(String::from("abc"));
    bar.prompt_insert('X', 3);
    assert_eq!(bar.prompt, vec!['a', 'X', 'b', 'c']);
    assert_eq!(bar.prompt_delete(3), Some('X'));
    assert_eq!(bar.prompt, vec!['a', 'b', 'c']);
    assert_eq!(bar.prompt_delete(5), None);
    assert_eq!(bar.prompt_backspace(4), Some('b'));
    assert_eq!(bar.prompt, vec!['a', 'c']);
    assert_eq!(bar.prompt_backspace(2), None);
    assert_eq!(bar.take_prompt(), "ac");
    assert!(bar.prompt.is_empty());
    assert_eq!(bar.prompt_backspace(9), None);
    assert_eq!(bar.prompt_delete(0), None);
}

#[test]
fn backspace_after_insert_takes_the_character_out() {
    let mut bar = StatusBar::new("ab");
    bar.set_prompt(String::from("xyz"));
    bar.prompt_insert('Q', 3);
    assert_eq!(bar.prompt_backspace(4), Some('Q'));
    assert_eq!(bar.prompt, vec!['x', 'y', 'z']);
}

#[test]
fn message_shows_message_and_prompt_while_fresh() {
    let mut bar = StatusBar::new("hello");
    assert_eq!(bar.message().unwrap(), "hello");
    bar.set_prompt(String::from("/tmp/"));
    assert_eq!(bar.message().unwrap(), "hello/tmp/");
    bar.set_message(String::from("saved"));
    assert_eq!(bar.message().unwrap(), "saved");
    assert_eq!(bar.message_after(0), "saved");
    assert_eq!(bar.message_after(4_999_999_999), "saved");
    assert_eq!(bar.message_after(5_000_000_000), "");
    bar.clear();
    assert_eq!(bar.message().unwrap(), "");
}

#[test]
fn message_status_keeps_its_timeout() {
    let mut status = MessageStatus::new("hi");
    assert_eq!(status.timeout(), 5_000_000_000);
    assert_eq!(status.message().unwrap(), "hi");
    status.set_prompt('a');
    status.set_prompt('b');
    assert_eq!(status.message().unwrap(), "hiab");
    status.empty_prompt();
    status.set("bye", 0);
    assert_eq!(status.timeout(), 0);
    assert_eq!(status.message().unwrap(), "");
    status.set_timeout(60_000_000_000);
    status.set_message("again");
    assert_eq!(status.message().unwrap(), "again");
    assert_eq!(status.message_after(59_999_999_999), "again");
    assert_eq!(status.message_after(60_000_000_000), "");
}

#[test]
fn distances_to_the_screen_edges() {
    let c = screen_cursor::Cursor { x: 3, y: 4, x_offset: 0, y_offset: 0 };
    assert_eq!(distance_from_top(&c), 4);
    assert_eq!(distance_from_left(&c), 3);
    assert_eq!(distance_from_bottom(&c, 24), 20);
    assert_eq!(distance_from_right(&c, 80), 77);
}
