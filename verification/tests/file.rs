use kilo::editor::file::{File, Line, PersistStep, SaveStatus};

fn chars(s: &str) -> Vec<char> {
    s.chars().collect()
}

fn text(file: &File) -> Vec<String> {
    file.lines.iter().map(|l| l.chars.iter().collect()).collect()
}

#[test]
fn new_line_expands_tabs_to_the_next_stop() {
    let line = Line::new("a\tb", false);
    assert_eq!(line.chars, chars("a\tb"));
    assert_eq!(line.render, chars("a       b"));
    assert_eq!(line.persist, b"a\tb".to_vec());
    assert!(!line.dirty);
    let line = Line::new("\t\t", true);
    assert_eq!(line.render.len(), 16);
    assert!(line.dirty);
}

#[test]
fn new_line_keeps_utf8_bytes() {
    let line = Line::new("héllo", false);
    assert_eq!(line.chars.len(), 5);
    assert_eq!(line.persist, "héllo".as_bytes().to_vec());
}

#[test]
fn empty_line_is_dirty() {
    let line = Line::new_empty();
    assert!(line.chars.is_empty() && line.render.is_empty() && line.persist.is_empty());
    assert!(line.dirty);
}

#[test]
fn insert_and_remove_rerender_and_dirty() {
    let mut line = Line::new("ab", false);
    line.insert('\t', 1);
    assert_eq!(line.chars, chars("a\tb"));
    assert_eq!(line.render, chars("a       b"));
    assert!(line.dirty);
    assert_eq!(line.persist, b"ab".to_vec());
    line.remove(1);
    assert_eq!(line.chars, chars("ab"));
    assert_eq!(line.render, chars("ab"));
}

#[test]
fn push_appends_to_the_screen_form_as_is() {
    let mut line = Line::new("ab", false);
    line.push('c');
    assert_eq!(line.render, chars("abc"));
    line.push('\t');
    assert_eq!(line.chars, chars("abc\t"));
    assert_eq!(line.render, chars("abc\t"));
    assert!(line.dirty);
}

#[test]
fn split_then_merge_gives_the_line_back() {
    let mut file = File::new();
    file.add_new_line("hello world", false);
    file.add_new_line("second", false);
    file.split_line(0, 5);
    assert_eq!(text(&file), vec!["hello", " world", "second"]);
    assert!(file.lines[0].dirty && file.lines[1].dirty && !file.lines[2].dirty);
    file.merge_lines(1, 0);
    assert_eq!(text(&file), vec!["hello world", "second"]);
}

#[test]
fn split_without_lines_makes_two() {
    let mut file = File::new();
    file.split_line(0, 0);
    assert_eq!(text(&file), vec!["", ""]);
}

#[test]
fn merge_of_a_line_with_itself_does_nothing() {
    let mut file = File::new();
    file.add_new_line("x", false);
    file.merge_lines(0, 0);
    assert_eq!(text(&file), vec!["x"]);
    assert!(!file.is_dirty());
    let mut empty = File::new();
    empty.merge_lines(1, 0);
    assert!(empty.lines.is_empty());
}

#[test]
fn make_dirty_adds_a_line_to_an_empty_text() {
    let mut file = File::new();
    assert!(!file.is_dirty());
    file.make_dirty();
    assert_eq!(text(&file), vec![""]);
    assert!(file.is_dirty());
    let mut file = File::new();
    file.add_new_line("a", false);
    file.make_dirty();
    assert!(file.lines[0].dirty);
}

#[test]
fn load_splits_lines_like_str_lines() {
    let mut file = File::new();
    file.load("one\r\ntwo\n\nthree\r");
    assert_eq!(text(&file), vec!["one", "two", "", "three\r"]);
    assert!(!file.is_dirty());
    let mut file = File::new();
    file.load("a\n");
    assert_eq!(text(&file), vec!["a"]);
    let mut file = File::new();
    file.load("");
    assert!(file.lines.is_empty());
    let mut file = File::new();
    file.load("\n");
    assert_eq!(text(&file), vec![""]);
}

#[test]
fn persist_without_a_path_asks_for_a_name() {
    let mut file = File::new();
    file.add_new_line("a", true);
    assert!(matches!(file.persist(), PersistStep::Finished(SaveStatus::NameRequest)));
}

#[test]
fn persist_of_a_clean_text_has_nothing_to_do() {
    let mut file = File::new();
    file.set_name("/tmp/x.txt");
    file.load("a\nb\n");
    assert!(matches!(file.persist(), PersistStep::Finished(SaveStatus::NoChanges)));
}

#[test]
fn persist_writes_the_whole_text_and_marks_it_clean() {
    let mut file = File::new();
    file.set_name("/tmp/x.txt");
    file.load("a\nb\nc\n");
    file.lines[1].insert('é', 1);
    let step = file.persist();
    let request = match step {
        PersistStep::Write(w) => w,
        _ => panic!("expected a write"),
    };
    assert_eq!(request.path, "/tmp/x.txt");
    assert_eq!(request.first_dirty, 1);
    assert_eq!(request.bytes, "a\nbé\nc\n".as_bytes().to_vec());
    assert!(file.is_dirty());
    let status = file.persisted(request.first_dirty, Ok(()));
    assert!(matches!(status, SaveStatus::Successful));
    assert!(!file.is_dirty());
    assert_eq!(file.lines[1].persist, "bé".as_bytes().to_vec());
}

#[test]
fn persist_of_an_empty_text_writes_one_empty_line() {
    let mut file = File::new();
    file.set_name("/tmp/x.txt");
    match file.persist() {
        PersistStep::Write(w) => {
            assert_eq!(w.bytes, b"\n".to_vec());
            assert_eq!(w.first_dirty, 0);
        },
        _ => panic!("expected a write"),
    }
}

#[test]
fn failed_write_keeps_the_text_dirty() {
    let mut file = File::new();
    file.set_name("/tmp/x.txt");
    file.add_new_line("a", true);
    let first = match file.persist() {
        PersistStep::Write(w) => w.first_dirty,
        _ => panic!("expected a write"),
    };
    let status = file.persisted(first, Err(std::io::Error::new(std::io::ErrorKind::Other, "disk full")));
    assert!(matches!(status, SaveStatus::Fail(_)));
    assert!(file.is_dirty());
}

#[test]
fn path_name_and_dir() {
    let mut file = File::new();
    assert!(file.path().is_none() && file.name().is_none() && file.dir().is_none());
    assert!(!file.exists_as_file());
    file.set_name("/home/user/notes.txt");
    assert_eq!(file.path().map(|p| p.as_str()), Some("/home/user/notes.txt"));
    assert_eq!(file.name().as_deref(), Some("notes.txt"));
    assert_eq!(file.dir().as_deref(), Some("/home/user"));
    file.clear_path();
    assert!(file.path().is_none());
}

#[test]
fn set_path_joins_the_absolute_directory_and_the_name() {
    assert_eq!(File::parent_dir("notes.txt"), ".");
    assert_eq!(File::parent_dir("docs/notes.txt"), "docs");
    assert_eq!(File::parent_dir("/"), ".");
    let mut file = File::new();
    assert!(file.set_path("docs/notes.txt", "/home/user/docs").is_ok());
    assert_eq!(file.path().map(|p| p.as_str()), Some("/home/user/docs/notes.txt"));
    let mut file = File::new();
    assert!(file.set_path("..", "/home").is_err());
    assert!(file.path().is_none());
}
