//! The editor: its text, cursor, status bar and the way it answers each key.
use vstd::prelude::*;

pub mod file;
pub mod cursor;
pub mod status_bar;
pub mod message_status;
pub mod screen;
pub mod input_mode;
pub mod draw;

use crate::common::{DieReason, Key, MoveKey};
use crate::editor::file::File;
use crate::editor::cursor::Cursor;
use crate::editor::status_bar::StatusBar;
use crate::editor::screen::Screen;
use crate::editor::input_mode::{InputMode, Normal, Prompt, InnerType, line_len, cursor_in_text, key_fits, key_handled};
use crate::editor::file::{Line, expand_tabs, expand_tabs_push, expand_tabs_take_monotone, TAB_STOP, line_chars, clean_lines_saved, any_dirty, text_bytes, WriteRequest, SaveStatus, PersistStep};
use crate::editor::cursor::{x_after_restore, stored_after_store};
use crate::editor::status_bar::byte_width;
use vstd::utf8::encode_utf8;
use crate::clock;

verus! {

/// The editor: its text, the window it shows it in, the cursor, the status bar and the mode.
pub struct Editor {
    pub file: File,
    pub screen: Screen,
    pub cursor: Cursor,
    pub status_bar: StatusBar,
    pub input_mode: InputMode,
}

/// What the editor needs done outside of it before it can go on.
pub enum Request {
    /// Nothing: the key was handled.
    Nothing,
    /// End the program: the user quit.
    Quit,
    /// End the program for this reason.
    Die(DieReason),
    /// Find the working directory, and call `name_requested` with this message and it.
    NeedDir(String),
    /// Write the file as asked, and call `saved` with how that went.
    Write(WriteRequest),
}

/// What a save answers, given the lines and the path before it, with `after` the editor
/// after it: without a path, a name is asked for; with changes (or no lines), the text is
/// written to the path; otherwise there is nothing to save, which the status bar says, back
/// in the editing mode.
pub open spec fn save_answer(lines: Seq<Line>, path: Option<Seq<char>>, after: Editor, r: Request) -> bool {
    match path {
        None => (r matches Request::NeedDir(m) && m@ == "file name to save: "@),
        Some(p) => if any_dirty(lines) || lines.len() == 0 {
            (r matches Request::Write(w) && w.path@ == p && w.bytes@ == text_bytes(after.text()))
        } else {
            &&& r is Nothing
            &&& after.status_bar.msg@ == "no changes to save!"@
            &&& after.input_mode == InputMode::Normal(Normal)
        },
    }
}

/// The help shown when the editor starts.
pub open spec fn help_text() -> Seq<char> {
    "Help: Ctrl-Q: quit, Ctrl-S: save, Ctrl-W: save as, Ctrl-O: open"@
}

impl Editor {
    /// The cursor lies in the text (in the prompt, the column put aside does), nothing is put
    /// aside while editing, and every clean line holds the bytes of its characters.
    pub open spec fn wf(&self) -> bool {
        &&& clean_lines_saved(self.file.lines@)
        &&& match self.input_mode {
            InputMode::Normal(_) => cursor_in_text(self.text(), self.cursor.x as int, self.cursor.y as int)
                && self.cursor.stored_x is None,
            InputMode::Prompt(_) => self.cursor.stored_x is Some
                && cursor_in_text(self.text(), self.cursor.stored_x->0 as int, self.cursor.y as int),
        }
    }

    /// An editor on `screen` with no text, in the editing mode, showing the help.
    pub fn new(screen: Screen) -> (r: Editor)
        ensures
            r.wf(),
            r.text().len() == 0,
            r.file.path_of() is None,
            r.screen == screen,
            r.cursor.x == 0 && r.cursor.y == 0,
            r.status_bar.msg@ == help_text(),
            r.status_bar.prompt@.len() == 0,
            r.input_mode == InputMode::Normal(Normal),
    {
        Editor {
            file: File::new(),
            status_bar: StatusBar::new("Help: Ctrl-Q: quit, Ctrl-S: save, Ctrl-W: save as, Ctrl-O: open"),
            cursor: Cursor::get(),
            screen,
            input_mode: InputMode::Normal(Normal),
        }
    }

    /// The text the status bar shows now; the program ends where the clock went back.
    pub fn message(&self) -> (r: Result<String, DieReason>)
        ensures
            r matches Ok(s) ==> s@ == self.status_bar.full_text() || s@.len() == 0,
    {
        match self.status_bar.message() {
            Ok(s) => Ok(s),
            Err(e) => Err(DieReason::Panic(clock::error_text(&e))),
        }
    }

    /// Shows `msg`, with the directory `dir` and a slash after it as the prompt.
    pub fn request(&mut self, msg: &str, dir: &str)
        ensures
            final(self).status_bar.msg@ == msg@,
            final(self).status_bar.prompt@ == dir@.push('/'),
            final(self).file == old(self).file,
            final(self).cursor == old(self).cursor,
            final(self).screen == old(self).screen,
            final(self).input_mode == old(self).input_mode,
    {
        self.status_bar.set_message(String::from_str(msg));
        let mut prompt = String::from_str(dir);
        prompt.append("/");
        proof {
            reveal_strlit("/");
        }
        self.status_bar.set_prompt(prompt);
    }

    pub open spec fn text(&self) -> Seq<Seq<char>> {
        line_chars(self.file.lines@)
    }

    /// The length of the line under the cursor; none past the last line.
    pub fn max_x(&self) -> (r: usize)
        ensures
            r == line_len(self.text(), self.cursor.y as int),
    {
        if self.file.lines.len() > self.cursor.y {
            self.file.lines[self.cursor.y].chars.len()
        } else {
            0
        }
    }
}


impl Editor {
    /// Switches to the mode `input_mode`; see `InputMode::set`.
    pub fn change_input_mode(&mut self, input_mode: InputMode) -> (r: Result<(), DieReason>)
        ensures
            final(self).file == old(self).file,
            final(self).screen == old(self).screen,
            final(self).status_bar == old(self).status_bar,
            final(self).cursor.y == old(self).cursor.y,
            final(self).cursor.x_offset == old(self).cursor.x_offset,
            final(self).cursor.y_offset == old(self).cursor.y_offset,
            final(self).cursor.horizon == old(self).cursor.horizon,
            match input_mode {
                InputMode::Normal(_) => {
                    &&& r is Ok
                    &&& final(self).input_mode == input_mode
                    &&& final(self).cursor.x == x_after_restore(old(self).cursor.stored_x, old(self).cursor.x)
                    &&& final(self).cursor.stored_x is None
                },
                InputMode::Prompt(_) => {
                    &&& final(self).cursor.stored_x == stored_after_store(old(self).cursor.stored_x, old(self).cursor.x)
                    &&& r is Ok ==> final(self).input_mode == input_mode
                        && (final(self).cursor.x == byte_width(old(self).status_bar.full_text())
                            || final(self).cursor.x == 0)
                },
            },
    {
        input_mode.set(self)
    }

    /// Back to editing with `msg` shown.
    fn show_and_edit(&mut self, msg: String)
        requires
            old(self).wf(),
        ensures
            final(self).wf(),
            final(self).status_bar.msg@ == msg@,
            final(self).status_bar.prompt@.len() == 0,
            final(self).input_mode == InputMode::Normal(Normal),
            final(self).file == old(self).file,
            final(self).screen == old(self).screen,
            final(self).cursor.y == old(self).cursor.y,
            final(self).cursor.x == x_after_restore(old(self).cursor.stored_x, old(self).cursor.x),
            final(self).cursor.stored_x is None,
    {
        self.status_bar.set_message(msg);
        let _ = self.change_input_mode(InputMode::Normal(Normal));
    }

    /// What follows a save, by how it ended: a message and back to editing, or, where a name
    /// is wanted, the working directory to prompt with.
    pub fn finish_save(&mut self, status: SaveStatus) -> (r: Request)
        requires
            old(self).wf(),
            status is Successful ==> old(self).file.path_of() is Some,
        ensures
            final(self).wf(),
            final(self).file.lines == old(self).file.lines,
            final(self).screen == old(self).screen,
            final(self).cursor.y == old(self).cursor.y,
            match status {
                SaveStatus::NameRequest => (r matches Request::NeedDir(m) && m@ == "file name to save: "@)
                    && *final(self) == *old(self),
                _ => {
                    &&& r is Nothing
                    &&& final(self).input_mode == InputMode::Normal(Normal)
                    &&& final(self).cursor.x == x_after_restore(old(self).cursor.stored_x, old(self).cursor.x)
                    &&& final(self).status_bar.prompt@.len() == 0
                },
            },
            status is Successful ==> final(self).status_bar.msg@
                == old(self).file.path_of()->0 + " saved successfully!"@
                && final(self).file.path_of() == old(self).file.path_of(),
            status is NoChanges ==> final(self).status_bar.msg@ == "no changes to save!"@
                && final(self).file.path_of() == old(self).file.path_of(),
            status is Fail ==> final(self).file.path_of() is None
                && final(self).status_bar.msg@.take(("error occurred while saving: "@).len() as int)
                    == "error occurred while saving: "@,
    {
        match status {
            SaveStatus::Successful => {
                let mut msg = self.file.path().unwrap().clone();
                msg.append(" saved successfully!");
                self.show_and_edit(msg);
                Request::Nothing
            },
            SaveStatus::NoChanges => {
                self.show_and_edit(String::from_str("no changes to save!"));
                Request::Nothing
            },
            SaveStatus::NameRequest => {
                Request::NeedDir(String::from_str("file name to save: "))
            },
            SaveStatus::Fail(error) => {
                let text = io_error_text(&error);
                self.save_failed(text.as_str());
                proof {
                    reveal_strlit("error occurred while saving: ");
                    assert(self.status_bar.msg@.take(("error occurred while saving: "@).len() as int)
                        =~= "error occurred while saving: "@);
                }
                Request::Nothing
            },
        }
    }

    /// After a save failed with the error text `text`: forgets the path, says so on the
    /// status bar and goes back to editing.
    pub fn save_failed(&mut self, text: &str)
        requires
            old(self).wf(),
        ensures
            final(self).wf(),
            final(self).file.path_of() is None,
            final(self).file.lines == old(self).file.lines,
            final(self).screen == old(self).screen,
            final(self).cursor.y == old(self).cursor.y,
            final(self).cursor.x == x_after_restore(old(self).cursor.stored_x, old(self).cursor.x),
            final(self).input_mode == InputMode::Normal(Normal),
            final(self).status_bar.msg@ == "error occurred while saving: "@ + text@,
            final(self).status_bar.prompt@.len() == 0,
    {
        self.file.clear_path();
        let mut msg = String::from_str("error occurred while saving: ");
        msg.append(text);
        self.show_and_edit(msg);
    }

    /// Saves the text: where it can be written, asks for it to be; see `File::persist`.
    pub fn save(&mut self) -> (r: Request)
        requires
            old(self).wf(),
        ensures
            final(self).wf(),
            final(self).text().len() >= old(self).text().len(),
            final(self).screen == old(self).screen,
            final(self).cursor.y == old(self).cursor.y,
            final(self).file.path_of() == old(self).file.path_of(),
            old(self).file.path_of() is None ==> (r matches Request::NeedDir(m) && m@ == "file name to save: "@),
            old(self).file.path_of() is Some ==> match r {
                Request::Write(w) => Some(w.path@) == old(self).file.path_of()
                    && w.first_dirty < final(self).file.lines@.len()
                    && w.bytes@ == text_bytes(final(self).text())
                    && final(self).input_mode == old(self).input_mode
                    && final(self).cursor == old(self).cursor
                    && final(self).status_bar == old(self).status_bar
                    && (forall|i: int| 0 <= i < w.first_dirty ==> !(#[trigger] final(self).file.lines@[i]).dirty)
                    && forall|i: int| w.first_dirty <= i < final(self).file.lines@.len()
                        ==> (#[trigger] final(self).file.lines@[i]).persist@ == encode_utf8(final(self).file.lines@[i].chars@),
                Request::Nothing => !any_dirty(old(self).file.lines@) && old(self).text().len() > 0
                    && final(self).status_bar.msg@ == "no changes to save!"@
                    && final(self).input_mode == InputMode::Normal(Normal),
                _ => false,
            },
            old(self).text().len() > 0 ==> final(self).text() == old(self).text(),
            old(self).text().len() == 0 && old(self).file.path_of() is Some ==> final(self).text() == seq![Seq::<char>::empty()],
            save_answer(old(self).file.lines@, old(self).file.path_of(), *final(self), r),
    {
        let ghost before = self.file.lines@;
        match self.file.persist() {
            PersistStep::Finished(status) => {
                proof {
                    if before.len() > 0 {
                        assert(self.text() =~= line_chars(before));
                    }
                }
                self.finish_save(status)
            },
            PersistStep::Write(w) => {
                proof {
                    if before.len() > 0 {
                        assert(self.text() =~= line_chars(before));
                        assert(self.cursor.stored_x is Some ==> cursor_in_text(self.text(), self.cursor.stored_x->0 as int, self.cursor.y as int));
                    } else {
                        assert(self.file.lines@[0].chars@ =~= Seq::<char>::empty());
                        assert(self.text() =~= seq![Seq::<char>::empty()]);
                    }
                }
                Request::Write(w)
            },
        }
    }

    /// Ends a save once the file was written, or failed to be.
    pub fn saved(&mut self, first_dirty: usize, outcome: Result<(), std::io::Error>) -> (r: Request)
        requires
            old(self).wf(),
            first_dirty <= old(self).file.lines@.len(),
            old(self).file.path_of() is Some,
            forall|i: int| first_dirty <= i < old(self).file.lines@.len()
                ==> (#[trigger] old(self).file.lines@[i]).persist@ == encode_utf8(old(self).file.lines@[i].chars@),
        ensures
            final(self).wf(),
            r is Nothing,
            final(self).text() == old(self).text(),
            final(self).input_mode == InputMode::Normal(Normal),
            outcome is Ok ==> !any_dirty(final(self).file.lines@.skip(first_dirty as int))
                && final(self).file.path_of() == old(self).file.path_of()
                && final(self).status_bar.msg@ == old(self).file.path_of()->0 + " saved successfully!"@,
            outcome is Err ==> final(self).file.path_of() is None
                && final(self).status_bar.msg@.take(("error occurred while saving: "@).len() as int)
                    == "error occurred while saving: "@,
            outcome is Ok && (forall|i: int| 0 <= i < first_dirty ==> !(#[trigger] old(self).file.lines@[i]).dirty)
                ==> !any_dirty(final(self).file.lines@),
    {
        let ghost before = self.file.lines@;
        let status = self.file.persisted(first_dirty, outcome);
        proof {
            assert(self.text() =~= line_chars(before));
            let rest = self.file.lines@.skip(first_dirty as int);
            if outcome is Ok {
                assert forall|i: int| 0 <= i < rest.len() implies !(#[trigger] rest[i]).dirty by {
                    assert(rest[i] == self.file.lines@[first_dirty + i]);
                }
                if forall|i: int| 0 <= i < first_dirty ==> !(#[trigger] before[i]).dirty {
                    assert forall|i: int| 0 <= i < self.file.lines@.len() implies !(#[trigger] self.file.lines@[i]).dirty by {
                        if i < first_dirty {
                            assert(!before[i].dirty);
                        }
                    }
                }
            }
        }
        self.finish_save(status)
    }

    /// Asks for a file name: shows `msg` and prompts with the directory `dir`.
    pub fn name_requested(&mut self, msg: &str, dir: &str) -> (r: Request)
        requires
            old(self).wf(),
        ensures
            !(r is Die) ==> final(self).wf(),
            r is Nothing || r is Die,
            final(self).file == old(self).file,
            final(self).screen == old(self).screen,
            final(self).status_bar.msg@ == msg@,
            final(self).status_bar.prompt@ == dir@.push('/'),
            r is Nothing ==> final(self).input_mode == InputMode::Prompt(Prompt(InnerType::Save))
                && (final(self).cursor.x == byte_width(final(self).status_bar.full_text()) || final(self).cursor.x == 0)
                && final(self).cursor.stored_x == stored_after_store(old(self).cursor.stored_x, old(self).cursor.x),
    {
        self.request(msg, dir);
        match self.change_input_mode(InputMode::Prompt(Prompt(InnerType::Save))) {
            Ok(()) => Request::Nothing,
            Err(reason) => Request::Die(reason),
        }
    }

    /// Asks before quitting with unsaved changes; quits otherwise.
    pub fn quit(&mut self) -> (r: Request)
        requires
            old(self).wf(),
        ensures
            !(r is Die) ==> final(self).wf(),
            final(self).file == old(self).file,
            final(self).screen == old(self).screen,
            !any_dirty(old(self).file.lines@) ==> r is Quit && *final(self) == *old(self),
            any_dirty(old(self).file.lines@) ==> (r is Nothing || r is Die)
                && final(self).status_bar.msg@ == "there are some unsaved changes. are you sure? (y/n)"@
                && final(self).status_bar.prompt@.len() == 0
                && (r is Nothing ==> final(self).input_mode == InputMode::Prompt(Prompt(InnerType::Quit))),
    {
        if self.file.is_dirty() {
            self.status_bar.set_message(String::from_str("there are some unsaved changes. are you sure? (y/n)"));
            match self.change_input_mode(InputMode::Prompt(Prompt(InnerType::Quit))) {
                Ok(()) => Request::Nothing,
                Err(reason) => Request::Die(reason),
            }
        } else {
            Request::Quit
        }
    }

    /// Empties the text and the status bar, and puts the cursor back at the start.
    pub fn flush(&mut self)
        ensures
            final(self).text().len() == 0,
            final(self).cursor.x == 0 && final(self).cursor.y == 0,
            final(self).cursor.x_offset == 0 && final(self).cursor.y_offset == 0,
            final(self).cursor.horizon == 0,
            final(self).cursor.stored_x is None,
            final(self).screen == old(self).screen,
            final(self).status_bar.msg@.len() == 0,
            final(self).status_bar.prompt@.len() == 0,
            final(self).input_mode == old(self).input_mode,
            final(self).file.path_of() == old(self).file.path_of(),
    {
        self.cursor.refresh();
        self.file.lines.clear();
        self.status_bar.clear();
    }

    /// Saves under a new name: marks the text as changed and asks for the name.
    pub fn save_as(&mut self) -> (r: Request)
        requires
            old(self).wf(),
        ensures
            final(self).wf(),
            r matches Request::NeedDir(m) && m@ == "file name to save: "@,
            any_dirty(final(self).file.lines@),
            old(self).text().len() > 0 ==> final(self).text() == old(self).text(),
            old(self).text().len() == 0 ==> final(self).text() == seq![Seq::<char>::empty()],
            final(self).file.path_of() == old(self).file.path_of(),
    {
        let ghost before = self.file.lines@;
        self.file.make_dirty();
        proof {
            if before.len() > 0 {
                assert(self.text() =~= line_chars(before));
            } else {
                assert(self.file.lines@[0].chars@ =~= Seq::<char>::empty());
                assert(self.text() =~= seq![Seq::<char>::empty()]);
            }
        }
        Request::NeedDir(String::from_str("file name to save: "))
    }
}


/// The screen column of the cursor at column `x` of line `y` of `text`: how wide the line
/// is on screen up to the cursor.
pub open spec fn render_x(text: Seq<Seq<char>>, x: int, y: int) -> int {
    if text.len() == 0 {
        0
    } else {
        expand_tabs(text[y].take(x)).len() as int
    }
}

impl Editor {
    /// The screen column of the cursor.
    pub fn x_render(&self) -> (r: usize)
        requires
            self.text().len() > 0 ==> self.cursor.y < self.text().len()
                && self.cursor.x <= self.text()[self.cursor.y as int].len()
                && render_x(self.text(), self.cursor.x as int, self.cursor.y as int) <= usize::MAX,
        ensures
            r == render_x(self.text(), self.cursor.x as int, self.cursor.y as int),
    {
        if self.file.lines.len() == 0 {
            return 0;
        }
        let chars = &self.file.lines[self.cursor.y].chars;
        let ghost s = chars@;
        let mut x_render: usize = 0;
        let n = self.cursor.x;
        let mut i: usize = 0;
        while i < n
            invariant
                n == self.cursor.x,
                n <= s.len(),
                s == chars@,
                s == self.text()[self.cursor.y as int],
                expand_tabs(s.take(n as int)).len() <= usize::MAX,
                i <= n,
                x_render == expand_tabs(s.take(i as int)).len(),
            decreases n - i,
        {
            proof {
                assert(s.take(i + 1) == s.take(i as int).push(s[i as int]));
                expand_tabs_push(s.take(i as int), s[i as int]);
                expand_tabs_take_monotone(s, i + 1, n as int);
            }
            if chars[i] == '\t' {
                x_render = x_render + (TAB_STOP - x_render % TAB_STOP);
            } else {
                x_render = x_render + 1;
            }
            i = i + 1;
        }
        x_render
    }
}

impl Editor {
    /// Answers the key `input` in the current mode; see `key_handled`.
    pub fn process_keypress(&mut self, input: Key) -> (r: Request)
        requires
            old(self).wf(),
            key_fits(*old(self), input),
        ensures
            key_handled(*old(self), *final(self), input, r),
    {
        let input_mode = self.input_mode;
        input_mode.process_keypress(self, input)
    }

    /// Whether the key `input` can be handled now; see `key_fits`.
    pub fn can_handle(&self, input: Key) -> (r: bool)
        ensures
            r == key_fits(*self, input),
    {
        match self.input_mode {
            InputMode::Normal(_) => match input {
                Key::Move(MoveKey::PageDown) => self.cursor.y <= usize::MAX - self.screen.rows,
                _ => true,
            },
            InputMode::Prompt(Prompt(inner)) => match input {
                Key::Char(b) => {
                    if inner == InnerType::Save && b != 9 {
                        self.status_bar.prompt_index(self.cursor.x) <= self.status_bar.prompt.len()
                    } else {
                        true
                    }
                },
                Key::BackSpace => {
                    self.status_bar.prompt.len() == 0
                        || self.status_bar.prompt_index(self.cursor.x) <= self.status_bar.prompt.len()
                },
                _ => true,
            },
        }
    }
}

/// The text of an input or output error, as its `Display` writes it.
///
/// Trusted with no promise on the text.
#[verifier::external_body]
fn io_error_text(e: &std::io::Error) -> (r: String) {
    e.to_string()
}
} // verus!
