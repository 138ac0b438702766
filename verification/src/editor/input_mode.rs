//! The two modes of the editor: editing the text, and answering the status bar's prompt.
use vstd::prelude::*;
use crate::common::{DieReason, Key, MoveKey};
use crate::editor::{Editor, Request, render_x, save_answer};
use vstd::utf8::encode_utf8;
use crate::text::chars_to_string;
use crate::editor::cursor::{x_after_restore, stored_after_store};
use crate::editor::status_bar::byte_width;
use crate::editor::file::{Line, text_bytes, merge_undoes_split, line_chars, split_text, merge_text, clean_lines_saved, any_dirty};

verus! {

/// What the status bar's prompt asks for.
#[derive(Debug, Clone, Copy, PartialEq, Eq, Structural)]
pub enum InnerType {
    Save,
    Quit,
    Overwrite,
}

/// Editing the text.
#[derive(Debug, Clone, Copy, PartialEq, Eq, Structural)]
pub struct Normal;

/// Answering the status bar's prompt.
#[derive(Debug, Clone, Copy, PartialEq, Eq, Structural)]
pub struct Prompt(pub InnerType);

/// The mode the editor is in.
#[derive(Debug, Clone, Copy, PartialEq, Eq, Structural)]
pub enum InputMode {
    Normal(Normal),
    Prompt(Prompt),
}

/// The number of characters of line `y` of `text`; none past the last line.
pub open spec fn line_len(text: Seq<Seq<char>>, y: int) -> int {
    if 0 <= y < text.len() {
        text[y].len() as int
    } else {
        0
    }
}

pub open spec fn min(a: int, b: int) -> int {
    if a <= b { a } else { b }
}

/// Where the cursor at column `x` of line `y`, keeping to column `h`, goes on `key` in
/// `text`, with `rows` rows on screen: the new column, line and column kept to.
pub open spec fn moved(text: Seq<Seq<char>>, rows: int, x: int, y: int, h: int, key: MoveKey) -> (int, int, int) {
    match key {
        MoveKey::ArrowUp => {
            let y2 = if y > 0 { y - 1 } else { y };
            (min(h, line_len(text, y2)), y2, h)
        },
        MoveKey::ArrowDown => {
            let y2 = if y + 1 < text.len() { y + 1 } else { y };
            (min(h, line_len(text, y2)), y2, h)
        },
        MoveKey::ArrowLeft => {
            if x > 0 {
                (x - 1, y, x - 1)
            } else if y > 0 {
                (line_len(text, y - 1), y - 1, line_len(text, y - 1))
            } else {
                (x, y, x)
            }
        },
        MoveKey::ArrowRight => {
            if x < line_len(text, y) {
                (x + 1, y, x + 1)
            } else if y + 1 < text.len() {
                (0, y + 1, 0)
            } else {
                (x, y, x)
            }
        },
        MoveKey::PageUp => {
            let y2 = if y >= rows { y - rows } else { 0 };
            (min(h, line_len(text, y2)), y2, h)
        },
        MoveKey::PageDown => {
            let y2 = if y + rows < text.len() { y + rows } else if text.len() > 0 { text.len() - 1 } else { 0 };
            (min(h, line_len(text, y2)), y2, h)
        },
        MoveKey::Home => (0, y, 0),
        MoveKey::End => (line_len(text, y), y, line_len(text, y)),
    }
}

/// Whether the column `x` of line `y` lies in `text`: at the start where there are no lines.
pub open spec fn cursor_in_text(text: Seq<Seq<char>>, x: int, y: int) -> bool {
    if text.len() == 0 {
        x == 0 && y == 0
    } else {
        0 <= y < text.len() && 0 <= x <= text[y].len()
    }
}

/// `text` once `c` is typed at column `x` of line `y`: a first line is made where there
/// are none.
pub open spec fn typed(text: Seq<Seq<char>>, x: int, y: int, c: char) -> Seq<Seq<char>> {
    if y < text.len() {
        text.update(y, text[y].insert(x, c))
    } else {
        text.push(seq![c])
    }
}

/// `text` once the delete key is pressed at column `x` of line `y`: the character under the
/// cursor goes, or at the end of a line the next line joins it.
pub open spec fn deleted(text: Seq<Seq<char>>, x: int, y: int) -> Seq<Seq<char>> {
    if x == line_len(text, y) && y + 1 == text.len() {
        text
    } else if x == line_len(text, y) {
        merge_text(text, y + 1, y)
    } else {
        text.update(y, text[y].remove(x))
    }
}

/// `text` once the backspace key is pressed at column `x` of line `y`: the character before
/// the cursor goes, or at the start of a line the line joins the one before.
pub open spec fn backspaced(text: Seq<Seq<char>>, x: int, y: int) -> Seq<Seq<char>> {
    if x == 0 && y == 0 {
        text
    } else if x == 0 {
        merge_text(text, y, y - 1)
    } else {
        text.update(y, text[y].remove(x - 1))
    }
}

/// Moving keeps the cursor in the text.
pub proof fn moving_stays_in_text(text: Seq<Seq<char>>, rows: int, x: int, y: int, h: int, key: MoveKey)
    requires
        cursor_in_text(text, x, y),
        rows >= 0,
        h >= 0,
    ensures
        cursor_in_text(text, moved(text, rows, x, y, h, key).0, moved(text, rows, x, y, h, key).1),
{
}


impl Normal {
    /// Moves the cursor on `key`.
    pub fn move_cursor(editor: &mut Editor, key: MoveKey)
        requires
            old(editor).cursor.y < usize::MAX,
            key == MoveKey::PageDown ==> old(editor).cursor.y + old(editor).screen.rows <= usize::MAX,
        ensures
            ({
                let m = moved(old(editor).text(), old(editor).screen.rows as int, old(editor).cursor.x as int,
                    old(editor).cursor.y as int, old(editor).cursor.horizon as int, key);
                &&& final(editor).cursor.x == m.0
                &&& final(editor).cursor.y == m.1
                &&& final(editor).cursor.horizon == m.2
            }),
            final(editor).cursor.x_offset == old(editor).cursor.x_offset,
            final(editor).cursor.y_offset == old(editor).cursor.y_offset,
            final(editor).cursor.stored_x == old(editor).cursor.stored_x,
            final(editor).file == old(editor).file,
            final(editor).screen == old(editor).screen,
            final(editor).status_bar == old(editor).status_bar,
            final(editor).input_mode == old(editor).input_mode,
    {
        match key {
            MoveKey::ArrowUp => {
                if editor.cursor.y > 0 {
                    editor.cursor.y = editor.cursor.y - 1;
                }
                let max_x = editor.max_x();
                editor.cursor.x = if editor.cursor.horizon <= max_x { editor.cursor.horizon } else { max_x };
            },
            MoveKey::ArrowDown => {
                if editor.cursor.y + 1 < editor.file.lines.len() {
                    editor.cursor.y = editor.cursor.y + 1;
                }
                let max_x = editor.max_x();
                editor.cursor.x = if editor.cursor.horizon <= max_x { editor.cursor.horizon } else { max_x };
            },
            MoveKey::ArrowLeft => {
                if editor.cursor.x > 0 {
                    editor.cursor.x = editor.cursor.x - 1;
                } else if editor.cursor.y > 0 {
                    editor.cursor.y = editor.cursor.y - 1;
                    editor.cursor.x = editor.max_x();
                }
                editor.cursor.horizon = editor.cursor.x;
            },
            MoveKey::ArrowRight => {
                if editor.cursor.x < editor.max_x() {
                    editor.cursor.x = editor.cursor.x + 1;
                } else if editor.cursor.y + 1 < editor.file.lines.len() {
                    editor.cursor.y = editor.cursor.y + 1;
                    editor.cursor.x = 0;
                }
                editor.cursor.horizon = editor.cursor.x;
            },
            MoveKey::PageUp => {
                if editor.cursor.y >= editor.screen.rows() {
                    editor.cursor.y = editor.cursor.y - editor.screen.rows();
                } else {
                    editor.cursor.y = 0;
                }
                let max_x = editor.max_x();
                editor.cursor.x = if editor.cursor.horizon <= max_x { editor.cursor.horizon } else { max_x };
            },
            MoveKey::PageDown => {
                if editor.cursor.y + editor.screen.rows() < editor.file.lines.len() {
                    editor.cursor.y = editor.cursor.y + editor.screen.rows();
                } else {
                    editor.cursor.y = editor.file.lines.len().saturating_sub(1);
                }
                let max_x = editor.max_x();
                editor.cursor.x = if editor.cursor.horizon <= max_x { editor.cursor.horizon } else { max_x };
            },
            MoveKey::Home => {
                editor.cursor.x = 0;
                editor.cursor.horizon = 0;
            },
            MoveKey::End => {
                let max_x = editor.max_x();
                editor.cursor.x = max_x;
                editor.cursor.horizon = max_x;
            },
        }
    }
}

/// Changing one line, to a line that is dirty, keeps every clean line holding the bytes of
/// its characters.
proof fn clean_after_update(old_lines: Seq<Line>, new_lines: Seq<Line>, y: int)
    requires
        0 <= y < old_lines.len(),
        new_lines.len() == old_lines.len(),
        forall|i: int| 0 <= i < old_lines.len() && i != y ==> new_lines[i] == old_lines[i],
        new_lines[y].dirty,
        clean_lines_saved(old_lines),
    ensures
        clean_lines_saved(new_lines),
        any_dirty(new_lines),
{
    assert forall|i: int| 0 <= i < new_lines.len() && !(#[trigger] new_lines[i]).dirty
        implies new_lines[i].persist@ == encode_utf8(new_lines[i].chars@) by {
        assert(new_lines[i] == old_lines[i]);
    }
}

impl Normal {
    /// Types `c` at the cursor and moves past it.
    pub fn write(editor: &mut Editor, c: char)
        requires
            cursor_in_text(old(editor).text(), old(editor).cursor.x as int, old(editor).cursor.y as int),
        ensures
            final(editor).text() == typed(old(editor).text(), old(editor).cursor.x as int, old(editor).cursor.y as int, c),
            ({
                let m = moved(final(editor).text(), old(editor).screen.rows as int, old(editor).cursor.x as int,
                    old(editor).cursor.y as int, old(editor).cursor.horizon as int, MoveKey::ArrowRight);
                &&& final(editor).cursor.x == m.0
                &&& final(editor).cursor.y == m.1
                &&& final(editor).cursor.horizon == m.2
            }),
            final(editor).cursor.x == old(editor).cursor.x + 1,
            final(editor).cursor.y == old(editor).cursor.y,
            cursor_in_text(final(editor).text(), final(editor).cursor.x as int, final(editor).cursor.y as int),
            final(editor).cursor.x_offset == old(editor).cursor.x_offset,
            final(editor).cursor.y_offset == old(editor).cursor.y_offset,
            final(editor).cursor.stored_x == old(editor).cursor.stored_x,
            final(editor).file.path_of() == old(editor).file.path_of(),
            final(editor).screen == old(editor).screen,
            final(editor).status_bar == old(editor).status_bar,
            final(editor).input_mode == old(editor).input_mode,
            any_dirty(final(editor).file.lines@),
            clean_lines_saved(old(editor).file.lines@) ==> clean_lines_saved(final(editor).file.lines@),
    {
        let cursor_y = editor.cursor.y;
        let ghost old_lines = editor.file.lines@;
        if editor.file.lines.len() > cursor_y {
            let cursor_x = editor.cursor.x;
            if editor.file.lines[cursor_y].chars.len() > cursor_x {
                editor.file.lines[cursor_y].insert(c, cursor_x);
            } else {
                editor.file.lines[cursor_y].push(c);
                assert(old_lines[cursor_y as int].chars@.push(c) =~= old_lines[cursor_y as int].chars@.insert(cursor_x as int, c));
            }
            proof {
                let t = line_chars(old_lines);
                assert(editor.text() =~= typed(t, cursor_x as int, cursor_y as int, c));
                if clean_lines_saved(old_lines) {
                    clean_after_update(old_lines, editor.file.lines@, cursor_y as int);
                } else {
                    assert(editor.file.lines@[cursor_y as int].dirty);
                }
            }
        } else {
            let s = chars_to_string(&[c]);
            assert(s@ =~= seq![c]);
            editor.file.add_new_line(s.as_str(), true);
            proof {
                let t = line_chars(old_lines);
                assert(editor.file.lines@.last() == editor.file.lines@[0]);
                assert(editor.text() =~= typed(t, editor.cursor.x as int, cursor_y as int, c));
                assert(editor.file.lines@[0].dirty);
            }
        }
        Normal::move_cursor(editor, MoveKey::ArrowRight)
    }
}

impl Normal {
    /// Cuts the line at the cursor and moves to the start of the new line.
    pub fn enter_pressed(editor: &mut Editor)
        requires
            cursor_in_text(old(editor).text(), old(editor).cursor.x as int, old(editor).cursor.y as int),
        ensures
            final(editor).text() == split_text(old(editor).text(), old(editor).cursor.y as int, old(editor).cursor.x as int),
            final(editor).cursor.x == 0,
            final(editor).cursor.y == old(editor).cursor.y + 1,
            final(editor).cursor.horizon == 0,
            cursor_in_text(final(editor).text(), final(editor).cursor.x as int, final(editor).cursor.y as int),
            final(editor).cursor.x_offset == old(editor).cursor.x_offset,
            final(editor).cursor.y_offset == old(editor).cursor.y_offset,
            final(editor).cursor.stored_x == old(editor).cursor.stored_x,
            final(editor).file.path_of() == old(editor).file.path_of(),
            final(editor).screen == old(editor).screen,
            final(editor).status_bar == old(editor).status_bar,
            final(editor).input_mode == old(editor).input_mode,
            any_dirty(final(editor).file.lines@),
            clean_lines_saved(old(editor).file.lines@) ==> clean_lines_saved(final(editor).file.lines@),
    {
        editor.file.split_line(editor.cursor.y, editor.cursor.x);
        let n = editor.file.lines.len();
        assert(editor.cursor.y < n);
        proof {
            let y = old(editor).cursor.y as int;
            if old(editor).file.lines@.len() > 0 {
                assert(editor.file.lines@[y].dirty);
                assert(line_len(editor.text(), y) == old(editor).cursor.x);
            } else {
                assert(editor.file.lines@[0].dirty);
            }
        }
        Normal::move_cursor(editor, MoveKey::ArrowRight);
    }

    /// Takes out the character under the cursor; at the end of a line, joins the next line
    /// to it.
    pub fn delete_pressed(editor: &mut Editor)
        requires
            cursor_in_text(old(editor).text(), old(editor).cursor.x as int, old(editor).cursor.y as int),
        ensures
            final(editor).text() == deleted(old(editor).text(), old(editor).cursor.x as int, old(editor).cursor.y as int),
            final(editor).cursor == old(editor).cursor,
            cursor_in_text(final(editor).text(), final(editor).cursor.x as int, final(editor).cursor.y as int),
            final(editor).file.path_of() == old(editor).file.path_of(),
            final(editor).screen == old(editor).screen,
            final(editor).status_bar == old(editor).status_bar,
            final(editor).input_mode == old(editor).input_mode,
            final(editor).text() != old(editor).text() ==> any_dirty(final(editor).file.lines@),
            clean_lines_saved(old(editor).file.lines@) ==> clean_lines_saved(final(editor).file.lines@),
    {
        let max_x = editor.max_x();
        let n = editor.file.lines.len();
        if editor.cursor.x == max_x && editor.cursor.y + 1 == n {
            return;
        }
        if editor.cursor.x == max_x {
            editor.file.merge_lines(editor.cursor.y + 1, editor.cursor.y);
            proof {
                if old(editor).file.lines@.len() > 0 {
                    assert(editor.file.lines@[old(editor).cursor.y as int].dirty);
                }
            }
            return;
        }
        let ghost old_lines = editor.file.lines@;
        editor.file.lines[editor.cursor.y].remove(editor.cursor.x);
        proof {
            let y = old(editor).cursor.y as int;
            assert(editor.text() =~= deleted(line_chars(old_lines), old(editor).cursor.x as int, y));
            if clean_lines_saved(old_lines) {
                clean_after_update(old_lines, editor.file.lines@, y);
            } else {
                assert(editor.file.lines@[y].dirty);
            }
        }
    }

    /// Takes out the character before the cursor and moves back over it; at the start of a
    /// line, joins the line to the one before.
    pub fn backspace_pressed(editor: &mut Editor)
        requires
            cursor_in_text(old(editor).text(), old(editor).cursor.x as int, old(editor).cursor.y as int),
        ensures
            final(editor).text() == backspaced(old(editor).text(), old(editor).cursor.x as int, old(editor).cursor.y as int),
            ({
                let m = moved(old(editor).text(), old(editor).screen.rows as int, old(editor).cursor.x as int,
                    old(editor).cursor.y as int, old(editor).cursor.horizon as int, MoveKey::ArrowLeft);
                if old(editor).cursor.x == 0 && old(editor).cursor.y == 0 {
                    final(editor).cursor == old(editor).cursor
                } else {
                    &&& final(editor).cursor.x == m.0
                    &&& final(editor).cursor.y == m.1
                    &&& final(editor).cursor.horizon == m.2
                    &&& final(editor).cursor.x_offset == old(editor).cursor.x_offset
                    &&& final(editor).cursor.y_offset == old(editor).cursor.y_offset
                    &&& final(editor).cursor.stored_x == old(editor).cursor.stored_x
                }
            }),
            cursor_in_text(final(editor).text(), final(editor).cursor.x as int, final(editor).cursor.y as int),
            final(editor).file.path_of() == old(editor).file.path_of(),
            final(editor).screen == old(editor).screen,
            final(editor).status_bar == old(editor).status_bar,
            final(editor).input_mode == old(editor).input_mode,
            final(editor).text() != old(editor).text() ==> any_dirty(final(editor).file.lines@),
            clean_lines_saved(old(editor).file.lines@) ==> clean_lines_saved(final(editor).file.lines@),
    {
        if editor.cursor.x == 0 && editor.cursor.y == 0 {
            return;
        }
        let n = editor.file.lines.len();
        assert(editor.cursor.y < n);
        if editor.cursor.x == 0 {
            let cursor_y = editor.cursor.y;
            Normal::move_cursor(editor, MoveKey::ArrowLeft);
            editor.file.merge_lines(cursor_y, editor.cursor.y);
            proof {
                assert(editor.file.lines@[cursor_y - 1].dirty);
            }
            return;
        }
        Normal::move_cursor(editor, MoveKey::ArrowLeft);
        let ghost old_lines = editor.file.lines@;
        editor.file.lines[editor.cursor.y].remove(editor.cursor.x);
        proof {
            let y = old(editor).cursor.y as int;
            assert(editor.text() =~= backspaced(line_chars(old_lines), old(editor).cursor.x as int, y));
            if clean_lines_saved(old_lines) {
                clean_after_update(old_lines, editor.file.lines@, y);
            } else {
                assert(editor.file.lines@[y].dirty);
            }
        }
        return
    }
}

impl InputMode {
    /// Switches `editor` to this mode. Leaving the prompt takes back the column put aside;
    /// entering it puts the column aside, asks the clock what the status bar shows, and goes
    /// on with `Prompt::enter_prompt`. The program ends where the clock went back.
    pub fn set(self, editor: &mut Editor) -> (r: Result<(), DieReason>)
        ensures
            final(editor).file == old(editor).file,
            final(editor).screen == old(editor).screen,
            final(editor).status_bar == old(editor).status_bar,
            final(editor).cursor.y == old(editor).cursor.y,
            final(editor).cursor.x_offset == old(editor).cursor.x_offset,
            final(editor).cursor.y_offset == old(editor).cursor.y_offset,
            final(editor).cursor.horizon == old(editor).cursor.horizon,
            match self {
                InputMode::Normal(_) => {
                    &&& r is Ok
                    &&& final(editor).input_mode == self
                    &&& final(editor).cursor.x == x_after_restore(old(editor).cursor.stored_x, old(editor).cursor.x)
                    &&& final(editor).cursor.stored_x is None
                },
                InputMode::Prompt(_) => {
                    &&& final(editor).cursor.stored_x == stored_after_store(old(editor).cursor.stored_x, old(editor).cursor.x)
                    &&& r is Ok ==> final(editor).input_mode == self
                        && (final(editor).cursor.x == byte_width(old(editor).status_bar.full_text())
                            || final(editor).cursor.x == 0)
                },
            },
    {
        match self {
            InputMode::Normal(_) => {
                editor.cursor.restore_x();
                editor.input_mode = self;
                Ok(())
            },
            InputMode::Prompt(prompt) => {
                editor.cursor.store_x();
                let message = editor.message()?;
                prompt.enter_prompt(editor, message.as_str());
                Ok(())
            },
        }
    }
}

impl Prompt {
    /// Puts `editor` in this prompt, where the status bar shows `shown`: the cursor goes to
    /// the end of what is shown.
    pub fn enter_prompt(self, editor: &mut Editor, shown: &str)
        ensures
            final(editor).input_mode == InputMode::Prompt(self),
            final(editor).cursor.x == byte_width(shown@),
            final(editor).cursor.y == old(editor).cursor.y,
            final(editor).cursor.stored_x == old(editor).cursor.stored_x,
            final(editor).cursor.x_offset == old(editor).cursor.x_offset,
            final(editor).cursor.y_offset == old(editor).cursor.y_offset,
            final(editor).cursor.horizon == old(editor).cursor.horizon,
            final(editor).file == old(editor).file,
            final(editor).screen == old(editor).screen,
            final(editor).status_bar == old(editor).status_bar,
    {
        editor.cursor.x = shown.as_bytes().len();
        editor.input_mode = InputMode::Prompt(self);
    }
}

/// The column after moving right from `x` where the status bar shows `shown_width` bytes.
pub open spec fn stepped_right(x: int, shown_width: int) -> int {
    if x < shown_width { x + 1 } else { x }
}

/// Moves right from column `x`, where the status bar shows `shown_width` bytes: one column,
/// up to the end of what is shown.
pub fn step_right(x: usize, shown_width: usize) -> (r: usize)
    ensures
        r == stepped_right(x as int, shown_width as int),
{
    if x < shown_width { x + 1 } else { x }
}

/// The column after `key` on the prompt asking `inner`, from column `x`, at position `p` in
/// the prompt, with `end` the length of the text line under the cursor and `shown_width`
/// the bytes the status bar shows; only the prompt for a file name moves.
pub open spec fn prompt_moved(inner: InnerType, key: MoveKey, x: int, p: int, end: int, shown_width: int) -> int {
    if inner != InnerType::Save {
        x
    } else {
        match key {
            MoveKey::ArrowLeft => if p > 0 { x - 1 } else { x },
            MoveKey::ArrowRight => stepped_right(x, shown_width),
            MoveKey::Home => 0,
            MoveKey::End => end,
            _ => x,
        }
    }
}

/// What follows the name `name` given on the prompt for a file name, with `lines` the text
/// before and `after` the editor after, answering `r`: the text is saved under `name` from
/// now on; where a file stands there (`exists`), the status bar asks whether to write over
/// it; otherwise the text is saved (see `save_answer`).
pub open spec fn name_answer(lines: Seq<Line>, after: Editor, name: Seq<char>, exists: bool, r: Request) -> bool {
    &&& after.file.path_of() == Some(name)
    &&& if exists {
        &&& after.status_bar.msg@ == name + " already exists. overwrite? (y/n)"@
        &&& after.status_bar.prompt@.len() == 0
        &&& after.file.lines@ == lines
        &&& r is Nothing || r is Die
        &&& r is Nothing ==> after.input_mode == InputMode::Prompt(Prompt(InnerType::Overwrite))
    } else {
        &&& save_answer(lines, Some(name), after, r)
        &&& lines.len() > 0 ==> after.text() == line_chars(lines)
    }
}

impl Prompt {
    /// Leaves the prompt: back to editing, with the status bar emptied.
    pub fn quit(editor: &mut Editor)
        requires
            old(editor).wf(),
        ensures
            final(editor).screen == old(editor).screen,
            final(editor).wf(),
            final(editor).input_mode == InputMode::Normal(Normal),
            final(editor).file == old(editor).file,
            final(editor).cursor.y == old(editor).cursor.y,
            final(editor).cursor.x == x_after_restore(old(editor).cursor.stored_x, old(editor).cursor.x),
            final(editor).status_bar.msg@.len() == 0,
            final(editor).status_bar.prompt@.len() == 0,
    {
        let _ = editor.change_input_mode(InputMode::Normal(Normal));
        editor.status_bar.clear()
    }

    /// Moves the cursor along the prompt, where the status bar shows `shown_width` bytes;
    /// only the prompt for a file name moves.
    pub fn move_cursor_within(inner_type: InnerType, editor: &mut Editor, key: MoveKey, shown_width: usize)
        ensures
            final(editor).file == old(editor).file,
            final(editor).screen == old(editor).screen,
            final(editor).status_bar == old(editor).status_bar,
            final(editor).input_mode == old(editor).input_mode,
            final(editor).cursor.y == old(editor).cursor.y,
            final(editor).cursor.stored_x == old(editor).cursor.stored_x,
            final(editor).cursor.x_offset == old(editor).cursor.x_offset,
            final(editor).cursor.y_offset == old(editor).cursor.y_offset,
            final(editor).cursor.horizon == old(editor).cursor.horizon,
            final(editor).cursor.x == prompt_moved(inner_type, key, old(editor).cursor.x as int,
                old(editor).status_bar.position(old(editor).cursor.x),
                line_len(old(editor).text(), old(editor).cursor.y as int), shown_width as int),
    {
        match inner_type {
            InnerType::Save => {
                match key {
                    MoveKey::ArrowLeft => {
                        if editor.status_bar.prompt_index(editor.cursor.x) > 0 {
                            editor.cursor.x = editor.cursor.x - 1;
                        }
                    },
                    MoveKey::ArrowRight => {
                        editor.cursor.x = step_right(editor.cursor.x, shown_width);
                    },
                    MoveKey::Home => {
                        editor.cursor.x = 0
                    },
                    MoveKey::End => {
                        editor.cursor.x = editor.max_x()
                    },
                    MoveKey::ArrowUp => {},
                    MoveKey::ArrowDown => {},
                    MoveKey::PageUp => {},
                    MoveKey::PageDown => {},
                }
            },
            InnerType::Quit => {},
            InnerType::Overwrite => {},
        }
    }

    /// Moves the cursor along the prompt; only the prompt for a file name moves. Moving
    /// right stops at the end of what the status bar shows now, which depends on the clock;
    /// the program ends where the clock went back.
    pub fn move_cursor(inner_type: InnerType, editor: &mut Editor, key: MoveKey) -> (r: Request)
        ensures
            r is Nothing || r is Die,
            final(editor).file == old(editor).file,
            final(editor).screen == old(editor).screen,
            final(editor).status_bar == old(editor).status_bar,
            final(editor).input_mode == old(editor).input_mode,
            final(editor).cursor.y == old(editor).cursor.y,
            final(editor).cursor.stored_x == old(editor).cursor.stored_x,
            final(editor).cursor.x_offset == old(editor).cursor.x_offset,
            final(editor).cursor.y_offset == old(editor).cursor.y_offset,
            final(editor).cursor.horizon == old(editor).cursor.horizon,
            ({
                let x = old(editor).cursor.x as int;
                let p = old(editor).status_bar.position(old(editor).cursor.x);
                let end = line_len(old(editor).text(), old(editor).cursor.y as int);
                let full = byte_width(old(editor).status_bar.full_text()) as int;
                if inner_type == InnerType::Save && key == MoveKey::ArrowRight {
                    &&& final(editor).cursor.x == prompt_moved(inner_type, key, x, p, end, full)
                        || final(editor).cursor.x == prompt_moved(inner_type, key, x, p, end, 0)
                    &&& r is Die ==> *final(editor) == *old(editor)
                } else {
                    r is Nothing && final(editor).cursor.x == prompt_moved(inner_type, key, x, p, end, 0)
                }
            }),
    {
        match (inner_type, key) {
            (InnerType::Save, MoveKey::ArrowRight) => {
                match editor.message() {
                    Ok(message) => {
                        Prompt::move_cursor_within(inner_type, editor, key, message.as_str().as_bytes().len());
                        Request::Nothing
                    },
                    Err(reason) => Request::Die(reason),
                }
            },
            _ => {
                Prompt::move_cursor_within(inner_type, editor, key, 0);
                Request::Nothing
            },
        }
    }

    /// What follows the name `name` of the file to save, once it is known whether a file
    /// stands there (`exists`): where one does, the question whether to write over it; where
    /// none does, the save. The program ends where the clock went back.
    pub fn after_name(editor: &mut Editor, name: String, exists: bool) -> (r: Request)
        requires
            old(editor).wf(),
            old(editor).file.path_of() == Some(name@),
        ensures
            final(editor).screen == old(editor).screen,
            !(r is Die) ==> final(editor).wf(),
            name_answer(old(editor).file.lines@, *final(editor), name@, exists, r),
    {
        if exists {
            let mut msg = name.clone();
            msg.append(" already exists. overwrite? (y/n)");
            editor.status_bar.set_message(msg);
            match editor.change_input_mode(InputMode::Prompt(Prompt(InnerType::Overwrite))) {
                Ok(()) => Request::Nothing,
                Err(reason) => Request::Die(reason),
            }
        } else {
            let ghost before = editor.file.lines@;
            let r = editor.save();
            proof {
                if before.len() > 0 {
                    assert(editor.text() == line_chars(before));
                }
            }
            r
        }
    }

    /// Enter on the prompt: for a file name, takes the name, saves under it from now on, and
    /// goes on with `after_name`, told whether a file stands there (which depends on the
    /// disk).
    pub fn enter_pressed(inner_type: InnerType, editor: &mut Editor) -> (r: Request)
        requires
            old(editor).wf(),
        ensures
            final(editor).screen == old(editor).screen,
            !(r is Die) ==> final(editor).wf(),
            inner_type != InnerType::Save ==> r is Nothing && *final(editor) == *old(editor),
            inner_type == InnerType::Save ==> {
                ||| name_answer(old(editor).file.lines@, *final(editor), old(editor).status_bar.prompt@, true, r)
                ||| name_answer(old(editor).file.lines@, *final(editor), old(editor).status_bar.prompt@, false, r)
            },
            inner_type == InnerType::Save && old(editor).status_bar.prompt@.len() == 0
                ==> name_answer(old(editor).file.lines@, *final(editor), old(editor).status_bar.prompt@, false, r),
    {
        match inner_type {
            InnerType::Save => {
                let file_name = editor.status_bar.take_prompt();
                editor.file.set_name(file_name.as_str());
                let exists = crate::paths::is_file(file_name.as_str());
                Prompt::after_name(editor, file_name, exists)
            },
            InnerType::Quit => Request::Nothing,
            InnerType::Overwrite => Request::Nothing,
        }
    }

    /// Delete on the prompt: takes out the character under the cursor.
    pub fn delete_pressed(editor: &mut Editor)
        ensures
            final(editor).screen == old(editor).screen,
            final(editor).file == old(editor).file,
            final(editor).cursor == old(editor).cursor,
            final(editor).input_mode == old(editor).input_mode,
            final(editor).status_bar.msg == old(editor).status_bar.msg,
            ({
                let p = old(editor).status_bar.position(old(editor).cursor.x);
                let prompt = old(editor).status_bar.prompt@;
                if 0 < prompt.len() && p < prompt.len() {
                    final(editor).status_bar.prompt@ == prompt.remove(p)
                } else {
                    final(editor).status_bar.prompt@ == prompt
                }
            }),
    {
        let _ = editor.status_bar.prompt_delete(editor.cursor.x);
    }

    /// Backspace on the prompt: takes out the character before the cursor and moves back.
    pub fn backspace_pressed(inner_type: InnerType, editor: &mut Editor) -> (r: Request)
        requires
            old(editor).status_bar.prompt@.len() > 0 ==> old(editor).status_bar.position(old(editor).cursor.x)
                <= old(editor).status_bar.prompt@.len(),
        ensures
            final(editor).screen == old(editor).screen,
            r is Nothing,
            final(editor).file == old(editor).file,
            final(editor).input_mode == old(editor).input_mode,
            final(editor).cursor.y == old(editor).cursor.y,
            final(editor).cursor.stored_x == old(editor).cursor.stored_x,
            final(editor).status_bar.msg == old(editor).status_bar.msg,
            ({
                let x = old(editor).cursor.x;
                let p = old(editor).status_bar.position(x);
                let prompt = old(editor).status_bar.prompt@;
                if 0 < prompt.len() && p > 0 {
                    &&& final(editor).status_bar.prompt@ == prompt.remove(p - 1)
                    &&& final(editor).cursor.x == (if inner_type == InnerType::Save { x - 1 } else { x as int })
                } else {
                    &&& final(editor).status_bar.prompt@ == prompt
                    &&& final(editor).cursor.x == x
                }
            }),
    {
        if editor.status_bar.prompt_backspace(editor.cursor.x).is_some() {
            Prompt::move_cursor(inner_type, editor, MoveKey::ArrowLeft)
        } else {
            Request::Nothing
        }
    }

    /// A character on the prompt: for a file name it is typed in (a tab is not); asked
    /// whether to quit or to write over a file, `y` and `n` answer.
    pub fn write(inner_type: InnerType, editor: &mut Editor, c: char) -> (r: Request)
        requires
            old(editor).wf(),
            old(editor).input_mode == InputMode::Prompt(Prompt(inner_type)),
            inner_type == InnerType::Save && c != '\t' ==> old(editor).status_bar.position(old(editor).cursor.x)
                <= old(editor).status_bar.prompt@.len(),
        ensures
            final(editor).screen == old(editor).screen,
            !(r is Die) ==> final(editor).wf(),
            c == '\t' ==> r is Nothing && *final(editor) == *old(editor),
            c != '\t' && inner_type == InnerType::Save ==> (r is Nothing || r is Die)
                && final(editor).file == old(editor).file
                && final(editor).input_mode == old(editor).input_mode
                && final(editor).status_bar.prompt@
                    == old(editor).status_bar.prompt@.insert(old(editor).status_bar.position(old(editor).cursor.x), c)
                && final(editor).status_bar.msg == old(editor).status_bar.msg
                && (final(editor).cursor.x == stepped_right(old(editor).cursor.x as int,
                        byte_width(final(editor).status_bar.full_text()) as int)
                    || final(editor).cursor.x == old(editor).cursor.x)
                && (r is Die ==> final(editor).cursor.x == old(editor).cursor.x),
            inner_type == InnerType::Quit ==> {
                &&& (c == 'y' || c == 'Y') ==> r is Quit
                &&& (c == 'n' || c == 'N') ==> r is Nothing && final(editor).input_mode == InputMode::Normal(Normal)
                    && final(editor).file == old(editor).file
                    && final(editor).status_bar.msg@.len() == 0 && final(editor).status_bar.prompt@.len() == 0
                &&& !(c == 'y' || c == 'Y' || c == 'n' || c == 'N') ==> r is Nothing && *final(editor) == *old(editor)
            },
            inner_type == InnerType::Overwrite ==> {
                &&& (c == 'y' || c == 'Y') ==> save_answer(old(editor).file.lines@, old(editor).file.path_of(), *final(editor), r)
                    && final(editor).file.path_of() == old(editor).file.path_of()
                    && (old(editor).text().len() > 0 ==> final(editor).text() == old(editor).text())
                &&& (c == 'n' || c == 'N') ==> r is Nothing && final(editor).input_mode == InputMode::Normal(Normal)
                    && final(editor).file.path_of() is None && final(editor).file.lines == old(editor).file.lines
                    && final(editor).status_bar.msg@.len() == 0 && final(editor).status_bar.prompt@.len() == 0
                &&& !(c == 'y' || c == 'Y' || c == 'n' || c == 'N') ==> r is Nothing && *final(editor) == *old(editor)
            },
    {
        if c == '\t' {
            return Request::Nothing;
        }
        match inner_type {
            InnerType::Save => {
                editor.status_bar.prompt_insert(c, editor.cursor.x);
                Prompt::move_cursor(inner_type, editor, MoveKey::ArrowRight)
            },
            InnerType::Quit => {
                if c == 'y' || c == 'Y' {
                    return Request::Quit;
                }
                if c == 'n' || c == 'N' {
                    Prompt::quit(editor)
                }
                Request::Nothing
            },
            InnerType::Overwrite => {
                if c == 'y' || c == 'Y' {
                    return editor.save();
                }
                if c == 'n' || c == 'N' {
                    editor.file.clear_path();
                    Prompt::quit(editor)
                }
                Request::Nothing
            },
        }
    }
}

/// The first row (or column) shown once the screen, showing from `offset` on and `size`
/// wide, follows the cursor to `pos`.
pub open spec fn scrolled(offset: int, pos: int, size: int) -> int {
    let first = if pos < offset { pos } else { offset };
    if pos >= first + size { pos - size + 1 } else { first }
}

/// After scrolling, the cursor is on screen, wherever it was.
pub proof fn scrolling_shows_cursor(offset: int, pos: int, size: int)
    requires
        size > 0,
    ensures
        scrolled(offset, pos, size) <= pos < scrolled(offset, pos, size) + size,
{
}

impl Normal {
    /// Moves the part of the text on screen so that the cursor is on it.
    pub fn scroll(editor: &mut Editor)
        requires
            cursor_in_text(old(editor).text(), old(editor).cursor.x as int, old(editor).cursor.y as int),
            render_x(old(editor).text(), old(editor).cursor.x as int, old(editor).cursor.y as int) <= usize::MAX,
            old(editor).cursor.x_offset + old(editor).screen.cols <= usize::MAX,
            old(editor).cursor.y_offset + old(editor).screen.rows <= usize::MAX,
            render_x(old(editor).text(), old(editor).cursor.x as int, old(editor).cursor.y as int)
                < usize::MAX + old(editor).screen.cols,
            old(editor).cursor.y < usize::MAX + old(editor).screen.rows,
        ensures
            final(editor).cursor.y_offset == scrolled(old(editor).cursor.y_offset as int,
                old(editor).cursor.y as int, old(editor).screen.rows as int),
            final(editor).cursor.x_offset == scrolled(old(editor).cursor.x_offset as int,
                render_x(old(editor).text(), old(editor).cursor.x as int, old(editor).cursor.y as int),
                old(editor).screen.cols as int),
            final(editor).cursor.x == old(editor).cursor.x,
            final(editor).cursor.y == old(editor).cursor.y,
            final(editor).cursor.horizon == old(editor).cursor.horizon,
            final(editor).cursor.stored_x == old(editor).cursor.stored_x,
            final(editor).file == old(editor).file,
            final(editor).screen == old(editor).screen,
            final(editor).status_bar == old(editor).status_bar,
            final(editor).input_mode == old(editor).input_mode,
    {
        let x_render = editor.x_render();
        if editor.cursor.y < editor.cursor.y_offset {
            editor.cursor.y_offset = editor.cursor.y
        }
        if editor.cursor.y >= editor.cursor.y_offset + editor.screen.rows() {
            editor.cursor.y_offset = editor.cursor.y - editor.screen.rows() + 1;
        }
        if x_render < editor.cursor.x_offset {
            editor.cursor.x_offset = x_render
        }
        if x_render >= editor.cursor.x_offset + editor.screen.cols() {
            editor.cursor.x_offset = x_render - editor.screen.cols() + 1;
        }
    }
}

impl InputMode {
    /// Follows the cursor with the screen while editing; the prompt does not scroll.
    pub fn scroll(self, editor: &mut Editor)
        requires
            self is Normal ==> {
                &&& cursor_in_text(old(editor).text(), old(editor).cursor.x as int, old(editor).cursor.y as int)
                &&& render_x(old(editor).text(), old(editor).cursor.x as int, old(editor).cursor.y as int) <= usize::MAX
                &&& old(editor).cursor.x_offset + old(editor).screen.cols <= usize::MAX
                &&& old(editor).cursor.y_offset + old(editor).screen.rows <= usize::MAX
                &&& render_x(old(editor).text(), old(editor).cursor.x as int, old(editor).cursor.y as int)
                    < usize::MAX + old(editor).screen.cols
                &&& old(editor).cursor.y < usize::MAX + old(editor).screen.rows
            },
        ensures
            self is Prompt ==> *final(editor) == *old(editor),
            self is Normal ==> {
                &&& final(editor).cursor.y_offset == scrolled(old(editor).cursor.y_offset as int,
                    old(editor).cursor.y as int, old(editor).screen.rows as int)
                &&& final(editor).cursor.x_offset == scrolled(old(editor).cursor.x_offset as int,
                    render_x(old(editor).text(), old(editor).cursor.x as int, old(editor).cursor.y as int),
                    old(editor).screen.cols as int)
                &&& final(editor).cursor.x == old(editor).cursor.x
                &&& final(editor).cursor.y == old(editor).cursor.y
                &&& final(editor).cursor.horizon == old(editor).cursor.horizon
                &&& final(editor).cursor.stored_x == old(editor).cursor.stored_x
                &&& final(editor).file == old(editor).file
                &&& final(editor).screen == old(editor).screen
                &&& final(editor).status_bar == old(editor).status_bar
                &&& final(editor).input_mode == old(editor).input_mode
            },
    {
        match self {
            InputMode::Normal(_) => Normal::scroll(editor),
            InputMode::Prompt(_) => {},
        }
    }

    /// Where the terminal's cursor goes, counted from one: on the text while editing, on the
    /// status bar below the text rows and the info bar while prompting.
    pub fn cursor_position(self, editor: &Editor) -> (r: (usize, usize))
        requires
            self is Normal ==> {
                &&& cursor_in_text(editor.text(), editor.cursor.x as int, editor.cursor.y as int)
                &&& render_x(editor.text(), editor.cursor.x as int, editor.cursor.y as int) <= usize::MAX
                &&& editor.cursor.x_offset <= render_x(editor.text(), editor.cursor.x as int, editor.cursor.y as int)
                &&& render_x(editor.text(), editor.cursor.x as int, editor.cursor.y as int) - editor.cursor.x_offset < usize::MAX
                &&& editor.cursor.y_offset <= editor.cursor.y
                &&& editor.cursor.y - editor.cursor.y_offset < usize::MAX
            },
            self is Prompt ==> editor.cursor.x < usize::MAX && editor.screen.rows + 2 <= usize::MAX,
        ensures
            self is Normal ==> r.0 == render_x(editor.text(), editor.cursor.x as int, editor.cursor.y as int)
                - editor.cursor.x_offset + 1 && r.1 == editor.cursor.y - editor.cursor.y_offset + 1,
            self is Prompt ==> r.0 == editor.cursor.x + 1 && r.1 == editor.screen.rows + 2,
    {
        match self {
            InputMode::Normal(_) => {
                let x = editor.x_render() - editor.cursor.x_offset + 1;
                let y = editor.cursor.y - editor.cursor.y_offset + 1;
                (x, y)
            },
            InputMode::Prompt(_) => {
                let x = editor.cursor.x + 1;
                let y = editor.screen.rows() + 2;
                (x, y)
            },
        }
    }
}

/// Whether the key `key` in the mode of `e` can be handled without a panic: the cursor must
/// stay within a machine word, and the prompt's cursor must lie within the prompt where a
/// character goes in or out there.
pub open spec fn key_fits(e: Editor, key: Key) -> bool {
    match e.input_mode {
        InputMode::Normal(_) => key == Key::Move(MoveKey::PageDown) ==> e.cursor.y + e.screen.rows <= usize::MAX,
        InputMode::Prompt(Prompt(inner)) => match key {
            Key::Char(b) => inner == InnerType::Save && b != 9 ==> e.status_bar.position(e.cursor.x)
                <= e.status_bar.prompt@.len(),
            Key::BackSpace => e.status_bar.prompt@.len() > 0 ==> e.status_bar.position(e.cursor.x)
                <= e.status_bar.prompt@.len(),
            _ => true,
        },
    }
}

/// What a key does while editing, from `before` to `after`, answering `r`.
pub open spec fn edited(before: Editor, after: Editor, key: Key, r: Request) -> bool {
    let text = before.text();
    let x = before.cursor.x as int;
    let y = before.cursor.y as int;
    let h = before.cursor.horizon as int;
    let rows = before.screen.rows as int;
    let unchanged_around = after.file.path_of() == before.file.path_of()
        && after.status_bar == before.status_bar
        && after.input_mode == before.input_mode
        && after.cursor.x_offset == before.cursor.x_offset
        && after.cursor.y_offset == before.cursor.y_offset;
    match key {
        Key::Move(k) => {
            let m = moved(text, rows, x, y, h, k);
            &&& r is Nothing
            &&& after.file == before.file
            &&& unchanged_around
            &&& after.cursor.stored_x == before.cursor.stored_x
            &&& after.cursor.x == m.0 && after.cursor.y == m.1 && after.cursor.horizon == m.2
        },
        Key::Char(b) => {
            &&& r is Nothing
            &&& unchanged_around
            &&& after.text() == typed(text, x, y, b as char)
            &&& after.cursor.x == x + 1 && after.cursor.y == y && after.cursor.horizon == x + 1
            &&& any_dirty(after.file.lines@)
        },
        Key::Enter => {
            &&& r is Nothing
            &&& unchanged_around
            &&& after.text() == split_text(text, y, x)
            &&& after.cursor.x == 0 && after.cursor.y == y + 1 && after.cursor.horizon == 0
            &&& any_dirty(after.file.lines@)
        },
        Key::Delete => {
            &&& r is Nothing
            &&& unchanged_around
            &&& after.text() == deleted(text, x, y)
            &&& after.cursor == before.cursor
            &&& after.text() != text ==> any_dirty(after.file.lines@)
        },
        Key::BackSpace => {
            let m = moved(text, rows, x, y, h, MoveKey::ArrowLeft);
            &&& r is Nothing
            &&& unchanged_around
            &&& after.text() == backspaced(text, x, y)
            &&& after.text() != text ==> any_dirty(after.file.lines@)
            &&& (x == 0 && y == 0 ==> after.cursor == before.cursor)
            &&& (!(x == 0 && y == 0) ==> after.cursor.x == m.0 && after.cursor.y == m.1
                && after.cursor.horizon == m.2)
        },
        Key::Quit => {
            &&& after.file == before.file
            &&& !any_dirty(before.file.lines@) ==> r is Quit && after == before
            &&& any_dirty(before.file.lines@) ==> (r is Nothing || r is Die)
                && after.status_bar.msg@ == "there are some unsaved changes. are you sure? (y/n)"@
                && (r is Nothing ==> after.input_mode == InputMode::Prompt(Prompt(InnerType::Quit)))
        },
        Key::Save => {
            &&& after.file.path_of() == before.file.path_of()
            &&& save_answer(before.file.lines@, before.file.path_of(), after, r)
            &&& text.len() > 0 ==> after.text() == text
        },
        _ => r is Nothing && after == before,
    }
}

/// What a key does on the prompt asking `inner`, from `before` to `after`, answering `r`.
pub open spec fn prompted(before: Editor, after: Editor, inner: InnerType, key: Key, r: Request) -> bool {
    let prompt = before.status_bar.prompt@;
    let p = before.status_bar.position(before.cursor.x);
    match key {
        Key::Quit => {
            &&& r is Nothing
            &&& after.input_mode == InputMode::Normal(Normal)
            &&& after.file == before.file
            &&& after.status_bar.msg@.len() == 0 && after.status_bar.prompt@.len() == 0
        },
        Key::Char(b) => {
            let c = b as char;
            &&& c == '\t' ==> r is Nothing && after.file == before.file && after.status_bar.prompt == before.status_bar.prompt
            &&& c != '\t' && inner == InnerType::Save ==> (r is Nothing || r is Die) && after.file == before.file
                && after.status_bar.prompt@ == prompt.insert(p, c)
                && (after.cursor.x == stepped_right(before.cursor.x as int, byte_width(after.status_bar.full_text()) as int)
                    || after.cursor.x == before.cursor.x)
            &&& inner == InnerType::Quit && (c == 'y' || c == 'Y') ==> r is Quit
            &&& inner == InnerType::Quit && (c == 'n' || c == 'N') ==> r is Nothing
                && after.input_mode == InputMode::Normal(Normal) && after.file == before.file
                && after.status_bar.msg@.len() == 0 && after.status_bar.prompt@.len() == 0
            &&& inner == InnerType::Overwrite && (c == 'y' || c == 'Y') ==>
                save_answer(before.file.lines@, before.file.path_of(), after, r)
                && after.file.path_of() == before.file.path_of()
                && (before.text().len() > 0 ==> after.text() == before.text())
            &&& inner == InnerType::Overwrite && (c == 'n' || c == 'N') ==> r is Nothing
                && after.input_mode == InputMode::Normal(Normal) && after.file.path_of() is None
                && after.file.lines == before.file.lines
                && after.status_bar.msg@.len() == 0 && after.status_bar.prompt@.len() == 0
        },
        Key::BackSpace => {
            &&& r is Nothing
            &&& after.file == before.file
            &&& 0 < prompt.len() && p > 0 ==> after.status_bar.prompt@ == prompt.remove(p - 1)
            &&& !(0 < prompt.len() && p > 0) ==> after.status_bar.prompt@ == prompt
        },
        Key::Delete => {
            &&& r is Nothing
            &&& after.file == before.file
            &&& 0 < prompt.len() && p < prompt.len() ==> after.status_bar.prompt@ == prompt.remove(p)
            &&& !(0 < prompt.len() && p < prompt.len()) ==> after.status_bar.prompt@ == prompt
        },
        Key::Enter => {
            &&& inner == InnerType::Save ==> name_answer(before.file.lines@, after, prompt, true, r)
                || name_answer(before.file.lines@, after, prompt, false, r)
            &&& inner == InnerType::Save && prompt.len() == 0 ==> name_answer(before.file.lines@, after, prompt, false, r)
            &&& inner != InnerType::Save ==> r is Nothing && after.file == before.file
        },
        Key::Move(k) => {
            let x = before.cursor.x;
            let x2 = after.cursor.x;
            let end = line_len(before.text(), before.cursor.y as int);
            &&& r is Nothing || r is Die
            &&& after.file == before.file
            &&& after.input_mode == before.input_mode
            &&& after.status_bar.msg == before.status_bar.msg
            &&& after.status_bar.prompt == before.status_bar.prompt
            &&& after.cursor.y == before.cursor.y
            &&& after.cursor.stored_x == before.cursor.stored_x
            &&& inner == InnerType::Save && k == MoveKey::ArrowRight ==>
                x2 == prompt_moved(inner, k, x as int, p, end, byte_width(before.status_bar.full_text()) as int)
                || x2 == prompt_moved(inner, k, x as int, p, end, 0)
            &&& !(inner == InnerType::Save && k == MoveKey::ArrowRight) ==> x2 == prompt_moved(inner, k, x as int, p, end, 0)
        },
        _ => {
            &&& r is Nothing
            &&& after.file == before.file
            &&& after.input_mode == before.input_mode
            &&& after.cursor == before.cursor
            &&& after.status_bar.msg == before.status_bar.msg
            &&& after.status_bar.prompt == before.status_bar.prompt
        },
    }
}

/// What a key does to the editor `before`, giving `after` and answering `r`.
pub open spec fn key_handled(before: Editor, after: Editor, key: Key, r: Request) -> bool {
    &&& !(r is Die) ==> after.wf()
    &&& after.screen == before.screen
    &&& match before.input_mode {
        InputMode::Normal(_) => edited(before, after, key, r),
        InputMode::Prompt(Prompt(inner)) => prompted(before, after, inner, key, r),
    }
}

impl InputMode {
    /// Answers the key `input` in this mode.
    pub fn process_keypress(self, editor: &mut Editor, input: Key) -> (r: Request)
        requires
            old(editor).wf(),
            old(editor).input_mode == self,
            key_fits(*old(editor), input),
        ensures
            key_handled(*old(editor), *final(editor), input, r),
    {
        match self {
            InputMode::Normal(_) => {
                let n = editor.file.lines.len();
                assert(editor.cursor.y < usize::MAX);
                match input {
                    Key::Move(key) => {
                        Normal::move_cursor(editor, key);
                        Request::Nothing
                    },
                    Key::Quit => editor.quit(),
                    Key::Save => editor.save(),
                    Key::Enter => {
                        Normal::enter_pressed(editor);
                        Request::Nothing
                    },
                    Key::Delete => {
                        Normal::delete_pressed(editor);
                        Request::Nothing
                    },
                    Key::BackSpace => {
                        Normal::backspace_pressed(editor);
                        Request::Nothing
                    },
                    Key::Char(c) => {
                        Normal::write(editor, c as char);
                        Request::Nothing
                    },
                    _ => Request::Nothing,
                }
            },
            InputMode::Prompt(Prompt(inner_type)) => {
                let r = match input {
                    Key::Move(key) => Prompt::move_cursor(inner_type, editor, key),
                    Key::Quit => {
                        Prompt::quit(editor);
                        Request::Nothing
                    },
                    Key::Save => Request::Nothing,
                    Key::Enter => Prompt::enter_pressed(inner_type, editor),
                    Key::Delete => {
                        Prompt::delete_pressed(editor);
                        Request::Nothing
                    },
                    Key::BackSpace => Prompt::backspace_pressed(inner_type, editor),
                    Key::Char(c) => Prompt::write(inner_type, editor, c as char),
                    _ => Request::Nothing,
                };
                match r {
                    Request::Quit => r,
                    Request::Die(_) => r,
                    _ => {
                        editor.status_bar.set_init();
                        r
                    },
                }
            },
        }
    }
}

/// Typing a character and then pressing backspace gives back the text and the cursor's
/// place, in a text that has lines.
pub proof fn backspace_undoes_typing(text: Seq<Seq<char>>, rows: int, x: int, y: int, c: char)
    requires
        cursor_in_text(text, x, y),
        text.len() > 0,
    ensures
        backspaced(typed(text, x, y, c), x + 1, y) == text,
        moved(typed(text, x, y, c), rows, x + 1, y, x + 1, MoveKey::ArrowLeft) == (x, y, x),
{
    let t = typed(text, x, y, c);
    assert(t[y].remove(x) =~= text[y]);
    assert(t.update(y, t[y].remove(x)) =~= text);
}

/// Pressing enter and then backspace gives back the text and the cursor's place, in a text
/// that has lines.
pub proof fn backspace_undoes_enter(text: Seq<Seq<char>>, rows: int, x: int, y: int)
    requires
        cursor_in_text(text, x, y),
        text.len() > 0,
    ensures
        backspaced(split_text(text, y, x), 0, y + 1) == text,
        moved(split_text(text, y, x), rows, 0, y + 1, 0, MoveKey::ArrowLeft) == (x, y, x),
{
    merge_undoes_split(text, y, x);
    let t = split_text(text, y, x);
    assert(t[y] == text[y].take(x));
}

/// Delete inside a line takes out exactly the character under the cursor: the line loses
/// its character at column `x`, and the other lines stay as they were.
pub proof fn delete_takes_the_character_under_the_cursor(text: Seq<Seq<char>>, x: int, y: int)
    requires
        0 <= y < text.len(),
        0 <= x < text[y].len(),
    ensures
        deleted(text, x, y).len() == text.len(),
        deleted(text, x, y)[y] == text[y].take(x) + text[y].skip(x + 1),
        deleted(text, x, y)[y].len() == text[y].len() - 1,
        forall|i: int| 0 <= i < text.len() && i != y ==> #[trigger] deleted(text, x, y)[i] == text[i],
{
    assert(text[y].remove(x) =~= text[y].take(x) + text[y].skip(x + 1));
}

/// Delete at the end of a line that has a line after it joins that line to it; at the end
/// of the last line it changes nothing.
pub proof fn delete_at_line_end_joins_the_next_line(text: Seq<Seq<char>>, y: int)
    requires
        0 <= y < text.len(),
    ensures
        y + 1 == text.len() ==> deleted(text, text[y].len() as int, y) == text,
        y + 1 < text.len() ==> {
            &&& deleted(text, text[y].len() as int, y).len() == text.len() - 1
            &&& deleted(text, text[y].len() as int, y)[y] == text[y] + text[y + 1]
            &&& forall|i: int| 0 <= i < y ==> #[trigger] deleted(text, text[y].len() as int, y)[i] == text[i]
            &&& forall|i: int| y < i < text.len() - 1 ==> #[trigger] deleted(text, text[y].len() as int, y)[i] == text[i + 1]
        },
{
}

/// Typing a character, moving left over it and pressing delete gives the text back, in a
/// text that has lines.
pub proof fn delete_undoes_typing(text: Seq<Seq<char>>, rows: int, x: int, y: int, c: char)
    requires
        cursor_in_text(text, x, y),
        text.len() > 0,
    ensures
        moved(typed(text, x, y, c), rows, x + 1, y, x + 1, MoveKey::ArrowLeft) == (x, y, x),
        deleted(typed(text, x, y, c), x, y) == text,
{
    let t = typed(text, x, y, c);
    assert(t[y].remove(x) =~= text[y]);
    assert(t.update(y, t[y].remove(x)) =~= text);
}

/// Typing puts the character at the cursor: the line gains it at column `x`, and the other
/// lines stay as they were.
pub proof fn typing_inserts_at_the_cursor(text: Seq<Seq<char>>, x: int, y: int, c: char)
    requires
        0 <= y < text.len(),
        0 <= x <= text[y].len(),
    ensures
        typed(text, x, y, c).len() == text.len(),
        typed(text, x, y, c)[y] == text[y].take(x) + seq![c] + text[y].skip(x),
        forall|i: int| 0 <= i < text.len() && i != y ==> #[trigger] typed(text, x, y, c)[i] == text[i],
{
    assert(text[y].insert(x, c) =~= text[y].take(x) + seq![c] + text[y].skip(x));
}

/// Backspace inside a line takes out exactly the character before the cursor; at the start
/// of a line the line joins the one before; at the start of the text nothing changes.
pub proof fn backspace_takes_the_character_before_the_cursor(text: Seq<Seq<char>>, x: int, y: int)
    requires
        0 <= y < text.len(),
        0 <= x <= text[y].len(),
    ensures
        x == 0 && y == 0 ==> backspaced(text, x, y) == text,
        x > 0 ==> backspaced(text, x, y).len() == text.len()
            && backspaced(text, x, y)[y] == text[y].take(x - 1) + text[y].skip(x)
            && forall|i: int| 0 <= i < text.len() && i != y ==> #[trigger] backspaced(text, x, y)[i] == text[i],
        x == 0 && y > 0 ==> backspaced(text, x, y).len() == text.len() - 1
            && backspaced(text, x, y)[y - 1] == text[y - 1] + text[y]
            && (forall|i: int| 0 <= i < y - 1 ==> #[trigger] backspaced(text, x, y)[i] == text[i])
            && forall|i: int| y <= i < text.len() - 1 ==> #[trigger] backspaced(text, x, y)[i] == text[i + 1],
{
    if x > 0 {
        assert(text[y].remove(x - 1) =~= text[y].take(x - 1) + text[y].skip(x));
    }
}

/// Moving up or down a line or a page keeps to the remembered column: the column is the
/// remembered one, or the end of the new line where that is shorter, and the remembered
/// column stays.
pub proof fn vertical_moves_keep_to_the_column(text: Seq<Seq<char>>, rows: int, x: int, y: int, h: int, key: MoveKey)
    requires
        key == MoveKey::ArrowUp || key == MoveKey::ArrowDown || key == MoveKey::PageUp || key == MoveKey::PageDown,
    ensures
        ({
            let m = moved(text, rows, x, y, h, key);
            let end = line_len(text, m.1);
            &&& m.2 == h
            &&& m.0 == (if h <= end { h } else { end })
        }),
{
}

/// Where the vertical moves go: up and down by one line, a page up and down by the rows on
/// screen, none of them past the first or the last line.
pub proof fn vertical_moves_go_to_their_line(text: Seq<Seq<char>>, rows: int, x: int, y: int, h: int)
    requires
        rows >= 0,
        0 <= y < text.len(),
    ensures
        moved(text, rows, x, y, h, MoveKey::ArrowUp).1 == (if y > 0 { y - 1 } else { 0 }),
        moved(text, rows, x, y, h, MoveKey::ArrowDown).1 == (if y + 1 < text.len() { y + 1 } else { y }),
        moved(text, rows, x, y, h, MoveKey::PageUp).1 == (if y >= rows { y - rows } else { 0 }),
        moved(text, rows, x, y, h, MoveKey::PageDown).1
            == (if y + rows < text.len() { y + rows } else { text.len() - 1 }),
{
}

/// Moving along a line sets the remembered column to the new column: left and right by one
/// character, across the line's start or end onto the line before or after, Home to the
/// start and End to the end of the line.
pub proof fn horizontal_moves_set_the_column(text: Seq<Seq<char>>, rows: int, x: int, y: int, h: int)
    requires
        0 <= y < text.len(),
        0 <= x <= text[y].len(),
    ensures
        moved(text, rows, x, y, h, MoveKey::Home) == (0int, y, 0int),
        moved(text, rows, x, y, h, MoveKey::End) == (text[y].len() as int, y, text[y].len() as int),
        x > 0 ==> moved(text, rows, x, y, h, MoveKey::ArrowLeft) == (x - 1, y, x - 1),
        x == 0 && y > 0 ==> moved(text, rows, x, y, h, MoveKey::ArrowLeft)
            == (text[y - 1].len() as int, y - 1, text[y - 1].len() as int),
        x < text[y].len() ==> moved(text, rows, x, y, h, MoveKey::ArrowRight) == (x + 1, y, x + 1),
        x == text[y].len() && y + 1 < text.len() ==> moved(text, rows, x, y, h, MoveKey::ArrowRight) == (0int, y + 1, 0int),
{
}
} // verus!
