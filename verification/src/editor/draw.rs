//! What the editor writes to the terminal to show itself: the text rows, the info bar, the
//! status bar and the cursor, as bytes with the terminal's escape sequences.
use vstd::prelude::*;
use vstd::utf8::{encode_utf8, is_continuation_byte};
use crate::editor::{Editor, render_x};
use crate::common::DieReason;
use crate::editor::input_mode::{cursor_in_text, scrolled, scrolling_shows_cursor};
use crate::editor::input_mode::InputMode;
use crate::editor::file::{expand_tabs, expand_tabs_push, expand_tabs_take_monotone, TAB_STOP};
use crate::text::{chars_to_string, decimal, space_bytes, push_all, push_chars, push_decimal, push_spaces};
use crate::paths::path_file_name;

verus! {

/// Erases the rest of the line.
pub open spec fn clear_line() -> Seq<u8> {
    seq![0x1bu8, 0x5bu8, 0x4bu8]
}

/// Carriage return and line feed.
pub open spec fn crlf() -> Seq<u8> {
    seq![13u8, 10u8]
}

/// The greeting shown on an empty text.
pub open spec fn welcome_bytes() -> Seq<u8> {
    encode_utf8("kilo editor written in rust -- version 0.0.1"@)
}

/// The part of a rendered line shown from column `start` on a screen `cols` wide.
pub open spec fn shown_part(render: Seq<char>, start: int, cols: int) -> Seq<u8> {
    if start < render.len() {
        let end = if render.len() <= start + cols { render.len() as int } else { start + cols };
        encode_utf8(render.subrange(start, end))
    } else {
        seq![]
    }
}

/// The row `screen_row` of the text area of `e`: a line of the text, a tilde past the end of
/// a text shorter than the screen (with the greeting a third of the way down an empty
/// text), or nothing; then the rest of the row erased.
pub open spec fn row_text(e: Editor, screen_row: int) -> Seq<u8> {
    let lines = e.file.lines@;
    let rows = e.screen.rows as int;
    let cols = e.screen.cols as int;
    let file_row = e.cursor.y_offset + screen_row;
    let body = if file_row < lines.len() {
        shown_part(lines[file_row].render@, e.cursor.x_offset as int, cols)
    } else if lines.len() < rows {
        seq![0x7eu8] + if lines.len() == 0 && screen_row == rows / 3 {
            let wl = if welcome_bytes().len() <= cols { welcome_bytes().len() as int } else { cols };
            space_bytes(((cols - 1 - wl) / 2) as nat) + welcome_bytes().take(wl)
        } else {
            seq![]
        }
    } else {
        seq![]
    };
    body + clear_line() + crlf()
}

/// The first `n` rows of the text area of `e`.
pub open spec fn rows_text(e: Editor, n: int) -> Seq<u8>
    decreases n,
{
    if n <= 0 {
        seq![]
    } else {
        rows_text(e, n - 1) + row_text(e, n - 1)
    }
}

/// Whether the greeting fits where it is shown: the layout leaves it no room on a
/// screen no wider than the greeting.
pub open spec fn welcome_fits(e: Editor) -> bool {
    e.file.lines@.len() == 0 && e.screen.rows > 0 ==> e.screen.cols > welcome_bytes().len()
}

impl Editor {
    /// The text area, row by row.
    pub fn draw_rows(&self) -> (r: Vec<u8>)
        requires
            self.cursor.y_offset + self.screen.rows <= usize::MAX + 1,
            self.cursor.x_offset + self.screen.cols <= usize::MAX,
            welcome_fits(*self),
        ensures
            r@ == rows_text(*self, self.screen.rows as int),
    {
        let welcome = "kilo editor written in rust -- version 0.0.1".as_bytes();
        let rows = self.screen.rows();
        let cols = self.screen.cols();
        let n_lines = self.file.lines.len();
        let mut out: Vec<u8> = Vec::new();
        let mut screen_row: usize = 0;
        while screen_row < rows
            invariant
                rows == self.screen.rows,
                cols == self.screen.cols,
                n_lines == self.file.lines@.len(),
                welcome@ == welcome_bytes(),
                self.cursor.y_offset + rows <= usize::MAX + 1,
                self.cursor.x_offset + cols <= usize::MAX,
                welcome_fits(*self),
                screen_row <= rows,
                out@ == rows_text(*self, screen_row as int),
            decreases rows - screen_row,
        {
            let ghost before = out@;
            let file_row = self.cursor.y_offset + screen_row;
            if file_row < n_lines {
                let render = &self.file.lines[file_row].render;
                let start = self.cursor.x_offset;
                if start < render.len() {
                    let end = if render.len() <= start + cols { render.len() } else { start + cols };
                    push_chars(&mut out, vstd::slice::slice_subrange(render.as_slice(), start, end));
                }
            } else if n_lines < rows {
                out.push(0x7eu8);
                if n_lines == 0 && screen_row == rows / 3 {
                    let welcome_len = if welcome.len() <= cols { welcome.len() } else { cols };
                    let padding = (cols - 1 - welcome_len) / 2;
                    push_spaces(&mut out, padding);
                    push_all(&mut out, vstd::slice::slice_subrange(welcome, 0, welcome_len));
                    proof {
                        assert(welcome@.subrange(0, welcome_len as int) =~= welcome_bytes().take(welcome_len as int));
                    }
                }
            }
            push_all(&mut out, &[0x1bu8, 0x5bu8, 0x4bu8]);
            push_all(&mut out, &[13u8, 10u8]);
            proof {
                assert(out@ =~= before + row_text(*self, screen_row as int));
            }
            screen_row = screen_row + 1;
        }
        out
    }
}


/// Inverted colours on.
pub open spec fn invert() -> Seq<u8> {
    seq![0x1bu8, 0x5bu8, 0x37u8, 0x6du8]
}

/// Back to plain colours.
pub open spec fn plain() -> Seq<u8> {
    seq![0x1bu8, 0x5bu8, 0x6du8]
}

/// The bytes of the file name that the info bar shows: nineteen at most.
pub open spec fn name_part(name: Seq<u8>) -> Seq<u8> {
    if name.len() > 19 { name.take(19) } else { name }
}

/// What the info bar says on its left and on its right: the file name and the number of
/// lines, and the line of the cursor out of the lines; for a text without a name, that it
/// is scratch, and nothing on the right.
pub open spec fn info_parts(e: Editor) -> (Seq<u8>, Seq<u8>) {
    let n = e.file.lines@.len();
    let name = if e.file.path_of() is Some { path_file_name(e.file.path_of()->0) } else { None };
    match name {
        Some(name) => (
            name_part(encode_utf8(name)) + seq![32u8, 45u8, 32u8] + decimal(n) + seq![32u8, 108u8, 105u8, 110u8, 101u8, 115u8],
            decimal((e.cursor.y + 1) as nat) + seq![47u8] + decimal(n),
        ),
        None => (seq![115u8, 99u8, 114u8, 97u8, 116u8, 99u8, 104u8], seq![]),
    }
}

/// `k` columns filled with spaces, the right part `right` at their end where it fits.
pub open spec fn padded(k: int, right: Seq<u8>) -> Seq<u8> {
    if 0 < right.len() <= k {
        space_bytes((k - right.len()) as nat) + right
    } else {
        space_bytes(k as nat)
    }
}

/// The info bar: in inverted colours, the left part cut to the width of the screen, then
/// spaces, with the right part at the end where it fits.
pub open spec fn info_bar_text(e: Editor) -> Seq<u8> {
    let (left, right) = info_parts(e);
    let cols = e.screen.cols as int;
    let body = if left.len() < cols { left + padded(cols - left.len(), right) } else { left.take(cols) };
    invert() + body + plain() + crlf()
}

/// Whether the text `bytes` can be cut before byte `i`: at its end, or where no character
/// goes on (the byte is not a UTF-8 continuation byte).
pub open spec fn starts_char(bytes: Seq<u8>, i: int) -> bool {
    i == bytes.len() || (0 <= i < bytes.len() && !is_continuation_byte(bytes[i]))
}

/// Whether the file name can be cut after nineteen bytes.
pub open spec fn name_fits(e: Editor) -> bool {
    let name = if e.file.path_of() is Some { path_file_name(e.file.path_of()->0) } else { None };
    name is Some ==> {
        let bytes = encode_utf8(name->0);
        bytes.len() > 19 ==> starts_char(bytes, 19)
    }
}

/// Whether the info bar can be cut where it is: the file name after nineteen bytes and the
/// left part at the width of the screen must fall between characters.
pub open spec fn info_bar_fits(e: Editor) -> bool {
    &&& e.cursor.y < usize::MAX
    &&& name_fits(e)
    &&& info_parts(e).0.len() >= e.screen.cols ==> starts_char(info_parts(e).0, e.screen.cols as int)
}

/// Whether `bytes` can be cut before byte `i`; see `starts_char`.
pub fn can_cut(bytes: &[u8], i: usize) -> (r: bool)
    ensures
        r == starts_char(bytes@, i as int),
{
    i == bytes.len() || (i < bytes.len() && !(0x80 <= bytes[i] && bytes[i] <= 0xbf))
}

impl Editor {
    /// What the info bar says on its left and on its right.
    pub fn info_parts(&self) -> (r: (Vec<u8>, Vec<u8>))
        requires
            self.cursor.y < usize::MAX,
            name_fits(*self),
        ensures
            r.0@ == info_parts(*self).0,
            r.1@ == info_parts(*self).1,
    {
        let mut display_name: Vec<u8> = Vec::new();
        let mut current_line_number: Vec<u8> = Vec::new();
        let n = self.file.lines.len();
        match self.file.name() {
            Some(file_name) => {
                let bytes = file_name.as_str().as_bytes();
                if bytes.len() > 19 {
                    push_all(&mut display_name, vstd::slice::slice_subrange(bytes, 0, 19));
                    assert(bytes@.subrange(0, 19) =~= bytes@.take(19));
                } else {
                    push_all(&mut display_name, bytes);
                }
                push_all(&mut display_name, &[32u8, 45u8, 32u8]);
                push_decimal(&mut display_name, n);
                push_all(&mut display_name, &[32u8, 108u8, 105u8, 110u8, 101u8, 115u8]);
                push_decimal(&mut current_line_number, self.cursor.y + 1);
                push_all(&mut current_line_number, &[47u8]);
                push_decimal(&mut current_line_number, n);
            },
            None => {
                push_all(&mut display_name, &[115u8, 99u8, 114u8, 97u8, 116u8, 99u8, 104u8]);
            },
        }
        (display_name, current_line_number)
    }

    /// The info bar.
    pub fn draw_info_bar(&self) -> (r: Vec<u8>)
        requires
            info_bar_fits(*self),
        ensures
            r@ == info_bar_text(*self),
    {
        let mut out: Vec<u8> = Vec::new();
        push_all(&mut out, &[0x1bu8, 0x5bu8, 0x37u8, 0x6du8]);
        let (display_name, current_line_number) = self.info_parts();
        let ghost left = display_name@;
        let ghost right = current_line_number@;
        assert(left == info_parts(*self).0 && right == info_parts(*self).1);
        let cols = self.screen.cols();
        let name_len = display_name.len();
        if name_len < cols {
            push_all(&mut out, display_name.as_slice());
        } else {
            push_all(&mut out, vstd::slice::slice_subrange(display_name.as_slice(), 0, cols));
            assert(display_name@.subrange(0, cols as int) =~= left.take(cols as int));
        }
        let ghost start = out@;
        if name_len < cols {
            let mut i: usize = name_len;
            while i < cols
                invariant_except_break
                    cols == self.screen.cols,
                    name_len == left.len(),
                    right == current_line_number@,
                    name_len <= i <= cols,
                    name_len < cols,
                    out@ == start + space_bytes((i - name_len) as nat),
                    right.len() == 0 || right.len() <= cols - i || right.len() > cols - name_len,
                ensures
                    out@ == start + padded(cols - name_len, right),
                decreases cols - i,
            {
                if cols - i == current_line_number.len() {
                    push_all(&mut out, current_line_number.as_slice());
                    proof {
                        assert(out@ =~= start + padded(cols - name_len, right));
                    }
                    break;
                } else {
                    out.push(32u8);
                    i = i + 1;
                    proof {
                        assert(start + space_bytes((i - name_len) as nat)
                            =~= (start + space_bytes((i - 1 - name_len) as nat)).push(32u8));
                    }
                }
            }
        }
        push_all(&mut out, &[0x1bu8, 0x5bu8, 0x6du8]);
        push_all(&mut out, &[13u8, 10u8]);
        proof {
            assert(out@ =~= info_bar_text(*self));
        }
        out
    }
}

/// The status bar showing `message`: the rest of the line erased, then the message cut to
/// the width of the screen.
pub open spec fn status_bar_text(message: Seq<u8>, cols: int) -> Seq<u8> {
    clear_line() + if message.len() > cols { message.take(cols) } else { message }
}

/// Whether the status bar can show `message` on a screen `cols` wide: where it is longer, it
/// must be cut between characters.
pub open spec fn message_fits(message: Seq<char>, cols: int) -> bool {
    let bytes = encode_utf8(message);
    bytes.len() > cols ==> starts_char(bytes, cols)
}

/// Moves the terminal's cursor to row `y` and column `x`, counted from one, and shows it.
pub open spec fn cursor_text(x: nat, y: nat) -> Seq<u8> {
    seq![0x1bu8, 0x5bu8] + decimal(y) + seq![0x3bu8] + decimal(x) + seq![0x48u8]
        + seq![0x1bu8, 0x5bu8, 0x3fu8, 0x32u8, 0x35u8, 0x68u8]
}

impl Editor {
    /// The status bar showing `message`, cut to the width of the screen.
    pub fn draw_status_bar(&self, message: &str) -> (r: Vec<u8>)
        requires
            message_fits(message@, self.screen.cols as int),
        ensures
            r@ == status_bar_text(encode_utf8(message@), self.screen.cols as int),
    {
        let mut out: Vec<u8> = Vec::new();
        push_all(&mut out, &[0x1bu8, 0x5bu8, 0x4bu8]);
        let bytes = message.as_bytes();
        let cols = self.screen.cols();
        if bytes.len() > cols {
            push_all(&mut out, vstd::slice::slice_subrange(bytes, 0, cols));
            assert(bytes@.subrange(0, cols as int) =~= bytes@.take(cols as int));
        } else {
            push_all(&mut out, bytes);
        }
        proof {
            assert(out@ =~= status_bar_text(encode_utf8(message@), cols as int));
        }
        out
    }

    /// Moves the terminal's cursor to where the editor's cursor is, and shows it.
    pub fn show_cursor(&self) -> (r: Vec<u8>)
        requires
            self.input_mode is Normal ==> {
                &&& cursor_in_text(self.text(), self.cursor.x as int, self.cursor.y as int)
                &&& render_x(self.text(), self.cursor.x as int, self.cursor.y as int) <= usize::MAX
                &&& self.cursor.x_offset <= render_x(self.text(), self.cursor.x as int, self.cursor.y as int)
                &&& render_x(self.text(), self.cursor.x as int, self.cursor.y as int) - self.cursor.x_offset < usize::MAX
                &&& self.cursor.y_offset <= self.cursor.y
                &&& self.cursor.y - self.cursor.y_offset < usize::MAX
            },
            self.input_mode is Prompt ==> self.cursor.x < usize::MAX && self.screen.rows + 2 <= usize::MAX,
        ensures
            self.input_mode is Normal ==> r@ == cursor_text(
                (render_x(self.text(), self.cursor.x as int, self.cursor.y as int) - self.cursor.x_offset + 1) as nat,
                (self.cursor.y - self.cursor.y_offset + 1) as nat),
            self.input_mode is Prompt ==> r@ == cursor_text((self.cursor.x + 1) as nat, (self.screen.rows + 2) as nat),
    {
        let (x, y) = self.input_mode.cursor_position(self);
        let mut out: Vec<u8> = Vec::new();
        push_all(&mut out, &[0x1bu8, 0x5bu8]);
        push_decimal(&mut out, y);
        push_all(&mut out, &[0x3bu8]);
        push_decimal(&mut out, x);
        push_all(&mut out, &[0x48u8]);
        push_all(&mut out, &[0x1bu8, 0x5bu8, 0x3fu8, 0x32u8, 0x35u8, 0x68u8]);
        proof {
            assert(out@ =~= cursor_text(x as nat, y as nat));
        }
        out
    }
}

/// Hides the terminal's cursor.
pub open spec fn hide_cursor() -> Seq<u8> {
    seq![0x1bu8, 0x5bu8, 0x3fu8, 0x32u8, 0x35u8, 0x6cu8]
}

/// Puts the terminal's cursor at the top left.
pub open spec fn home() -> Seq<u8> {
    seq![0x1bu8, 0x5bu8, 0x48u8]
}

/// Where the terminal's cursor goes for `e`, counted from one.
pub open spec fn cursor_part(e: Editor) -> Seq<u8> {
    match e.input_mode {
        InputMode::Normal(_) => cursor_text(
            (render_x(e.text(), e.cursor.x as int, e.cursor.y as int) - e.cursor.x_offset + 1) as nat,
            (e.cursor.y - e.cursor.y_offset + 1) as nat),
        InputMode::Prompt(_) => cursor_text((e.cursor.x + 1) as nat, (e.screen.rows + 2) as nat),
    }
}

/// All that shows `e` on the terminal, with `status` for the status bar: the cursor hidden
/// and put at the top left, the text rows, the info bar, the status bar, and the cursor put
/// in place and shown.
pub open spec fn screen_text(e: Editor, status: Seq<u8>) -> Seq<u8> {
    hide_cursor() + home() + rows_text(e, e.screen.rows as int) + info_bar_text(e) + status + cursor_part(e)
}

/// Whether the screen can be drawn, with `message` on the status bar, without a panic: the
/// sums of offsets, sizes and columns fit in a machine word, what is cut falls between
/// characters, the greeting has room, and while editing the screen has at least a row and a
/// column.
pub open spec fn refresh_fits(e: Editor, message: Seq<char>) -> bool {
    &&& e.cursor.x_offset + e.screen.cols <= usize::MAX
    &&& welcome_fits(e)
    &&& info_bar_fits(e)
    &&& message_fits(message, e.screen.cols as int)
    &&& match e.input_mode {
        InputMode::Normal(_) => {
            &&& e.cursor.y_offset + e.screen.rows <= usize::MAX
            &&& render_x(e.text(), e.cursor.x as int, e.cursor.y as int) < usize::MAX
            &&& e.screen.cols >= 1
            &&& e.screen.rows >= 1
        },
        InputMode::Prompt(_) => {
            &&& e.cursor.y_offset + e.screen.rows <= usize::MAX + 1
            &&& e.cursor.x < usize::MAX
            &&& e.screen.rows + 2 <= usize::MAX
        },
    }
}

impl Editor {
    /// Follows the cursor with the screen, and gives all that shows the editor on the
    /// terminal, with `message` on the status bar.
    pub fn refresh_screen(&mut self, message: &str) -> (r: Vec<u8>)
        requires
            old(self).wf(),
            refresh_fits(*old(self), message@),
        ensures
            final(self).wf(),
            final(self).input_mode is Prompt ==> *final(self) == *old(self),
            final(self).input_mode is Normal ==> {
                &&& final(self).cursor.y_offset == scrolled(old(self).cursor.y_offset as int,
                    old(self).cursor.y as int, old(self).screen.rows as int)
                &&& final(self).cursor.x_offset == scrolled(old(self).cursor.x_offset as int,
                    render_x(old(self).text(), old(self).cursor.x as int, old(self).cursor.y as int),
                    old(self).screen.cols as int)
                &&& final(self).cursor.x == old(self).cursor.x
                &&& final(self).cursor.y == old(self).cursor.y
                &&& final(self).cursor.horizon == old(self).cursor.horizon
                &&& final(self).cursor.stored_x == old(self).cursor.stored_x
                &&& final(self).file == old(self).file
                &&& final(self).screen == old(self).screen
                &&& final(self).status_bar == old(self).status_bar
                &&& final(self).input_mode == old(self).input_mode
            },
            r@ == screen_text(*final(self), status_bar_text(encode_utf8(message@), final(self).screen.cols as int)),
    {
        let input_mode = self.input_mode;
        input_mode.scroll(self);
        proof {
            if input_mode is Normal {
                let xr = render_x(self.text(), self.cursor.x as int, self.cursor.y as int);
                scrolling_shows_cursor(old(self).cursor.y_offset as int, self.cursor.y as int, self.screen.rows as int);
                scrolling_shows_cursor(old(self).cursor.x_offset as int, xr, self.screen.cols as int);
            }
        }
        let mut out: Vec<u8> = Vec::new();
        push_all(&mut out, &[0x1bu8, 0x5bu8, 0x3fu8, 0x32u8, 0x35u8, 0x6cu8]);
        push_all(&mut out, &[0x1bu8, 0x5bu8, 0x48u8]);
        let rows = self.draw_rows();
        push_all(&mut out, rows.as_slice());
        let info = self.draw_info_bar();
        push_all(&mut out, info.as_slice());
        let status = self.draw_status_bar(message);
        push_all(&mut out, status.as_slice());
        let cursor = self.show_cursor();
        push_all(&mut out, cursor.as_slice());
        proof {
            let shown = status_bar_text(encode_utf8(message@), self.screen.cols as int);
            assert(out@ =~= screen_text(*self, shown));
        }
        out
    }
}

impl Editor {
    /// The screen column of the cursor, where it fits in a machine word.
    pub fn checked_x_render(&self) -> (r: Option<usize>)
        requires
            cursor_in_text(self.text(), self.cursor.x as int, self.cursor.y as int),
        ensures
            r matches Some(v) ==> v == render_x(self.text(), self.cursor.x as int, self.cursor.y as int),
            r is None ==> render_x(self.text(), self.cursor.x as int, self.cursor.y as int) > usize::MAX,
    {
        if self.file.lines.len() == 0 {
            return Some(0);
        }
        let chars = &self.file.lines[self.cursor.y].chars;
        let ghost s = chars@;
        let mut x_render: usize = 0;
        let n = self.cursor.x;
        let mut i: usize = 0;
        while i < n
            invariant
                n == self.cursor.x,
                n <= s.len(),
                s == chars@,
                s == self.text()[self.cursor.y as int],
                self.file.lines@.len() > 0,
                i <= n,
                x_render == expand_tabs(s.take(i as int)).len(),
            decreases n - i,
        {
            proof {
                assert(s.take(i + 1) == s.take(i as int).push(s[i as int]));
                expand_tabs_push(s.take(i as int), s[i as int]);
                expand_tabs_take_monotone(s, i + 1, n as int);
            }
            let step: usize = if chars[i] == '\t' { TAB_STOP - x_render % TAB_STOP } else { 1 };
            match x_render.checked_add(step) {
                Some(v) => x_render = v,
                None => {
                    assert(expand_tabs(s.take(i + 1)).len() == x_render + step);
                    assert(self.file.lines@.len() > 0);
                    assert(render_x(self.text(), self.cursor.x as int, self.cursor.y as int)
                        == expand_tabs(s.take(n as int)).len());
                    return None;
                },
            }
            i = i + 1;
        }
        Some(x_render)
    }

    /// Whether the screen can be drawn now with `message` on the status bar; see
    /// `refresh_fits`.
    pub fn can_refresh(&self, message: &str) -> (r: bool)
        requires
            self.wf(),
        ensures
            r == refresh_fits(*self, message@),
    {
        let rows = self.screen.rows();
        let cols = self.screen.cols();
        if self.cursor.x_offset > usize::MAX - cols {
            return false;
        }
        let welcome = "kilo editor written in rust -- version 0.0.1".as_bytes();
        if self.file.lines.len() == 0 && rows > 0 && cols <= welcome.len() {
            return false;
        }
        if self.cursor.y == usize::MAX {
            return false;
        }
        match self.file.name() {
            Some(name) => {
                let bytes = name.as_str().as_bytes();
                if bytes.len() > 19 && !can_cut(bytes, 19) {
                    return false;
                }
            },
            None => {},
        }
        let (left, right) = self.info_parts();
        if left.len() >= cols && !can_cut(left.as_slice(), cols) {
            return false;
        }
        let bytes = message.as_bytes();
        if bytes.len() > cols && !can_cut(bytes, cols) {
            return false;
        }
        match self.input_mode {
            InputMode::Normal(_) => {
                if self.cursor.y_offset > usize::MAX - rows {
                    return false;
                }
                match self.checked_x_render() {
                    Some(x_render) => x_render < usize::MAX && cols >= 1 && rows >= 1,
                    None => false,
                }
            },
            InputMode::Prompt(_) => {
                (rows == 0 || self.cursor.y_offset <= usize::MAX - (rows - 1)) && self.cursor.x < usize::MAX
                    && rows <= usize::MAX - 2
            },
        }
    }
}

/// For a text saved under a name, the info bar's right part is the cursor's line, counted
/// from one, a slash and the number of lines; its left part ends with the number of lines
/// and the word `lines`. A text without a name is scratch, with nothing on the right.
pub proof fn info_bar_counts_the_cursor_line(e: Editor)
    ensures
        e.file.path_of() is Some && path_file_name(e.file.path_of()->0) is Some ==> {
            &&& info_parts(e).1 == decimal((e.cursor.y + 1) as nat) + "/"@.map_values(|c: char| c as u8)
                + decimal(e.file.lines@.len())
            &&& info_parts(e).0.take(info_parts(e).0.len() - 6 - decimal(e.file.lines@.len()).len())
                + decimal(e.file.lines@.len()) + " lines"@.map_values(|c: char| c as u8) == info_parts(e).0
        },
        !(e.file.path_of() is Some && path_file_name(e.file.path_of()->0) is Some) ==> {
            &&& info_parts(e).0 == "scratch"@.map_values(|c: char| c as u8)
            &&& info_parts(e).1.len() == 0
        },
{
    reveal_strlit("/");
    reveal_strlit(" lines");
    reveal_strlit("scratch");
    if e.file.path_of() is Some && path_file_name(e.file.path_of()->0) is Some {
        let n = e.file.lines@.len();
        let left = info_parts(e).0;
        let tail = decimal(n) + " lines"@.map_values(|c: char| c as u8);
        assert(" lines"@.map_values(|c: char| c as u8) =~= seq![32u8, 108u8, 105u8, 110u8, 101u8, 115u8]);
        assert("/"@.map_values(|c: char| c as u8) =~= seq![47u8]);
        assert(left.take(left.len() - 6 - decimal(n).len()) + tail =~= left);
    } else {
        assert("scratch"@.map_values(|c: char| c as u8) =~= seq![115u8, 99u8, 114u8, 97u8, 116u8, 99u8, 104u8]);
    }
}

/// What the info bar says depends on the text, its name and the cursor's line alone: not
/// on the cursor's column, the scroll offsets, the screen or the status bar.
pub proof fn info_bar_ignores_the_scroll(e1: Editor, e2: Editor)
    requires
        e1.file == e2.file,
        e1.cursor.y == e2.cursor.y,
    ensures
        info_parts(e1) == info_parts(e2),
{
}
} // verus!
