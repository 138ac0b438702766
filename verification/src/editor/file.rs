//! The text being edited: lines of characters, what each looks like on screen, and what
//! was last written to disk for it.
use vstd::prelude::*;
use vstd::utf8::{encode_utf8, encode_scalar};
use crate::text::{chars_to_string, str_chars};
use crate::paths::{path_file_name, path_parent, joined_path};
use crate::common::DieReason;

verus! {

/// Columns between tab stops.
pub const TAB_STOP: usize = 8;

/// `n` spaces.
pub open spec fn spaces(n: nat) -> Seq<char> {
    Seq::new(n, |i: int| ' ')
}

/// How `chars` look on screen: each tab becomes the spaces up to the next tab stop.
pub open spec fn expand_tabs(chars: Seq<char>) -> Seq<char>
    decreases chars.len(),
{
    if chars.len() == 0 {
        seq![]
    } else {
        let before = expand_tabs(chars.drop_last());
        if chars.last() == '\t' {
            before + spaces((TAB_STOP - before.len() % (TAB_STOP as nat)) as nat)
        } else {
            before.push(chars.last())
        }
    }
}

/// One line of the text.
pub struct Line {
    /// The characters of the line.
    pub chars: Vec<char>,
    /// What the line looks like on screen.
    pub render: Vec<char>,
    /// The bytes last written to disk for this line.
    pub persist: Vec<u8>,
    /// Whether the line changed since it was last written.
    pub dirty: bool,
}

impl Line {
    /// A line holding the characters of `line`, as last written to disk.
    pub fn new(line: &str, dirty: bool) -> (r: Line)
        ensures
            r.chars@ == line@,
            r.render@ == expand_tabs(line@),
            r.persist@ == encode_utf8(line@),
            r.dirty == dirty,
    {
        let chars = str_chars(line);
        let persist = vstd::slice::slice_to_vec(line.as_bytes());
        let mut new_line = Line { chars, render: Vec::new(), persist, dirty };
        new_line.render();
        new_line
    }

    /// An empty line never written to disk.
    pub fn new_empty() -> (r: Line)
        ensures
            r.chars@ == Seq::<char>::empty(),
            r.render@ == Seq::<char>::empty(),
            r.persist@ == Seq::<u8>::empty(),
            r.dirty,
    {
        Line { chars: Vec::new(), render: Vec::new(), persist: Vec::new(), dirty: true }
    }

    /// Puts `c` before the character at `chars_index`.
    pub fn insert(&mut self, c: char, chars_index: usize)
        requires
            chars_index <= old(self).chars.len(),
        ensures
            final(self).chars@ == old(self).chars@.insert(chars_index as int, c),
            final(self).render@ == expand_tabs(final(self).chars@),
            final(self).persist == old(self).persist,
            final(self).dirty,
    {
        self.chars.insert(chars_index, c);
        self.render();
        self.dirty = true;
    }

    /// Appends `c`; it is appended to the screen form as it is, a tab too.
    pub fn push(&mut self, c: char)
        ensures
            final(self).chars@ == old(self).chars@.push(c),
            final(self).render@ == old(self).render@.push(c),
            final(self).persist == old(self).persist,
            final(self).dirty,
    {
        self.chars.push(c);
        self.render.push(c);
        self.dirty = true;
    }

    /// Takes out the character at `chars_index`.
    pub fn remove(&mut self, chars_index: usize)
        requires
            chars_index < old(self).chars.len(),
        ensures
            final(self).chars@ == old(self).chars@.remove(chars_index as int),
            final(self).render@ == expand_tabs(final(self).chars@),
            final(self).persist == old(self).persist,
            final(self).dirty,
    {
        self.chars.remove(chars_index);
        self.render();
        self.dirty = true;
    }

    /// Lays the characters out on screen again.
    fn render(&mut self)
        ensures
            final(self).chars == old(self).chars,
            final(self).render@ == expand_tabs(final(self).chars@),
            final(self).persist == old(self).persist,
            final(self).dirty == old(self).dirty,
    {
        self.render.clear();
        let n = self.chars.len();
        let mut i: usize = 0;
        while i < n
            invariant
                n == self.chars.len(),
                i <= n,
                self.chars == old(self).chars,
                self.persist == old(self).persist,
                self.dirty == old(self).dirty,
                self.render@ == expand_tabs(self.chars@.take(i as int)),
            decreases n - i,
        {
            let c = self.chars[i];
            proof {
                assert(self.chars@.take(i + 1).drop_last() == self.chars@.take(i as int));
            }
            if c == '\t' {
                let col = self.render.len();
                let spaces_n = TAB_STOP - col % TAB_STOP;
                let ghost before = self.render@;
                let mut k: usize = 0;
                while k < spaces_n
                    invariant
                        k <= spaces_n,
                        self.render@ == before + spaces(k as nat),
                        self.chars == old(self).chars,
                        self.persist == old(self).persist,
                        self.dirty == old(self).dirty,
                    decreases spaces_n - k,
                {
                    self.render.push(' ');
                    k = k + 1;
                    proof {
                        assert(before + spaces(k as nat) == (before + spaces((k - 1) as nat)).push(' '));
                    }
                }
            } else {
                self.render.push(c);
            }
            i = i + 1;
        }
        proof {
            assert(self.chars@.take(n as int) == self.chars@);
        }
    }
}

} // verus!

verus! {

#[verifier::external_type_specification]
#[verifier::external_body]
pub struct ExIoError(std::io::Error);

/// How a save ended.
pub enum SaveStatus {
    NoChanges,
    Successful,
    NameRequest,
    Fail(std::io::Error),
}

/// What a save needs written: `bytes` go to the file at `path`, and once they are there the
/// lines from `first_dirty` on are no longer dirty.
pub struct WriteRequest {
    pub path: String,
    pub first_dirty: usize,
    pub bytes: Vec<u8>,
}

/// The first step of a save: either it ends at once, or the file must be written.
pub enum PersistStep {
    Finished(SaveStatus),
    Write(WriteRequest),
}

/// The characters of each line.
pub open spec fn line_chars(lines: Seq<Line>) -> Seq<Seq<char>> {
    Seq::new(lines.len(), |i: int| lines[i].chars@)
}

/// The bytes of a file holding `lines`: what was last written for each line, each followed
/// by a newline.
pub open spec fn file_bytes(lines: Seq<Line>) -> Seq<u8>
    decreases lines.len(),
{
    if lines.len() == 0 {
        seq![]
    } else {
        file_bytes(lines.drop_last()) + lines.last().persist@.push(10u8)
    }
}

/// Whether some line changed since it was last written.
pub open spec fn any_dirty(lines: Seq<Line>) -> bool {
    exists|i: int| 0 <= i < lines.len() && #[trigger] lines[i].dirty
}

/// The text being edited, and the path it is saved under.
pub struct File {
    pub path: Option<String>,
    pub lines: Vec<Line>,
}

impl File {
    /// The path the text is saved under.
    pub open spec fn path_of(&self) -> Option<Seq<char>> {
        match self.path {
            Some(p) => Some(p@),
            None => None,
        }
    }

    /// No text and no path.
    pub fn new() -> (r: File)
        ensures
            r.lines@.len() == 0,
            r.path_of() is None,
    {
        File { path: None, lines: Vec::new() }
    }

    /// Saves the text under `name` from now on.
    pub fn set_name(&mut self, name: &str)
        ensures
            final(self).path_of() == Some(name@),
            final(self).lines == old(self).lines,
    {
        self.path = Some(String::from_str(name));
    }

    /// The directory to make absolute before a path is set from `path`: its parent, or the
    /// current directory `.` where it has none.
    pub fn parent_dir(path: &str) -> (r: String)
        ensures
            r@ == (match path_parent(path@) {
                Some(p) => if p.len() > 0 { p } else { "."@ },
                None => "."@,
            }),
    {
        match crate::paths::parent(path) {
            Some(p) => {
                if p.as_str().as_bytes().len() > 0 {
                    p
                } else {
                    proof {
                        assert(p@.len() == 0) by {
                            if p@.len() > 0 {
                                assert(encode_utf8(p@).len() > 0);
                            }
                        }
                    }
                    String::from_str(".")
                }
            },
            None => String::from_str("."),
        }
    }

    /// Saves the text from now on in the directory `absolute_parent` (the parent of `path`
    /// made absolute) under the last component of `path`; a path without one is refused.
    pub fn set_path(&mut self, path: &str, absolute_parent: &str) -> (r: Result<(), DieReason>)
        ensures
            final(self).lines == old(self).lines,
            path_file_name(path@) is None ==> (r matches Err(DieReason::Panic(m)) && m@ == "invalid file name"@)
                && final(self).path_of() == old(self).path_of(),
            path_file_name(path@) is Some ==> r is Ok
                && final(self).path_of() == Some(joined_path(absolute_parent@, path_file_name(path@)->0)),
    {
        match crate::paths::file_name(path) {
            Some(name) => {
                self.path = Some(crate::paths::join(absolute_parent, name.as_str()));
                Ok(())
            },
            None => Err(DieReason::Panic(String::from_str("invalid file name"))),
        }
    }

    /// Forgets the path.
    pub fn clear_path(&mut self)
        ensures
            final(self).path_of() is None,
            final(self).lines == old(self).lines,
    {
        self.path = None;
    }

    /// The path the text is saved under.
    pub fn path(&self) -> (r: Option<&String>)
        ensures
            (r is Some) == (self.path_of() is Some),
            r is Some ==> r->0@ == self.path_of()->0,
    {
        self.path.as_ref()
    }

    /// The last component of the path.
    pub fn name(&self) -> (r: Option<String>)
        ensures
            (r is Some) == (self.path_of() is Some && path_file_name(self.path_of()->0) is Some),
            r is Some ==> r->0@ == path_file_name(self.path_of()->0)->0,
    {
        match &self.path {
            Some(p) => crate::paths::file_name(p.as_str()),
            None => None,
        }
    }

    /// The directory the text is saved in.
    pub fn dir(&self) -> (r: Option<String>)
        ensures
            (r is Some) == (self.path_of() is Some && path_parent(self.path_of()->0) is Some),
            r is Some ==> r->0@ == path_parent(self.path_of()->0)->0,
    {
        match &self.path {
            Some(p) => crate::paths::parent(p.as_str()),
            None => None,
        }
    }

    /// Whether a regular file stands at the path now; never so without a path or with an
    /// empty one.
    pub fn exists_as_file(&self) -> (r: bool)
        ensures
            self.path_of() is None ==> !r,
            self.path_of() == Some(Seq::<char>::empty()) ==> !r,
    {
        match &self.path {
            Some(p) => crate::paths::is_file(p.as_str()),
            None => false,
        }
    }

    /// Appends a line holding the characters of `line`.
    pub fn add_new_line(&mut self, line: &str, dirty: bool)
        ensures
            final(self).path_of() == old(self).path_of(),
            final(self).lines@.len() == old(self).lines@.len() + 1,
            final(self).lines@.drop_last() == old(self).lines@,
            final(self).lines@.last().chars@ == line@,
            final(self).lines@.last().render@ == expand_tabs(line@),
            final(self).lines@.last().persist@ == encode_utf8(line@),
            final(self).lines@.last().dirty == dirty,
            clean_lines_saved(old(self).lines@) ==> clean_lines_saved(final(self).lines@),
    {
        let new_line = Line::new(line, dirty);
        self.lines.push(new_line);
        proof {
            assert(self.lines@.drop_last() == old(self).lines@);
        }
    }

    /// Marks the text as changed, adding an empty line where there is none.
    pub fn make_dirty(&mut self)
        ensures
            final(self).path_of() == old(self).path_of(),
            old(self).lines@.len() == 0 ==> final(self).lines@.len() == 1
                && final(self).lines@[0].chars@.len() == 0
                && final(self).lines@[0].render@.len() == 0
                && final(self).lines@[0].persist@.len() == 0
                && final(self).lines@[0].dirty,
            old(self).lines@.len() > 0 ==> final(self).lines@.len() == old(self).lines@.len()
                && final(self).lines@[0].chars == old(self).lines@[0].chars
                && final(self).lines@[0].render == old(self).lines@[0].render
                && final(self).lines@[0].persist == old(self).lines@[0].persist
                && final(self).lines@[0].dirty
                && (forall|i: int| 1 <= i < final(self).lines@.len() ==> final(self).lines@[i] == old(self).lines@[i]),
            any_dirty(final(self).lines@),
            clean_lines_saved(old(self).lines@) ==> clean_lines_saved(final(self).lines@),
    {
        if self.lines.len() == 0 {
            proof {
                reveal_strlit("");
            }
            self.add_new_line("", true);
            assert(final(self).lines@[0].dirty);
        } else {
            self.lines[0].dirty = true;
            assert(self.lines@[0].dirty);
        }
    }

    /// Whether some line changed since it was last written.
    pub fn is_dirty(&self) -> (r: bool)
        ensures
            r == any_dirty(self.lines@),
    {
        let n = self.lines.len();
        let mut i: usize = 0;
        while i < n
            invariant
                n == self.lines.len(),
                i <= n,
                forall|j: int| 0 <= j < i ==> !(#[trigger] self.lines@[j]).dirty,
            decreases n - i,
        {
            if self.lines[i].dirty {
                return true;
            }
            i = i + 1;
        }
        false
    }
}


/// Every line that is not dirty holds, as last written, the bytes of its characters.
pub open spec fn clean_lines_saved(lines: Seq<Line>) -> bool {
    forall|i: int| 0 <= i < lines.len() && !(#[trigger] lines[i]).dirty
        ==> lines[i].persist@ == encode_utf8(lines[i].chars@)
}

/// The bytes of a file holding the lines `text`, each followed by a newline.
pub open spec fn text_bytes(text: Seq<Seq<char>>) -> Seq<u8>
    decreases text.len(),
{
    if text.len() == 0 {
        seq![]
    } else {
        text_bytes(text.drop_last()) + encode_utf8(text.last()).push(10u8)
    }
}

impl File {
    /// Cuts line `line_index` at `chars_index`: what follows goes to a new line after it.
    /// Without lines, two empty lines are made.
    pub fn split_line(&mut self, line_index: usize, chars_index: usize)
        requires
            old(self).lines@.len() > 0 ==> line_index < old(self).lines@.len()
                && chars_index <= old(self).lines@[line_index as int].chars@.len(),
        ensures
            final(self).path_of() == old(self).path_of(),
            old(self).lines@.len() == 0 ==> final(self).lines@.len() == 2
                && (forall|i: int| 0 <= i < 2 ==> (#[trigger] final(self).lines@[i]).chars@.len() == 0
                    && final(self).lines@[i].render@.len() == 0
                    && final(self).lines@[i].persist@.len() == 0
                    && final(self).lines@[i].dirty),
            old(self).lines@.len() > 0 ==> {
                let old_lines = old(self).lines@;
                let new_lines = final(self).lines@;
                let li = line_index as int;
                &&& new_lines.len() == old_lines.len() + 1
                &&& forall|i: int| 0 <= i < li ==> new_lines[i] == old_lines[i]
                &&& forall|i: int| li + 1 < i < new_lines.len() ==> new_lines[i] == old_lines[i - 1]
                &&& new_lines[li].chars@ == old_lines[li].chars@.take(chars_index as int)
                &&& new_lines[li].render@ == expand_tabs(new_lines[li].chars@)
                &&& new_lines[li].persist == old_lines[li].persist
                &&& new_lines[li].dirty
                &&& new_lines[li + 1].chars@ == old_lines[li].chars@.skip(chars_index as int)
                &&& new_lines[li + 1].render@ == expand_tabs(new_lines[li + 1].chars@)
                &&& new_lines[li + 1].persist@.len() == 0
                &&& new_lines[li + 1].dirty
            },
            line_chars(final(self).lines@) == split_text(line_chars(old(self).lines@), line_index as int, chars_index as int),
            clean_lines_saved(old(self).lines@) ==> clean_lines_saved(final(self).lines@),
    {
        let mut new_line = Line::new_empty();
        if self.lines.len() == 0 {
            self.lines.push(new_line);
            new_line = Line::new_empty();
            self.lines.push(new_line);
            assert(line_chars(self.lines@) =~= split_text(line_chars(old(self).lines@), line_index as int, chars_index as int));
            return;
        }
        self.lines[line_index].dirty = true;
        new_line.chars = self.lines[line_index].chars.split_off(chars_index);
        self.lines[line_index].render();
        new_line.render();
        self.lines.insert(line_index + 1, new_line);
        proof {
            let li = line_index as int;
            let t = line_chars(old(self).lines@);
            assert(line_chars(self.lines@) =~= split_text(t, li, chars_index as int)) by {
                assert forall|i: int| 0 <= i < self.lines@.len() implies
                    line_chars(self.lines@)[i] == split_text(t, li, chars_index as int)[i] by {
                    if i > li + 1 {
                        assert(self.lines@[i] == old(self).lines@[i - 1]);
                    }
                }
            }
        }
    }

    /// Moves the characters of line `from_index` to the end of line `to_index`, the latter
    /// counted once the former is taken out. Nothing happens without lines, or where the
    /// two are the same.
    pub fn merge_lines(&mut self, from_index: usize, to_index: usize)
        requires
            from_index != to_index && old(self).lines@.len() > 0 ==> from_index < old(self).lines@.len()
                && to_index + 1 < old(self).lines@.len(),
        ensures
            final(self).path_of() == old(self).path_of(),
            from_index == to_index || old(self).lines@.len() == 0 ==> final(self).lines == old(self).lines,
            from_index != to_index && old(self).lines@.len() > 0 ==> {
                let rest = old(self).lines@.remove(from_index as int);
                let new_lines = final(self).lines@;
                let ti = to_index as int;
                &&& new_lines.len() == rest.len()
                &&& forall|i: int| 0 <= i < new_lines.len() && i != ti ==> new_lines[i] == rest[i]
                &&& new_lines[ti].chars@ == rest[ti].chars@ + old(self).lines@[from_index as int].chars@
                &&& new_lines[ti].render@ == expand_tabs(new_lines[ti].chars@)
                &&& new_lines[ti].persist == rest[ti].persist
                &&& new_lines[ti].dirty
            },
            line_chars(final(self).lines@) == merge_text(line_chars(old(self).lines@), from_index as int, to_index as int),
            clean_lines_saved(old(self).lines@) ==> clean_lines_saved(final(self).lines@),
    {
        if from_index == to_index || self.lines.len() == 0 {
            return;
        }
        let from = self.lines.remove(from_index);
        assert(self.lines@ == old(self).lines@.remove(from_index as int));
        let ghost rest = self.lines@;
        let ghost base = self.lines@[to_index as int].chars@;
        let n = from.chars.len();
        let mut i: usize = 0;
        while i < n
            invariant
                n == from.chars.len(),
                i <= n,
                to_index < self.lines@.len(),
                self.lines@.len() == rest.len(),
                self.path_of() == old(self).path_of(),
                forall|j: int| 0 <= j < rest.len() && j != to_index ==> self.lines@[j] == rest[j],
                self.lines@[to_index as int].chars@ == base + from.chars@.take(i as int),
                self.lines@[to_index as int].persist == rest[to_index as int].persist,
            decreases n - i,
        {
            let c = from.chars[i];
            self.lines[to_index].push(c);
            i = i + 1;
            proof {
                assert(base + from.chars@.take(i as int) == (base + from.chars@.take(i - 1)).push(c));
            }
        }
        proof {
            assert(from.chars@.take(n as int) == from.chars@);
        }
        self.lines[to_index].dirty = true;
        self.lines[to_index].render();
        proof {
            let t = line_chars(old(self).lines@);
            if clean_lines_saved(old(self).lines@) {
                assert forall|j: int| 0 <= j < self.lines@.len() && !(#[trigger] self.lines@[j]).dirty
                    implies self.lines@[j].persist@ == encode_utf8(self.lines@[j].chars@) by {
                    if j < from_index {
                        assert(rest[j] == old(self).lines@[j]);
                    } else {
                        assert(rest[j] == old(self).lines@[j + 1]);
                    }
                }
            }
            assert(line_chars(self.lines@) =~= merge_text(t, from_index as int, to_index as int)) by {
                assert forall|j: int| 0 <= j < self.lines@.len() implies
                    line_chars(self.lines@)[j] == merge_text(t, from_index as int, to_index as int)[j] by {
                    if j < from_index {
                        assert(rest[j] == old(self).lines@[j]);
                    } else {
                        assert(rest[j] == old(self).lines@[j + 1]);
                    }
                }
            }
        }
    }
}

/// The bytes of `chars` in UTF-8, as a vector.
fn encoded(chars: &Vec<char>) -> (r: Vec<u8>)
    ensures
        r@ == encode_utf8(chars@),
{
    let s = chars_to_string(chars.as_slice());
    vstd::slice::slice_to_vec(s.as_str().as_bytes())
}

proof fn file_bytes_push(lines: Seq<Line>, i: int)
    requires
        0 <= i < lines.len(),
    ensures
        file_bytes(lines.take(i + 1)) == file_bytes(lines.take(i)) + lines[i].persist@.push(10u8),
{
    assert(lines.take(i + 1).drop_last() == lines.take(i));
}

impl File {
    /// The first step of a save. Without a path, a name is asked for. Without lines, an
    /// empty dirty line is made. Without a dirty line there is nothing to save. Otherwise
    /// each line from the first dirty one on is encoded afresh, and the bytes of the whole
    /// file are handed out to be written.
    pub fn persist(&mut self) -> (r: PersistStep)
        ensures
            final(self).path_of() == old(self).path_of(),
            old(self).path_of() is None ==> (r matches PersistStep::Finished(SaveStatus::NameRequest))
                && final(self).lines == old(self).lines,
            old(self).path_of() is Some && old(self).lines@.len() == 0 ==> final(self).lines@.len() == 1
                && final(self).lines@[0].chars@.len() == 0
                && final(self).lines@[0].render@.len() == 0
                && final(self).lines@[0].persist@.len() == 0
                && final(self).lines@[0].dirty,
            old(self).path_of() is Some && old(self).lines@.len() > 0 ==> final(self).lines@.len() == old(self).lines@.len()
                && forall|i: int| 0 <= i < final(self).lines@.len() ==> {
                    &&& (#[trigger] final(self).lines@[i]).chars == old(self).lines@[i].chars
                    &&& final(self).lines@[i].render == old(self).lines@[i].render
                    &&& final(self).lines@[i].dirty == old(self).lines@[i].dirty
                },
            old(self).path_of() is Some ==> match r {
                PersistStep::Finished(status) => status is NoChanges && old(self).lines@.len() > 0
                    && !any_dirty(old(self).lines@) && final(self).lines == old(self).lines,
                PersistStep::Write(w) => {
                    let lines = final(self).lines@;
                    &&& Some(w.path@) == old(self).path_of()
                    &&& w.first_dirty < lines.len()
                    &&& lines[w.first_dirty as int].dirty
                    &&& forall|i: int| 0 <= i < w.first_dirty ==> !(#[trigger] lines[i]).dirty
                    &&& forall|i: int| 0 <= i < w.first_dirty ==> (#[trigger] lines[i]).persist
                        == old(self).lines@[i].persist
                    &&& forall|i: int| w.first_dirty <= i < lines.len()
                        ==> (#[trigger] lines[i]).persist@ == encode_utf8(lines[i].chars@)
                    &&& w.bytes@ == file_bytes(lines)
                    &&& clean_lines_saved(old(self).lines@) ==> w.bytes@ == text_bytes(line_chars(lines))
                },
            },
            clean_lines_saved(old(self).lines@) ==> clean_lines_saved(final(self).lines@),
    {
        if self.path.is_none() {
            return PersistStep::Finished(SaveStatus::NameRequest);
        }
        if self.lines.len() == 0 {
            let empty = Line::new_empty();
            self.lines.push(empty);
        }
        let ghost start = self.lines@;
        let n = self.lines.len();
        let mut first_dirty: usize = 0;
        while first_dirty < n && !self.lines[first_dirty].dirty
            invariant
                n == self.lines.len(),
                first_dirty <= n,
                forall|j: int| 0 <= j < first_dirty ==> !(#[trigger] self.lines@[j]).dirty,
            decreases n - first_dirty,
        {
            first_dirty = first_dirty + 1;
        }
        if first_dirty == n {
            return PersistStep::Finished(SaveStatus::NoChanges);
        }
        let mut bytes: Vec<u8> = Vec::new();
        let mut i: usize = 0;
        while i < n
            invariant
                n == self.lines.len(),
                n == start.len(),
                first_dirty < n,
                i <= n,
                self.path == old(self).path,
                forall|j: int| 0 <= j < n ==> {
                    &&& (#[trigger] self.lines@[j]).chars == start[j].chars
                    &&& self.lines@[j].render == start[j].render
                    &&& self.lines@[j].dirty == start[j].dirty
                },
                forall|j: int| 0 <= j < n && (j < first_dirty || j >= i)
                    ==> (#[trigger] self.lines@[j]).persist == start[j].persist,
                forall|j: int| first_dirty <= j < i
                    ==> (#[trigger] self.lines@[j]).persist@ == encode_utf8(self.lines@[j].chars@),
                bytes@ == file_bytes(self.lines@.take(i as int)),
            decreases n - i,
        {
            let ghost before = self.lines@;
            if i >= first_dirty {
                let fresh = encoded(&self.lines[i].chars);
                self.lines[i].persist = fresh;
            }
            assert(self.lines@.take(i as int) == before.take(i as int));
            let mut piece = vstd::slice::slice_to_vec(self.lines[i].persist.as_slice());
            bytes.append(&mut piece);
            bytes.push(10u8);
            proof {
                file_bytes_push(self.lines@, i as int);
            }
            i = i + 1;
        }
        proof {
            assert(self.lines@.take(n as int) == self.lines@);
            if clean_lines_saved(old(self).lines@) {
                assert forall|j: int| 0 <= j < n implies
                    (#[trigger] self.lines@[j]).persist@ == encode_utf8(self.lines@[j].chars@) by {
                    if j < first_dirty {
                        assert(!start[j].dirty);
                        if old(self).lines@.len() > 0 {
                            assert(start[j] == old(self).lines@[j]);
                        }
                    }
                }
                file_bytes_of_saved_lines(self.lines@);
            }
        }
        let path = self.path.as_ref().unwrap().clone();
        PersistStep::Write(WriteRequest { path, first_dirty, bytes })
    }

    /// The last step of a save, once the file was written (or failed to be): on success the
    /// lines from `first_dirty` on are no longer dirty.
    pub fn persisted(&mut self, first_dirty: usize, outcome: Result<(), std::io::Error>) -> (r: SaveStatus)
        requires
            first_dirty <= old(self).lines@.len(),
        ensures
            final(self).path_of() == old(self).path_of(),
            final(self).lines@.len() == old(self).lines@.len(),
            match outcome {
                Ok(()) => r is Successful && forall|i: int| 0 <= i < final(self).lines@.len() ==> {
                    &&& (#[trigger] final(self).lines@[i]).chars == old(self).lines@[i].chars
                    &&& final(self).lines@[i].render == old(self).lines@[i].render
                    &&& final(self).lines@[i].persist == old(self).lines@[i].persist
                    &&& final(self).lines@[i].dirty == (old(self).lines@[i].dirty && i < first_dirty)
                },
                Err(e) => r == SaveStatus::Fail(e) && final(self).lines == old(self).lines,
            },
            clean_lines_saved(old(self).lines@) && (forall|i: int| first_dirty <= i < old(self).lines@.len()
                ==> (#[trigger] old(self).lines@[i]).persist@ == encode_utf8(old(self).lines@[i].chars@))
                ==> clean_lines_saved(final(self).lines@),
    {
        match outcome {
            Ok(()) => {
                let n = self.lines.len();
                let mut i: usize = first_dirty;
                while i < n
                    invariant
                        n == self.lines.len(),
                        first_dirty <= i <= n,
                        self.path == old(self).path,
                        forall|j: int| 0 <= j < n ==> {
                            &&& (#[trigger] self.lines@[j]).chars == old(self).lines@[j].chars
                            &&& self.lines@[j].render == old(self).lines@[j].render
                            &&& self.lines@[j].persist == old(self).lines@[j].persist
                            &&& self.lines@[j].dirty == (old(self).lines@[j].dirty && (j < first_dirty || j >= i))
                        },
                    decreases n - i,
                {
                    self.lines[i].dirty = false;
                    i = i + 1;
                }
                SaveStatus::Successful
            },
            Err(e) => SaveStatus::Fail(e),
        }
    }
}

/// The lines `text` with line `li` cut at `ci`; without lines, two empty lines.
pub open spec fn split_text(text: Seq<Seq<char>>, li: int, ci: int) -> Seq<Seq<char>> {
    if text.len() == 0 {
        seq![Seq::<char>::empty(), Seq::<char>::empty()]
    } else {
        text.take(li).push(text[li].take(ci)).push(text[li].skip(ci)) + text.skip(li + 1)
    }
}

/// The lines `text` with line `from` moved to the end of line `to` (counted once `from`
/// is taken out); unchanged without lines or where the two are the same.
pub open spec fn merge_text(text: Seq<Seq<char>>, from: int, to: int) -> Seq<Seq<char>> {
    if from == to || text.len() == 0 {
        text
    } else {
        let rest = text.remove(from);
        rest.update(to, rest[to] + text[from])
    }
}

/// Cutting a line and joining the new line back to it gives the text back.
pub proof fn merge_undoes_split(text: Seq<Seq<char>>, li: int, ci: int)
    requires
        0 <= li < text.len(),
        0 <= ci <= text[li].len(),
    ensures
        merge_text(split_text(text, li, ci), li + 1, li) == text,
{
    let split = split_text(text, li, ci);
    let rest = split.remove(li + 1);
    assert(text[li].take(ci) + text[li].skip(ci) == text[li]);
    assert(rest.update(li, rest[li] + split[li + 1]) =~= text);
}

/// Where every line holds, as last written, the bytes of its characters, the bytes of
/// the file are those of the text.
pub proof fn file_bytes_of_saved_lines(lines: Seq<Line>)
    requires
        forall|i: int| 0 <= i < lines.len()
            ==> (#[trigger] lines[i]).persist@ == encode_utf8(lines[i].chars@),
    ensures
        file_bytes(lines) == text_bytes(line_chars(lines)),
    decreases lines.len(),
{
    if lines.len() > 0 {
        let shorter = lines.drop_last();
        assert forall|i: int| 0 <= i < shorter.len()
            implies (#[trigger] shorter[i]).persist@ == encode_utf8(shorter[i].chars@) by {
            assert(shorter[i] == lines[i]);
        }
        file_bytes_of_saved_lines(shorter);
        assert(line_chars(lines).drop_last() =~= line_chars(shorter));
    }
}

/// The pieces of `s` between newlines: one more than there are newlines.
pub open spec fn newline_pieces(s: Seq<char>) -> Seq<Seq<char>>
    decreases s.len(),
{
    if s.len() == 0 {
        seq![Seq::<char>::empty()]
    } else {
        let before = newline_pieces(s.drop_last());
        if s.last() == '\n' {
            before.push(Seq::<char>::empty())
        } else {
            before.update(before.len() - 1, before.last().push(s.last()))
        }
    }
}

/// `l` without a carriage return at its end.
pub open spec fn strip_cr(l: Seq<char>) -> Seq<char> {
    if l.len() > 0 && l.last() == '\r' {
        l.drop_last()
    } else {
        l
    }
}

/// The lines of `s`: the pieces between newlines, a carriage return dropped where it stands
/// right before a newline, and no empty piece after a final newline.
pub open spec fn text_lines(s: Seq<char>) -> Seq<Seq<char>> {
    let p = newline_pieces(s);
    let n = if p.last().len() == 0 { p.len() - 1 } else { p.len() as int };
    Seq::new(n as nat, |i: int| if i + 1 < p.len() { strip_cr(p[i]) } else { p[i] })
}

proof fn newline_pieces_nonempty(s: Seq<char>)
    ensures
        newline_pieces(s).len() >= 1,
    decreases s.len(),
{
    if s.len() > 0 {
        newline_pieces_nonempty(s.drop_last());
    }
}

impl Line {
    /// A line of the characters `chars` that holds, as last written, their bytes.
    fn saved(chars: Vec<char>) -> (r: Line)
        ensures
            r.chars@ == chars@,
            r.render@ == expand_tabs(chars@),
            r.persist@ == encode_utf8(chars@),
            !r.dirty,
    {
        let persist = encoded(&chars);
        let mut line = Line { chars, render: Vec::new(), persist, dirty: false };
        line.render();
        line
    }
}

impl File {
    /// Appends the lines of the text `text` just read from disk; none of them is dirty.
    pub fn load(&mut self, text: &str)
        ensures
            final(self).path_of() == old(self).path_of(),
            final(self).lines@.len() == old(self).lines@.len() + text_lines(text@).len(),
            final(self).lines@.take(old(self).lines@.len() as int) == old(self).lines@,
            forall|i: int| 0 <= i < text_lines(text@).len() ==> {
                let l = #[trigger] final(self).lines@[old(self).lines@.len() + i];
                &&& l.chars@ == text_lines(text@)[i]
                &&& l.render@ == expand_tabs(l.chars@)
                &&& l.persist@ == encode_utf8(l.chars@)
                &&& !l.dirty
            },
            clean_lines_saved(old(self).lines@) ==> clean_lines_saved(final(self).lines@),
    {
        let chars = str_chars(text);
        let n = chars.len();
        let base = self.lines.len();
        let mut cur: Vec<char> = Vec::new();
        let mut i: usize = 0;
        proof {
            assert(chars@.take(0) =~= Seq::<char>::empty());
        }
        while i < n
            invariant
                n == chars.len(),
                chars@ == text@,
                i <= n,
                base == old(self).lines@.len(),
                self.path == old(self).path,
                ({
                    let p = newline_pieces(chars@.take(i as int));
                    &&& p.len() >= 1
                    &&& cur@ == p.last()
                    &&& self.lines@.len() == base + p.len() - 1
                    &&& forall|k: int| 0 <= k < p.len() - 1 ==> {
                        let l = #[trigger] self.lines@[base + k];
                        &&& l.chars@ == strip_cr(p[k])
                        &&& l.render@ == expand_tabs(l.chars@)
                        &&& l.persist@ == encode_utf8(l.chars@)
                        &&& !l.dirty
                    }
                }),
                self.lines@.take(base as int) == old(self).lines@,
            decreases n - i,
        {
            let c = chars[i];
            let ghost p = newline_pieces(chars@.take(i as int));
            proof {
                assert(chars@.take(i + 1).drop_last() == chars@.take(i as int));
            }
            if c == '\n' {
                let mut piece = cur;
                cur = Vec::new();
                let len = piece.len();
                if len > 0 && piece[len - 1] == '\r' {
                    piece.pop();
                }
                proof {
                    assert(piece@ == strip_cr(p.last()));
                }
                let line = Line::saved(piece);
                let ghost lines_before = self.lines@;
                self.lines.push(line);
                proof {
                    let q = newline_pieces(chars@.take(i + 1));
                    assert(q == p.push(Seq::<char>::empty()));
                    assert(self.lines@.take(base as int) == lines_before.take(base as int));
                    assert forall|k: int| 0 <= k < q.len() - 1 implies {
                        let l = #[trigger] self.lines@[base + k];
                        &&& l.chars@ == strip_cr(q[k])
                        &&& l.render@ == expand_tabs(l.chars@)
                        &&& l.persist@ == encode_utf8(l.chars@)
                        &&& !l.dirty
                    } by {
                        if k < p.len() - 1 {
                            assert(self.lines@[base + k] == lines_before[base + k]);
                        }
                    }
                }
            } else {
                cur.push(c);
            }
            i = i + 1;
        }
        proof {
            assert(chars@.take(n as int) == chars@);
        }
        let ghost p = newline_pieces(chars@);
        if cur.len() > 0 {
            let line = Line::saved(cur);
            let ghost lines_before = self.lines@;
            self.lines.push(line);
            proof {
                assert(self.lines@.take(base as int) == lines_before.take(base as int));
                assert forall|k: int| 0 <= k < p.len() - 1 implies
                    #[trigger] self.lines@[base + k] == lines_before[base + k] by {}
            }
        }
        proof {
            let t = text_lines(text@);
            assert forall|k: int| 0 <= k < t.len() implies {
                let l = #[trigger] self.lines@[base + k];
                &&& l.chars@ == t[k]
                &&& l.render@ == expand_tabs(l.chars@)
                &&& l.persist@ == encode_utf8(l.chars@)
                &&& !l.dirty
            } by {}
            if clean_lines_saved(old(self).lines@) {
                assert forall|j: int| 0 <= j < self.lines@.len() && !(#[trigger] self.lines@[j]).dirty
                    implies self.lines@[j].persist@ == encode_utf8(self.lines@[j].chars@) by {
                    if j < base {
                        assert(self.lines@[j] == self.lines@.take(base as int)[j]);
                    } else {
                        assert(self.lines@[base + (j - base)] == self.lines@[j]);
                    }
                }
            }
        }
    }
}

/// The screen width of `chars` with one more character `c` after them.
pub proof fn expand_tabs_push(chars: Seq<char>, c: char)
    ensures
        expand_tabs(chars.push(c)).len() == if c == '\t' {
            expand_tabs(chars).len() + (TAB_STOP - expand_tabs(chars).len() % (TAB_STOP as nat))
        } else {
            expand_tabs(chars).len() + 1int
        },
{
    assert(chars.push(c).drop_last() == chars);
}

/// A longer start of a line is at least as wide on screen.
pub proof fn expand_tabs_take_monotone(chars: Seq<char>, i: int, j: int)
    requires
        0 <= i <= j <= chars.len(),
    ensures
        expand_tabs(chars.take(i)).len() <= expand_tabs(chars.take(j)).len(),
    decreases j - i,
{
    if i < j {
        expand_tabs_take_monotone(chars, i, j - 1);
        assert(chars.take(j) == chars.take(j - 1).push(chars[j - 1]));
        expand_tabs_push(chars.take(j - 1), chars[j - 1]);
    }
}

/// Appending a character other than a tab to the screen form of a line gives the screen
/// form of the longer line; a tab would be appended as it is instead of as spaces.
pub proof fn push_keeps_render(chars: Seq<char>, render: Seq<char>, c: char)
    requires
        render == expand_tabs(chars),
        c != '\t',
    ensures
        render.push(c) == expand_tabs(chars.push(c)),
{
    assert(chars.push(c).drop_last() == chars);
}

/// The characters of a file holding the lines `text`, each followed by a newline.
pub open spec fn join_lines(text: Seq<Seq<char>>) -> Seq<char>
    decreases text.len(),
{
    if text.len() == 0 {
        seq![]
    } else {
        join_lines(text.drop_last()) + text.last().push('\n')
    }
}

/// Whether a line can be written and read back as itself: it holds no newline and does not
/// end with a carriage return.
pub open spec fn plain_line(line: Seq<char>) -> bool {
    &&& forall|i: int| 0 <= i < line.len() ==> #[trigger] line[i] != '\n'
    &&& !(line.len() > 0 && line.last() == '\r')
}

proof fn encode_utf8_append(a: Seq<char>, b: Seq<char>)
    ensures
        encode_utf8(a + b) == encode_utf8(a) + encode_utf8(b),
    decreases a.len(),
{
    if a.len() > 0 {
        encode_utf8_append(a.drop_first(), b);
        assert((a + b).drop_first() == a.drop_first() + b);
        assert((a + b)[0] == a[0]);
    } else {
        assert(a + b == b);
    }
}

proof fn newline_pieces_extend(s: Seq<char>, l: Seq<char>)
    requires
        forall|i: int| 0 <= i < l.len() ==> #[trigger] l[i] != '\n',
    ensures
        newline_pieces(s + l) == newline_pieces(s).update(newline_pieces(s).len() - 1,
            newline_pieces(s).last() + l),
    decreases l.len(),
{
    newline_pieces_nonempty(s);
    if l.len() == 0 {
        assert(s + l == s);
        assert(newline_pieces(s).last() + l == newline_pieces(s).last());
        assert(newline_pieces(s).update(newline_pieces(s).len() - 1, newline_pieces(s).last())
            =~= newline_pieces(s));
    } else {
        let shorter = l.drop_last();
        assert forall|i: int| 0 <= i < shorter.len() implies #[trigger] shorter[i] != '\n' by {
            assert(shorter[i] == l[i]);
        }
        newline_pieces_extend(s, shorter);
        assert((s + l).drop_last() == s + shorter);
        assert((s + l).last() == l.last());
        assert(l[l.len() - 1] != '\n');
        let p = newline_pieces(s);
        let before = newline_pieces(s + shorter);
        assert(before.len() == p.len());
        assert(before.last() == p.last() + shorter);
        assert(newline_pieces(s + l) == before.update(before.len() - 1, before.last().push(l.last())));
        assert((p.last() + shorter).push(l.last()) =~= p.last() + l);
        assert(newline_pieces(s).last() + shorter + seq![l.last()] == newline_pieces(s).last() + l);
        assert(newline_pieces(s + l) =~= newline_pieces(s).update(newline_pieces(s).len() - 1,
            newline_pieces(s).last() + l));
    }
}

proof fn newline_pieces_of_joined(text: Seq<Seq<char>>)
    requires
        forall|k: int| 0 <= k < text.len() ==> plain_line(#[trigger] text[k]),
    ensures
        newline_pieces(join_lines(text)) == text.push(Seq::<char>::empty()),
    decreases text.len(),
{
    if text.len() == 0 {
        assert(newline_pieces(join_lines(text)) =~= text.push(Seq::<char>::empty()));
    } else {
        let before = text.drop_last();
        assert forall|k: int| 0 <= k < before.len() implies plain_line(#[trigger] before[k]) by {
            assert(before[k] == text[k]);
        }
        newline_pieces_of_joined(before);
        let l = text.last();
        assert(plain_line(text[text.len() - 1]));
        newline_pieces_extend(join_lines(before), l);
        let s = join_lines(before) + l;
        assert(join_lines(text) == s.push('\n'));
        assert(s.push('\n').drop_last() == s);
        assert(Seq::<char>::empty() + l == l);
        assert(newline_pieces(join_lines(text)) =~= text.push(Seq::<char>::empty()));
    }
}

/// The bytes written for the lines `text` are the UTF-8 encoding of the lines joined, each
/// followed by a newline.
pub proof fn text_bytes_encode_joined(text: Seq<Seq<char>>)
    ensures
        text_bytes(text) == encode_utf8(join_lines(text)),
    decreases text.len(),
{
    if text.len() > 0 {
        text_bytes_encode_joined(text.drop_last());
        encode_utf8_append(join_lines(text.drop_last()), text.last().push('\n'));
        encode_utf8_append(text.last(), seq!['\n']);
        assert(text.last().push('\n') == text.last() + seq!['\n']);
        assert(encode_utf8(seq!['\n']) =~= seq![10u8]) by {
            assert(seq!['\n'].drop_first() =~= Seq::<char>::empty());
            assert(('\n' as u32) == 10u32);
            assert((10u32 & 0x7F) as u8 == 10u8) by (bit_vector);
            assert(encode_utf8(seq!['\n']) == encode_scalar(10u32) + encode_utf8(Seq::<char>::empty()));
        }
    }
}

/// What a save writes reads back as the same lines: the bytes are UTF-8, and the lines of
/// their text are the lines saved, where no line holds a newline or ends with a carriage
/// return.
pub proof fn saved_text_reads_back(text: Seq<Seq<char>>)
    requires
        forall|k: int| 0 <= k < text.len() ==> plain_line(#[trigger] text[k]),
    ensures
        vstd::utf8::valid_utf8(text_bytes(text)),
        text_lines(vstd::utf8::decode_utf8(text_bytes(text))) == text,
{
    text_bytes_encode_joined(text);
    vstd::utf8::encode_utf8_valid_utf8(join_lines(text));
    vstd::utf8::encode_utf8_decode_utf8(join_lines(text));
    newline_pieces_of_joined(text);
    let p = newline_pieces(join_lines(text));
    assert forall|i: int| 0 <= i < text.len() implies #[trigger] text_lines(join_lines(text))[i] == text[i] by {
        assert(p[i] == text[i]);
        assert(plain_line(text[i]));
    }
    assert(text_lines(join_lines(text)) =~= text);
}
} // verus!
