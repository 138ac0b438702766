//! The status bar: a message, and after it a prompt that the user edits.
use vstd::prelude::*;
use vstd::utf8::encode_utf8;
use std::time::{SystemTime, SystemTimeError};
use crate::clock;
use crate::text::{chars_to_string, str_chars};

verus! {

/// The status bar: the message, the prompt after it, and when the message was set.
pub struct StatusBar {
    pub msg: String,
    pub prompt: Vec<char>,
    pub init: SystemTime,
}

/// How long a message stays shown on the status bar, in nanoseconds: five seconds.
pub const MESSAGE_TIMEOUT_NANOS: u128 = 5_000_000_000;

/// The width of `s` in bytes, the unit in which the cursor's column counts on the status bar.
pub open spec fn byte_width(s: Seq<char>) -> nat {
    encode_utf8(s).len()
}

/// The position in the prompt of the status bar column `cursor_x`, past a message `msg_width`
/// bytes wide: none before the prompt starts.
pub open spec fn prompt_position(msg_width: nat, cursor_x: usize) -> int {
    if cursor_x > msg_width {
        cursor_x - msg_width
    } else {
        0
    }
}

/// What the status bar shows: the message and the prompt while the message is younger than
/// the timeout, nothing after.
pub open spec fn shown_message(msg: Seq<char>, prompt: Seq<char>, elapsed: u128, timeout: u128) -> Seq<char> {
    if elapsed < timeout {
        msg + prompt
    } else {
        Seq::<char>::empty()
    }
}

impl StatusBar {
    /// The message and the prompt after it.
    pub open spec fn full_text(&self) -> Seq<char> {
        self.msg@ + self.prompt@
    }

    /// The position in the prompt of the column `cursor_x`.
    pub open spec fn position(&self, cursor_x: usize) -> int {
        prompt_position(byte_width(self.msg@), cursor_x)
    }

    /// A status bar showing `msg`, set now, with an empty prompt; see `new_at`.
    pub fn new(msg: &str) -> (r: Self)
        ensures
            r.msg@ == msg@,
            r.prompt@.len() == 0,
    {
        StatusBar::new_at(msg, clock::now())
    }

    /// A status bar showing `msg`, set at the time `now`, with an empty prompt.
    pub fn new_at(msg: &str, now: SystemTime) -> (r: Self)
        ensures
            r.msg@ == msg@,
            r.prompt@.len() == 0,
            r.init == now,
    {
        Self { msg: String::from_str(msg), prompt: Vec::new(), init: now }
    }

    /// Replaces the prompt by the characters of `prompt`.
    pub fn set_prompt(&mut self, prompt: String)
        ensures
            final(self).prompt@ == prompt@,
            final(self).msg == old(self).msg,
            final(self).init == old(self).init,
    {
        self.prompt = str_chars(prompt.as_str());
    }

    /// Shows `msg` from now on, with an empty prompt; see `set_message_at`.
    pub fn set_message(&mut self, msg: String)
        ensures
            final(self).msg@ == msg@,
            final(self).prompt@.len() == 0,
    {
        self.set_message_at(msg, clock::now())
    }

    /// Shows `msg` from the time `now` on, with an empty prompt.
    pub fn set_message_at(&mut self, msg: String, now: SystemTime)
        ensures
            final(self).msg@ == msg@,
            final(self).prompt@.len() == 0,
            final(self).init == now,
    {
        self.prompt.clear();
        self.msg = msg;
        self.init = now;
    }

    /// The text shown for the message set `elapsed` nanoseconds ago: the message and the
    /// prompt within the five seconds a message stays, nothing after.
    pub fn message_after(&self, elapsed: u128) -> (r: String)
        ensures
            r@ == shown_message(self.msg@, self.prompt@, elapsed, MESSAGE_TIMEOUT_NANOS),
    {
        if elapsed < StatusBar::default_timeout() {
            let mut shown = self.msg.clone();
            let prompt = chars_to_string(self.prompt.as_slice());
            shown.append(prompt.as_str());
            shown
        } else {
            String::new()
        }
    }

    /// The text the status bar shows now: `message_after` the time since the message was
    /// set; an error where the clock went back.
    pub fn message(&self) -> (r: Result<String, SystemTimeError>)
        ensures
            r matches Ok(s) ==> s@ == self.full_text() || s@.len() == 0,
    {
        let elapsed = clock::duration_since(&clock::now(), &self.init)?;
        Ok(self.message_after(clock::as_nanos(&elapsed)))
    }

    /// Puts `c` in the prompt at the column `cursor_x`.
    pub fn prompt_insert(&mut self, c: char, cursor_x: usize)
        requires
            old(self).position(cursor_x) <= old(self).prompt@.len(),
        ensures
            final(self).prompt@ == old(self).prompt@.insert(old(self).position(cursor_x), c),
            final(self).msg == old(self).msg,
            final(self).init == old(self).init,
    {
        let prompt_index = self.prompt_index(cursor_x);
        self.prompt.insert(prompt_index, c);
    }

    /// Takes out the character of the prompt at the column `cursor_x`, if there is one.
    pub fn prompt_delete(&mut self, cursor_x: usize) -> (r: Option<char>)
        ensures
            final(self).msg == old(self).msg,
            final(self).init == old(self).init,
            ({
                let p = old(self).position(cursor_x);
                if 0 < old(self).prompt@.len() && p < old(self).prompt@.len() {
                    r == Some(old(self).prompt@[p]) && final(self).prompt@ == old(self).prompt@.remove(p)
                } else {
                    r is None && final(self).prompt == old(self).prompt
                }
            }),
    {
        let prompt_len = self.prompt.len();
        if prompt_len == 0 {
            return None;
        }
        let prompt_index = self.prompt_index(cursor_x);
        if prompt_index < prompt_len {
            return Some(self.prompt.remove(prompt_index));
        }
        return None;
    }

    /// Takes out the character of the prompt before the column `cursor_x`, if there is one.
    pub fn prompt_backspace(&mut self, cursor_x: usize) -> (r: Option<char>)
        requires
            old(self).prompt@.len() > 0 ==> old(self).position(cursor_x) <= old(self).prompt@.len(),
        ensures
            final(self).msg == old(self).msg,
            final(self).init == old(self).init,
            ({
                let p = old(self).position(cursor_x);
                if 0 < old(self).prompt@.len() && p > 0 {
                    r == Some(old(self).prompt@[p - 1]) && final(self).prompt@ == old(self).prompt@.remove(p - 1)
                } else {
                    r is None && final(self).prompt == old(self).prompt
                }
            }),
    {
        if self.prompt.len() == 0 {
            return None;
        }
        let prompt_index = self.prompt_index(cursor_x);
        if prompt_index > 0 {
            return Some(self.prompt.remove(prompt_index - 1));
        }
        return None;
    }

    /// Hands out the prompt and empties it.
    pub fn take_prompt(&mut self) -> (r: String)
        ensures
            r@ == old(self).prompt@,
            final(self).prompt@.len() == 0,
            final(self).msg == old(self).msg,
            final(self).init == old(self).init,
    {
        let prompt = chars_to_string(self.prompt.as_slice());
        self.prompt.clear();
        prompt
    }

    /// The position in the prompt of the column `cursor_x`: none before the prompt starts.
    pub fn prompt_index(&self, cursor_x: usize) -> (r: usize)
        ensures
            r == self.position(cursor_x),
    {
        let msg_len = self.msg.as_str().as_bytes().len();
        if cursor_x > msg_len {
            return cursor_x - msg_len;
        }
        return 0;
    }

    /// Empties both the message and the prompt.
    pub fn clear(&mut self)
        ensures
            final(self).msg@.len() == 0,
            final(self).prompt@.len() == 0,
            final(self).init == old(self).init,
    {
        self.prompt.clear();
        self.msg = String::new();
    }

    /// Counts the message's age from now.
    pub fn set_init(&mut self)
        ensures
            final(self).msg == old(self).msg,
            final(self).prompt == old(self).prompt,
    {
        self.init = clock::now();
    }

    /// How long a message stays shown, in nanoseconds: five seconds.
    fn default_timeout() -> (r: u128)
        ensures
            r == MESSAGE_TIMEOUT_NANOS,
    {
        MESSAGE_TIMEOUT_NANOS
    }
}

/// Inserting a character in the prompt at a column past the message, then deleting
/// backwards from the next column, takes that character out again and leaves the prompt as
/// it was.
pub proof fn backspace_undoes_insert(msg_width: nat, prompt: Seq<char>, c: char, cursor_x: usize)
    requires
        cursor_x >= msg_width,
        cursor_x < usize::MAX,
        prompt_position(msg_width, cursor_x) <= prompt.len(),
    ensures
        ({
            let inserted = prompt.insert(prompt_position(msg_width, cursor_x), c);
            let p = prompt_position(msg_width, (cursor_x + 1) as usize);
            &&& 0 < inserted.len() && 0 < p <= inserted.len()
            &&& inserted[p - 1] == c
            &&& inserted.remove(p - 1) == prompt
        }),
{
    let i = prompt_position(msg_width, cursor_x);
    let inserted = prompt.insert(i, c);
    assert(inserted.remove(i) =~= prompt);
}


/// A message stays shown, with its prompt after it, for the first five seconds after it was
/// set, and from then on nothing is shown.
pub proof fn messages_last_five_seconds(msg: Seq<char>, prompt: Seq<char>, elapsed: u128)
    ensures
        elapsed < 5_000_000_000 ==> shown_message(msg, prompt, elapsed, MESSAGE_TIMEOUT_NANOS) == msg + prompt,
        elapsed >= 5_000_000_000 ==> shown_message(msg, prompt, elapsed, MESSAGE_TIMEOUT_NANOS).len() == 0,
{
}
} // verus!
