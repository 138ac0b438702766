//! A message with a prompt after it, shown for a timeout of its own.
use vstd::prelude::*;
use std::time::{SystemTime, SystemTimeError};
use crate::clock;
use crate::text::chars_to_string;
use crate::editor::status_bar::{shown_message, MESSAGE_TIMEOUT_NANOS};

verus! {

/// A message, the prompt after it, how long it stays shown (in nanoseconds), and when it
/// was set.
pub struct MessageStatus {
    pub msg: String,
    pub prompt: Vec<char>,
    pub timeout: u128,
    pub init: SystemTime,
}

impl MessageStatus {
    /// Shows `msg` from now on for five seconds, with an empty prompt; see `new_at`.
    pub fn new(msg: &str) -> (r: Self)
        ensures
            r.msg@ == msg@,
            r.prompt@.len() == 0,
            r.timeout == MESSAGE_TIMEOUT_NANOS,
    {
        MessageStatus::new_at(msg, clock::now())
    }

    /// Shows `msg` from the time `now` on for five seconds, with an empty prompt.
    pub fn new_at(msg: &str, now: SystemTime) -> (r: Self)
        ensures
            r.msg@ == msg@,
            r.prompt@.len() == 0,
            r.timeout == MESSAGE_TIMEOUT_NANOS,
            r.init == now,
    {
        Self { msg: String::from_str(msg), prompt: vec![], timeout: MESSAGE_TIMEOUT_NANOS, init: now }
    }

    /// Shows `msg` from now on for `timeout` nanoseconds.
    pub fn set(&mut self, msg: &str, timeout: u128)
        ensures
            final(self).msg@ == msg@,
            final(self).timeout == timeout,
            final(self).prompt == old(self).prompt,
    {
        self.set_message(msg);
        self.set_timeout(timeout)
    }

    /// Shows `msg` from now on; see `set_message_at`.
    pub fn set_message(&mut self, msg: &str)
        ensures
            final(self).msg@ == msg@,
            final(self).timeout == old(self).timeout,
            final(self).prompt == old(self).prompt,
    {
        self.set_message_at(msg, clock::now())
    }

    /// Shows `msg` from the time `now` on.
    pub fn set_message_at(&mut self, msg: &str, now: SystemTime)
        ensures
            final(self).msg@ == msg@,
            final(self).timeout == old(self).timeout,
            final(self).prompt == old(self).prompt,
            final(self).init == now,
    {
        self.msg = String::from_str(msg);
        self.init = now
    }

    /// Shows the message for `timeout` nanoseconds after it was set.
    pub fn set_timeout(&mut self, timeout: u128)
        ensures
            final(self).timeout == timeout,
            final(self).msg == old(self).msg,
            final(self).prompt == old(self).prompt,
            final(self).init == old(self).init,
    {
        self.timeout = timeout
    }

    /// How long the message stays shown, in nanoseconds.
    pub fn timeout(&self) -> (r: u128)
        ensures
            r == self.timeout,
    {
        self.timeout
    }

    /// The text shown for the message set `elapsed` nanoseconds ago: the message and the
    /// prompt within the timeout, nothing after.
    pub fn message_after(&self, elapsed: u128) -> (r: String)
        ensures
            r@ == shown_message(self.msg@, self.prompt@, elapsed, self.timeout),
    {
        if elapsed < self.timeout() {
            let mut shown = self.msg.clone();
            let prompt = chars_to_string(self.prompt.as_slice());
            shown.append(prompt.as_str());
            shown
        } else {
            String::new()
        }
    }

    /// The text shown now: `message_after` the time since the message was set; an error
    /// where the clock went back.
    pub fn message(&self) -> (r: Result<String, SystemTimeError>)
        ensures
            r matches Ok(s) ==> s@ == self.msg@ + self.prompt@ || s@.len() == 0,
    {
        let elapsed = clock::duration_since(&clock::now(), &self.init)?;
        Ok(self.message_after(clock::as_nanos(&elapsed)))
    }

    /// Appends `c` to the prompt.
    pub fn set_prompt(&mut self, c: char)
        ensures
            final(self).prompt@ == old(self).prompt@.push(c),
            final(self).msg == old(self).msg,
            final(self).timeout == old(self).timeout,
            final(self).init == old(self).init,
    {
        self.prompt.push(c);
    }

    /// Empties the prompt.
    pub fn empty_prompt(&mut self)
        ensures
            final(self).prompt@.len() == 0,
            final(self).msg == old(self).msg,
            final(self).timeout == old(self).timeout,
            final(self).init == old(self).init,
    {
        self.prompt.clear()
    }
}

} // verus!
