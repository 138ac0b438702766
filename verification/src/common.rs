//! Keys, the byte sequences the terminal sends for them, and the reasons to stop.
use vstd::prelude::*;

verus! {

/// The byte the terminal sends for `c` pressed together with the control key.
pub fn ctrl_key(c: u8) -> (r: u8)
    ensures
        r == c & 0x1f,
        r < 32,
{
    proof {
        assert(c & 0x1f < 32) by (bit_vector);
    }
    c & 0x1f
}

/// Why the editor stops.
#[derive(Debug)]
pub enum DieReason {
    Panic(String),
    FFI(String),
    Quit,
}

/// A key that moves the cursor.
#[derive(Debug, Clone, Copy, PartialEq, Eq, Structural)]
pub enum MoveKey {
    ArrowUp,
    ArrowDown,
    ArrowRight,
    ArrowLeft,
    Home,
    End,
    PageUp,
    PageDown,
}

/// A key as the editor understands it.
#[derive(Debug, Clone, Copy, PartialEq, Eq, Structural)]
pub enum Key {
    Char(u8),
    Move(MoveKey),
    Delete,
    BackSpace,
    Quit,
    ESC,
    Save,
    SaveAs,
    Open,
    Enter,
}

pub open spec fn ESC_BYTE() -> u8 { 0x1b }

/// The key of a sequence `ESC [ d ~`, for the digit `d`.
pub open spec fn tilde_key(d: u8) -> Option<Key> {
    if d == 0x31 || d == 0x37 {
        Some(Key::Move(MoveKey::Home))
    } else if d == 0x34 || d == 0x38 {
        Some(Key::Move(MoveKey::End))
    } else if d == 0x33 {
        Some(Key::Delete)
    } else if d == 0x35 {
        Some(Key::Move(MoveKey::PageUp))
    } else if d == 0x36 {
        Some(Key::Move(MoveKey::PageDown))
    } else {
        None
    }
}

/// The key of a sequence `ESC [ c`, for a letter `c`.
pub open spec fn bracket_letter_key(c: u8) -> Option<Key> {
    if c == 0x41 {
        Some(Key::Move(MoveKey::ArrowUp))
    } else if c == 0x42 {
        Some(Key::Move(MoveKey::ArrowDown))
    } else if c == 0x43 {
        Some(Key::Move(MoveKey::ArrowRight))
    } else if c == 0x44 {
        Some(Key::Move(MoveKey::ArrowLeft))
    } else if c == 0x46 {
        Some(Key::Move(MoveKey::End))
    } else if c == 0x48 {
        Some(Key::Move(MoveKey::Home))
    } else {
        None
    }
}

/// The key of a single byte that is not the escape byte.
pub open spec fn single_byte_key(b: u8) -> Key {
    if b == 8 || b == 127 {
        Key::BackSpace
    } else if b == 12 {
        Key::ESC
    } else if b == 17 {
        Key::Quit
    } else if b == 19 {
        Key::Save
    } else if b == 15 {
        Key::Open
    } else if b == 23 {
        Key::SaveAs
    } else if b == 13 {
        Key::Enter
    } else {
        Key::Char(b)
    }
}

/// The key that the bytes at the start of `bytes` stand for, with the number of bytes it
/// takes, or `None` where more bytes must be read before the key is known.
///
/// A lone byte is a key of its own, except the escape byte, which opens a sequence:
/// `ESC [ d ~` (a digit), `ESC [ c` (a letter), `ESC O H` and `ESC O F`. A sequence
/// that goes astray at some byte is read up to that byte and stands for `ESC`.
pub open spec fn decode_spec(bytes: Seq<u8>) -> Option<(Key, nat)> {
    if bytes.len() == 0 {
        None
    } else if bytes[0] != ESC_BYTE() {
        Some((single_byte_key(bytes[0]), 1))
    } else if bytes.len() < 2 {
        None
    } else if bytes[1] == 0x5b {
        if bytes.len() < 3 {
            None
        } else if tilde_key(bytes[2]) is Some {
            if bytes.len() < 4 {
                None
            } else if bytes[3] == 0x7e {
                Some((tilde_key(bytes[2]).unwrap(), 4))
            } else {
                Some((Key::ESC, 4))
            }
        } else if bracket_letter_key(bytes[2]) is Some {
            Some((bracket_letter_key(bytes[2]).unwrap(), 3))
        } else {
            Some((Key::ESC, 3))
        }
    } else if bytes[1] == 0x4f {
        if bytes.len() < 3 {
            None
        } else if bytes[2] == 0x48 {
            Some((Key::Move(MoveKey::Home), 3))
        } else if bytes[2] == 0x46 {
            Some((Key::Move(MoveKey::End), 3))
        } else {
            Some((Key::ESC, 3))
        }
    } else {
        Some((Key::ESC, 2))
    }
}

fn tilde_key_of(d: u8) -> (r: Option<Key>)
    ensures
        r == tilde_key(d),
{
    if d == 0x31 || d == 0x37 {
        Some(Key::Move(MoveKey::Home))
    } else if d == 0x34 || d == 0x38 {
        Some(Key::Move(MoveKey::End))
    } else if d == 0x33 {
        Some(Key::Delete)
    } else if d == 0x35 {
        Some(Key::Move(MoveKey::PageUp))
    } else if d == 0x36 {
        Some(Key::Move(MoveKey::PageDown))
    } else {
        None
    }
}

fn bracket_letter_key_of(c: u8) -> (r: Option<Key>)
    ensures
        r == bracket_letter_key(c),
{
    if c == 0x41 {
        Some(Key::Move(MoveKey::ArrowUp))
    } else if c == 0x42 {
        Some(Key::Move(MoveKey::ArrowDown))
    } else if c == 0x43 {
        Some(Key::Move(MoveKey::ArrowRight))
    } else if c == 0x44 {
        Some(Key::Move(MoveKey::ArrowLeft))
    } else if c == 0x46 {
        Some(Key::Move(MoveKey::End))
    } else if c == 0x48 {
        Some(Key::Move(MoveKey::Home))
    } else {
        None
    }
}

/// Reads the key that the bytes at the start of `bytes` stand for, as the terminal sends
/// them one by one; `None` while the bytes read so far do not yet settle the key.
pub fn decode_key(bytes: &[u8]) -> (r: Option<(Key, usize)>)
    ensures
        match r {
            Some((k, n)) => decode_spec(bytes@) == Some((k, n as nat)),
            None => decode_spec(bytes@) is None,
        },
{
    let len = bytes.len();
    if len == 0 {
        return None;
    }
    let b0 = bytes[0];
    if b0 != 0x1b {
        let k = if b0 == ctrl_key(0x68) || b0 == 8 || b0 == 127 {
            Key::BackSpace
        } else if b0 == ctrl_key(0x6c) {
            Key::ESC
        } else if b0 == ctrl_key(0x71) {
            Key::Quit
        } else if b0 == ctrl_key(0x73) {
            Key::Save
        } else if b0 == ctrl_key(0x6f) {
            Key::Open
        } else if b0 == ctrl_key(0x77) {
            Key::SaveAs
        } else if b0 == 13 {
            Key::Enter
        } else {
            Key::Char(b0)
        };
        proof {
            assert(0x68u8 & 0x1f == 8 && 0x6cu8 & 0x1f == 12 && 0x71u8 & 0x1f == 17
                && 0x73u8 & 0x1f == 19 && 0x6fu8 & 0x1f == 15 && 0x77u8 & 0x1f == 23)
                by (bit_vector);
        }
        return Some((k, 1));
    }
    if len < 2 {
        return None;
    }
    let b1 = bytes[1];
    if b1 == 0x5b {
        if len < 3 {
            return None;
        }
        let b2 = bytes[2];
        match tilde_key_of(b2) {
            Some(k) => {
                if len < 4 {
                    None
                } else if bytes[3] == 0x7e {
                    Some((k, 4))
                } else {
                    Some((Key::ESC, 4))
                }
            },
            None => match bracket_letter_key_of(b2) {
                Some(k) => Some((k, 3)),
                None => Some((Key::ESC, 3)),
            },
        }
    } else if b1 == 0x4f {
        if len < 3 {
            return None;
        }
        let b2 = bytes[2];
        if b2 == 0x48 {
            Some((Key::Move(MoveKey::Home), 3))
        } else if b2 == 0x46 {
            Some((Key::Move(MoveKey::End), 3))
        } else {
            Some((Key::ESC, 3))
        }
    } else {
        Some((Key::ESC, 2))
    }
}

/// Once the bytes read settle a key, reading more changes neither the key nor how many
/// bytes it takes, and it takes no more bytes than were read.
pub proof fn decode_is_settled_by_prefix(bytes: Seq<u8>, more: Seq<u8>)
    requires
        decode_spec(bytes) is Some,
    ensures
        decode_spec(bytes + more) == decode_spec(bytes),
        1 <= decode_spec(bytes).unwrap().1 <= bytes.len(),
{
    let all = bytes + more;
    assert(forall|i: int| 0 <= i < bytes.len() ==> all[i] == bytes[i]);
}

/// Four bytes always settle a key.
pub proof fn decode_needs_at_most_four_bytes(bytes: Seq<u8>)
    requires
        bytes.len() >= 4,
    ensures
        decode_spec(bytes) is Some,
{
}


/// A byte that is no control key of the editor and not the escape byte is typed as it is:
/// it stands for the character key of that byte and takes one byte, whatever follows it.
/// The control keys are backspace (8 and 127), refresh (12), enter (13), open (15), quit
/// (17), save (19) and save as (23).
pub proof fn plain_bytes_are_typed(bytes: Seq<u8>)
    requires
        bytes.len() >= 1,
        bytes[0] != 27 && bytes[0] != 8 && bytes[0] != 12 && bytes[0] != 13 && bytes[0] != 15,
        bytes[0] != 17 && bytes[0] != 19 && bytes[0] != 23 && bytes[0] != 127,
    ensures
        decode_spec(bytes) == Some((Key::Char(bytes[0]), 1nat)),
{
}

/// The control bytes stand for the editor's keys, each taking one byte.
pub proof fn control_bytes_are_keys(bytes: Seq<u8>)
    requires
        bytes.len() >= 1,
    ensures
        bytes[0] == 8 || bytes[0] == 127 ==> decode_spec(bytes) == Some((Key::BackSpace, 1nat)),
        bytes[0] == 12 ==> decode_spec(bytes) == Some((Key::ESC, 1nat)),
        bytes[0] == 13 ==> decode_spec(bytes) == Some((Key::Enter, 1nat)),
        bytes[0] == 15 ==> decode_spec(bytes) == Some((Key::Open, 1nat)),
        bytes[0] == 17 ==> decode_spec(bytes) == Some((Key::Quit, 1nat)),
        bytes[0] == 19 ==> decode_spec(bytes) == Some((Key::Save, 1nat)),
        bytes[0] == 23 ==> decode_spec(bytes) == Some((Key::SaveAs, 1nat)),
        bytes[0] == 27 && bytes.len() == 1 ==> decode_spec(bytes) is None,
{
}

/// The escape sequences the terminal sends for the arrows, Home, End, Delete, Page Up and
/// Page Down stand for those keys and take the whole sequence.
pub proof fn escape_sequences_are_keys(a: u8, b: u8, c: u8)
    ensures
        decode_spec(seq![27u8, 91u8, 65u8]) == Some((Key::Move(MoveKey::ArrowUp), 3nat)),
        decode_spec(seq![27u8, 91u8, 66u8]) == Some((Key::Move(MoveKey::ArrowDown), 3nat)),
        decode_spec(seq![27u8, 91u8, 67u8]) == Some((Key::Move(MoveKey::ArrowRight), 3nat)),
        decode_spec(seq![27u8, 91u8, 68u8]) == Some((Key::Move(MoveKey::ArrowLeft), 3nat)),
        decode_spec(seq![27u8, 91u8, 70u8]) == Some((Key::Move(MoveKey::End), 3nat)),
        decode_spec(seq![27u8, 91u8, 72u8]) == Some((Key::Move(MoveKey::Home), 3nat)),
        decode_spec(seq![27u8, 79u8, 72u8]) == Some((Key::Move(MoveKey::Home), 3nat)),
        decode_spec(seq![27u8, 79u8, 70u8]) == Some((Key::Move(MoveKey::End), 3nat)),
        decode_spec(seq![27u8, 91u8, 49u8, 126u8]) == Some((Key::Move(MoveKey::Home), 4nat)),
        decode_spec(seq![27u8, 91u8, 55u8, 126u8]) == Some((Key::Move(MoveKey::Home), 4nat)),
        decode_spec(seq![27u8, 91u8, 52u8, 126u8]) == Some((Key::Move(MoveKey::End), 4nat)),
        decode_spec(seq![27u8, 91u8, 56u8, 126u8]) == Some((Key::Move(MoveKey::End), 4nat)),
        decode_spec(seq![27u8, 91u8, 51u8, 126u8]) == Some((Key::Delete, 4nat)),
        decode_spec(seq![27u8, 91u8, 53u8, 126u8]) == Some((Key::Move(MoveKey::PageUp), 4nat)),
        decode_spec(seq![27u8, 91u8, 54u8, 126u8]) == Some((Key::Move(MoveKey::PageDown), 4nat)),
        a != 91 && a != 79 ==> decode_spec(seq![27u8, a]) == Some((Key::ESC, 2nat)),
        (49 <= b <= 56 && b != 50) && c != 126 ==> decode_spec(seq![27u8, 91u8, b, c]) == Some((Key::ESC, 4nat)),
{
}
} // verus!
