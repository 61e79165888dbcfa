//! The input decoder's rules: which key press means which key event.

use vstd::prelude::*;
use crate::controller::Key;

verus! {

/// One key press as the terminal reports it, before it is given a meaning.
#[derive(Clone, Copy, Debug, PartialEq, Eq)]
pub enum RawKey {
    /// A character key, pressed alone or with shift.
    Char(char),
    /// A character key pressed together with control.
    Ctrl(char),
    Enter,
    Backspace,
    Delete,
    Up,
    Down,
    Esc,
    /// Any other key.
    Other,
}

/// Whether `c` is an ASCII control character.
pub open spec fn is_control(c: char) -> bool {
    (c as u32) < 32 || c as u32 == 127
}

/// The meaning of a key press, or `None` for a press that means nothing to
/// the picker. Line feed and carriage return are enter, escape and control-C
/// cancel, backspace and delete erase, and every character that is no control
/// character is typed.
pub open spec fn decode_spec(raw: RawKey) -> Option<Key> {
    match raw {
        RawKey::Char(c) => if c == '\n' || c == '\r' {
            Some(Key::Enter)
        } else if c as u32 == 127 || c as u32 == 8 {
            Some(Key::Backspace)
        } else if c as u32 == 27 || c as u32 == 3 {
            Some(Key::Cancel)
        } else if is_control(c) {
            None
        } else {
            Some(Key::Char(c))
        },
        RawKey::Ctrl(c) => if c == 'c' || c == 'C' {
            Some(Key::Cancel)
        } else {
            None
        },
        RawKey::Enter => Some(Key::Enter),
        RawKey::Backspace | RawKey::Delete => Some(Key::Backspace),
        RawKey::Up => Some(Key::Up),
        RawKey::Down => Some(Key::Down),
        RawKey::Esc => Some(Key::Cancel),
        RawKey::Other => None,
    }
}

/// Gives a key press its meaning.
pub fn decode(raw: RawKey) -> (key: Option<Key>)
    ensures
        key == decode_spec(raw),
{
    match raw {
        RawKey::Char(c) => {
            let code: u32 = c as u32;
            if c == '\n' || c == '\r' {
                Some(Key::Enter)
            } else if code == 127 || code == 8 {
                Some(Key::Backspace)
            } else if code == 27 || code == 3 {
                Some(Key::Cancel)
            } else if code < 32 {
                None
            } else {
                Some(Key::Char(c))
            }
        },
        RawKey::Ctrl(c) => {
            if c == 'c' || c == 'C' {
                Some(Key::Cancel)
            } else {
                None
            }
        },
        RawKey::Enter => Some(Key::Enter),
        RawKey::Backspace => Some(Key::Backspace),
        RawKey::Delete => Some(Key::Backspace),
        RawKey::Up => Some(Key::Up),
        RawKey::Down => Some(Key::Down),
        RawKey::Esc => Some(Key::Cancel),
        RawKey::Other => None,
    }
}

} // verus!
