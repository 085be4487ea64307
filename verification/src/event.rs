//! What a decoder of terminal input reports: keys, mouse events and cursor
//! position reports.

use vstd::prelude::*;

verus! {

pub const SHIFT: u8 = 0x01;

pub const CONTROL: u8 = 0x02;

pub const ALT: u8 = 0x04;

pub const META: u8 = 0x08;

/// The modifier keys held with a key or a mouse event, one bit each.
#[derive(Clone, Copy, Debug, PartialEq, Eq, Structural)]
pub struct KeyModifiers {
    pub bits: u8,
}

impl KeyModifiers {
    pub open spec fn spec_empty() -> KeyModifiers {
        KeyModifiers { bits: 0 }
    }

    #[verifier::when_used_as_spec(spec_empty)]
    pub fn empty() -> (m: KeyModifiers)
        ensures
            m == KeyModifiers::spec_empty(),
    {
        KeyModifiers { bits: 0 }
    }

    pub fn from_bits(bits: u8) -> (m: KeyModifiers)
        ensures
            m.bits == bits,
    {
        KeyModifiers { bits }
    }

    pub fn is_empty(self) -> (b: bool)
        ensures
            b == (self.bits == 0),
    {
        self.bits == 0
    }
}

/// A key.
#[derive(Clone, Copy, Debug, PartialEq, Eq, Structural)]
pub enum KeyCode {
    Backspace,
    Enter,
    Left,
    Right,
    Up,
    Down,
    Home,
    End,
    PageUp,
    PageDown,
    Tab,
    BackTab,
    Delete,
    Insert,
    /// A function key, by its number.
    F(u8),
    Char(char),
    Null,
    Esc,
}

#[verifier::external_type_specification]
#[verifier::external_body]
pub struct ExMouse(anes::parser::Mouse);

/// One decoded piece of terminal input.
#[derive(Clone, Copy, Debug, PartialEq, Eq)]
pub enum Sequence {
    Key(KeyCode, KeyModifiers),
    /// A mouse event, as the decoder reports it. Nothing here acts on what
    /// the mouse did: the event is carried along as it is.
    Mouse(anes::parser::Mouse, KeyModifiers),
    /// A report of the cursor's column and row, both counted from 1.
    CursorPosition(u16, u16),
}

} // verus!
