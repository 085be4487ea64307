//! Control characters.
//!
//! A terminal does not send `Ctrl` and a letter as a modifier and a key: it
//! sends one ASCII control character, and some of those have a meaning of
//! their own (`Ctrl-M` is carriage return). A decoder reports them as plain
//! key codes. This module tells which key codes stand for such a chord.

use crate::event::{KeyCode, Sequence};
use vstd::prelude::*;

verus! {

/// The letter that was pressed together with `Ctrl`.
///
/// ASCII has more control codes than these: the type is limited to the
/// chords of `Ctrl` and a letter.
#[derive(Clone, Copy, Debug, PartialEq, Eq, Structural)]
pub enum Ctrl {
    A,
    B,
    C,
    D,
    E,
    F,
    G,
    H,
    /// Also known as "Tab". Some terminals send nothing else for `Ctrl-I`.
    I,
    /// Not seen in practice: a decoder reports it as `Enter`.
    J,
    K,
    L,
    /// Carriage return. Not seen in practice: a decoder reports it as
    /// `Enter`.
    M,
    N,
    O,
    P,
    Q,
    R,
    S,
    T,
    U,
    V,
    W,
    X,
    Y,
    Z,
}

impl Ctrl {
    /// The place of the letter in the alphabet, counted from 1: the code
    /// point of the control character that the chord sends.
    pub open spec fn code(self) -> int {
        match self {
            Ctrl::A => 1,
            Ctrl::B => 2,
            Ctrl::C => 3,
            Ctrl::D => 4,
            Ctrl::E => 5,
            Ctrl::F => 6,
            Ctrl::G => 7,
            Ctrl::H => 8,
            Ctrl::I => 9,
            Ctrl::J => 10,
            Ctrl::K => 11,
            Ctrl::L => 12,
            Ctrl::M => 13,
            Ctrl::N => 14,
            Ctrl::O => 15,
            Ctrl::P => 16,
            Ctrl::Q => 17,
            Ctrl::R => 18,
            Ctrl::S => 19,
            Ctrl::T => 20,
            Ctrl::U => 21,
            Ctrl::V => 22,
            Ctrl::W => 23,
            Ctrl::X => 24,
            Ctrl::Y => 25,
            Ctrl::Z => 26,
        }
    }

    /// The chord that sends the control character with code point `code`,
    /// if there is one.
    pub open spec fn spec_from_code(code: int) -> Option<Ctrl> {
        if code == 1 {
            Some(Ctrl::A)
        } else if code == 2 {
            Some(Ctrl::B)
        } else if code == 3 {
            Some(Ctrl::C)
        } else if code == 4 {
            Some(Ctrl::D)
        } else if code == 5 {
            Some(Ctrl::E)
        } else if code == 6 {
            Some(Ctrl::F)
        } else if code == 7 {
            Some(Ctrl::G)
        } else if code == 8 {
            Some(Ctrl::H)
        } else if code == 9 {
            Some(Ctrl::I)
        } else if code == 10 {
            Some(Ctrl::J)
        } else if code == 11 {
            Some(Ctrl::K)
        } else if code == 12 {
            Some(Ctrl::L)
        } else if code == 13 {
            Some(Ctrl::M)
        } else if code == 14 {
            Some(Ctrl::N)
        } else if code == 15 {
            Some(Ctrl::O)
        } else if code == 16 {
            Some(Ctrl::P)
        } else if code == 17 {
            Some(Ctrl::Q)
        } else if code == 18 {
            Some(Ctrl::R)
        } else if code == 19 {
            Some(Ctrl::S)
        } else if code == 20 {
            Some(Ctrl::T)
        } else if code == 21 {
            Some(Ctrl::U)
        } else if code == 22 {
            Some(Ctrl::V)
        } else if code == 23 {
            Some(Ctrl::W)
        } else if code == 24 {
            Some(Ctrl::X)
        } else if code == 25 {
            Some(Ctrl::Y)
        } else if code == 26 {
            Some(Ctrl::Z)
        } else {
            None
        }
    }

    /// The chord that sends the control character with code point `code`:
    /// `A` for 1 up to `Z` for 26, and none for any other code point.
    pub fn from_code(code: u32) -> (letter: Option<Ctrl>)
        ensures
            letter == Ctrl::spec_from_code(code as int),
            letter matches Some(l) ==> l.code() == code,
            letter is Some <==> 1 <= code <= 26,
    {
        let letter = match code {
            1 => Ctrl::A,
            2 => Ctrl::B,
            3 => Ctrl::C,
            4 => Ctrl::D,
            5 => Ctrl::E,
            6 => Ctrl::F,
            7 => Ctrl::G,
            8 => Ctrl::H,
            9 => Ctrl::I,
            10 => Ctrl::J,
            11 => Ctrl::K,
            12 => Ctrl::L,
            13 => Ctrl::M,
            14 => Ctrl::N,
            15 => Ctrl::O,
            16 => Ctrl::P,
            17 => Ctrl::Q,
            18 => Ctrl::R,
            19 => Ctrl::S,
            20 => Ctrl::T,
            21 => Ctrl::U,
            22 => Ctrl::V,
            23 => Ctrl::W,
            24 => Ctrl::X,
            25 => Ctrl::Y,
            26 => Ctrl::Z,
            _ => {
                return None;
            },
        };
        Some(letter)
    }
}

/// A letter's code and the letter of a code undo each other: no two
/// letters share a code, and the codes are the numbers from 1 to 26.
pub proof fn lemma_code_names_one_letter(letter: Ctrl)
    ensures
        1 <= letter.code() <= 26,
        Ctrl::spec_from_code(letter.code()) == Some(letter),
{
}

/// What stands for a chord of `Ctrl` and a letter, if anything does.
pub trait GetCtrl {
    /// The chord that `self` stands for.
    spec fn spec_ctrl(&self) -> Option<Ctrl>;

    fn ctrl(&self) -> (chord: Option<Ctrl>)
        ensures
            chord == self.spec_ctrl(),
    ;
}

impl GetCtrl for KeyCode {
    /// `Tab` is `Ctrl-I`. `Enter` stands for none: a decoder reports both
    /// `Ctrl-J` and `Ctrl-M` as `Enter`, so either letter would be a guess.
    /// The other named keys stand for none. A character stands for the
    /// chord that sends it.
    open spec fn spec_ctrl(&self) -> Option<Ctrl> {
        match *self {
            KeyCode::Tab => Some(Ctrl::I),
            KeyCode::Char(ch) => Ctrl::spec_from_code(ch as int),
            _ => None,
        }
    }

    fn ctrl(&self) -> (chord: Option<Ctrl>) {
        match *self {
            KeyCode::Enter => None,
            KeyCode::Tab => Some(Ctrl::I),
            // These may occupy control codes, but none is a chord.
            KeyCode::Esc => None,
            KeyCode::Backspace
            | KeyCode::Left
            | KeyCode::Right
            | KeyCode::Up
            | KeyCode::Down
            | KeyCode::Home
            | KeyCode::End
            | KeyCode::PageUp
            | KeyCode::PageDown
            | KeyCode::BackTab
            | KeyCode::Delete
            | KeyCode::Insert
            | KeyCode::Null
            | KeyCode::F(_) => None,
            KeyCode::Char(ch) => Ctrl::from_code(ch as u32),
        }
    }
}

impl GetCtrl for Sequence {
    /// Only a key can stand for a chord.
    open spec fn spec_ctrl(&self) -> Option<Ctrl> {
        match *self {
            Sequence::Key(key_code, _) => key_code.spec_ctrl(),
            Sequence::Mouse(_, _) => None,
            Sequence::CursorPosition(_, _) => None,
        }
    }

    fn ctrl(&self) -> (chord: Option<Ctrl>) {
        match self {
            Sequence::Key(key_code, _) => key_code.ctrl(),
            Sequence::Mouse(_, _) => None,
            Sequence::CursorPosition(_, _) => None,
        }
    }
}

/// The classification of every key code.
///
/// A character in the range of the control characters that `Ctrl-A` to
/// `Ctrl-Z` send stands for the letter at that place of the alphabet; any
/// other character stands for none. `Tab` stands for `Ctrl-I` and `Enter`
/// for none. Escape, Backspace, Delete, the arrows and the other named keys
/// stand for none, whatever control code they may be sent as.
pub proof fn lemma_ctrl_classification(key_code: KeyCode)
    ensures
        key_code is Enter ==> key_code.spec_ctrl() is None,
        key_code is Tab ==> key_code.spec_ctrl() == Some(Ctrl::I),
        (key_code is Esc || key_code is Backspace || key_code is Delete || key_code is Left
            || key_code is Right || key_code is Up || key_code is Down || key_code is Home
            || key_code is End || key_code is PageUp || key_code is PageDown || key_code is BackTab
            || key_code is Insert || key_code is Null || key_code is F) ==> key_code.spec_ctrl()
            is None,
        key_code matches KeyCode::Char(ch) ==> (if 1 <= ch as int <= 26 {
            key_code.spec_ctrl() matches Some(letter) && letter.code() == ch as int
        } else {
            key_code.spec_ctrl() is None
        }),
        key_code.spec_ctrl() is Some <==> (key_code is Tab || (key_code matches KeyCode::Char(ch)
            && 1 <= ch as int <= 26)),
{
}

} // verus!
