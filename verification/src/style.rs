//! Plain values that describe how a screen cell looks: where it is, its
//! colors and its text modifiers.

use vstd::prelude::*;

verus! {

/// A screen coordinate. The origin `(0, 0)` is the top left cell.
#[derive(Clone, Copy, Debug, PartialEq, Eq, Structural)]
pub struct Position {
    pub x: u16,
    pub y: u16,
}

impl Position {
    /// The top left cell.
    pub open spec fn spec_origin() -> Position {
        Position { x: 0, y: 0 }
    }

    #[verifier::when_used_as_spec(spec_origin)]
    pub fn origin() -> (p: Position)
        ensures
            p == Position::spec_origin(),
    {
        Position { x: 0, y: 0 }
    }

    pub fn new(x: u16, y: u16) -> (p: Position)
        ensures
            p == (Position { x, y }),
    {
        Position { x, y }
    }
}

/// A cell color as the user interface names it.
#[derive(Clone, Copy, Debug, PartialEq, Eq, Structural)]
pub enum Color {
    /// The terminal's default color.
    Reset,
    Black,
    Red,
    Green,
    Yellow,
    Blue,
    Magenta,
    Cyan,
    Gray,
    DarkGray,
    LightRed,
    LightGreen,
    LightYellow,
    LightBlue,
    LightMagenta,
    LightCyan,
    White,
    /// A 24-bit color.
    Rgb(u8, u8, u8),
    /// An entry of the 256-color palette.
    Indexed(u8),
}

/// A color as the terminal protocol names it. The names are those of the
/// protocol: its plain names are the bright colors, and the dark colors are
/// marked as such.
#[derive(Clone, Copy, Debug, PartialEq, Eq, Structural)]
pub enum AnsiColor {
    /// The terminal's default color.
    Default,
    Black,
    DarkRed,
    DarkGreen,
    DarkYellow,
    DarkBlue,
    DarkMagenta,
    DarkCyan,
    /// Also known as bright black.
    DarkGray,
    /// Also known as dark white.
    Gray,
    Red,
    Green,
    Yellow,
    Blue,
    Magenta,
    Cyan,
    White,
    /// An entry of the 256-color palette.
    Ansi(u8),
    /// A 24-bit color.
    Rgb(u8, u8, u8),
}

/// The protocol color that stands for `color`. A plain color of the user
/// interface is a dark color of the protocol, and a light one a plain one;
/// the two grays keep their names. No two colors share a protocol color.
pub open spec fn spec_ansi_color(color: Color) -> AnsiColor {
    match color {
        Color::Reset => AnsiColor::Default,
        Color::Black => AnsiColor::Black,
        Color::Red => AnsiColor::DarkRed,
        Color::Green => AnsiColor::DarkGreen,
        Color::Yellow => AnsiColor::DarkYellow,
        Color::Blue => AnsiColor::DarkBlue,
        Color::Magenta => AnsiColor::DarkMagenta,
        Color::Cyan => AnsiColor::DarkCyan,
        Color::Gray => AnsiColor::Gray,
        Color::DarkGray => AnsiColor::DarkGray,
        Color::LightRed => AnsiColor::Red,
        Color::LightGreen => AnsiColor::Green,
        Color::LightYellow => AnsiColor::Yellow,
        Color::LightBlue => AnsiColor::Blue,
        Color::LightMagenta => AnsiColor::Magenta,
        Color::LightCyan => AnsiColor::Cyan,
        Color::White => AnsiColor::White,
        Color::Rgb(r, g, b) => AnsiColor::Rgb(r, g, b),
        Color::Indexed(code) => AnsiColor::Ansi(code),
    }
}

/// Maps a color to the one protocol color that stands for it.
#[verifier::when_used_as_spec(spec_ansi_color)]
pub fn ansi_color(color: Color) -> (code: AnsiColor)
    ensures
        code == spec_ansi_color(color),
{
    match color {
        Color::Reset => AnsiColor::Default,
        Color::Black => AnsiColor::Black,
        Color::Red => AnsiColor::DarkRed,
        Color::Green => AnsiColor::DarkGreen,
        Color::Yellow => AnsiColor::DarkYellow,
        Color::Blue => AnsiColor::DarkBlue,
        Color::Magenta => AnsiColor::DarkMagenta,
        Color::Cyan => AnsiColor::DarkCyan,
        Color::Gray => AnsiColor::Gray,
        Color::DarkGray => AnsiColor::DarkGray,
        Color::LightRed => AnsiColor::Red,
        Color::LightGreen => AnsiColor::Green,
        Color::LightYellow => AnsiColor::Yellow,
        Color::LightBlue => AnsiColor::Blue,
        Color::LightMagenta => AnsiColor::Magenta,
        Color::LightCyan => AnsiColor::Cyan,
        Color::White => AnsiColor::White,
        Color::Rgb(r, g, b) => AnsiColor::Rgb(r, g, b),
        Color::Indexed(code) => AnsiColor::Ansi(code),
    }
}

/// Every color has a protocol color of its own: two colors that differ
/// have protocol colors that differ.
pub proof fn lemma_ansi_color_is_one_to_one(first: Color, second: Color)
    ensures
        spec_ansi_color(first) == spec_ansi_color(second) <==> first == second,
{
}

pub const BOLD: u16 = 0x001;

pub const DIM: u16 = 0x002;

pub const ITALIC: u16 = 0x004;

pub const UNDERLINED: u16 = 0x008;

pub const SLOW_BLINK: u16 = 0x010;

pub const RAPID_BLINK: u16 = 0x020;

pub const REVERSED: u16 = 0x040;

pub const HIDDEN: u16 = 0x080;

pub const CROSSED_OUT: u16 = 0x100;

/// Every bit that names a modifier.
pub const ALL_MODIFIERS: u16 = 0x1ff;

/// A set of text modifiers, one bit each.
#[derive(Clone, Copy, Debug, PartialEq, Eq, Structural)]
pub struct Modifier {
    pub bits: u16,
}

impl Modifier {
    pub open spec fn spec_empty() -> Modifier {
        Modifier { bits: 0 }
    }

    /// Whether every bit of `flags` is set.
    pub open spec fn spec_contains(self, flags: u16) -> bool {
        self.bits & flags == flags
    }

    /// The modifiers of `self` that `other` lacks.
    pub open spec fn spec_difference(self, other: Modifier) -> Modifier {
        Modifier { bits: self.bits & !other.bits }
    }

    pub open spec fn spec_union(self, other: Modifier) -> Modifier {
        Modifier { bits: self.bits | other.bits }
    }

    #[verifier::when_used_as_spec(spec_empty)]
    pub fn empty() -> (m: Modifier)
        ensures
            m == Modifier::spec_empty(),
    {
        Modifier { bits: 0 }
    }

    /// The modifiers that `bits` names; bits that name none are dropped.
    pub fn from_bits_truncate(bits: u16) -> (m: Modifier)
        ensures
            m.bits == bits & ALL_MODIFIERS,
    {
        Modifier { bits: bits & ALL_MODIFIERS }
    }

    pub fn bits(self) -> (bits: u16)
        ensures
            bits == self.bits,
    {
        self.bits
    }

    pub fn is_empty(self) -> (b: bool)
        ensures
            b == (self.bits == 0),
    {
        self.bits == 0
    }

    #[verifier::when_used_as_spec(spec_contains)]
    pub fn contains(self, flags: u16) -> (b: bool)
        ensures
            b == self.spec_contains(flags),
    {
        self.bits & flags == flags
    }

    #[verifier::when_used_as_spec(spec_difference)]
    pub fn difference(self, other: Modifier) -> (m: Modifier)
        ensures
            m == self.spec_difference(other),
    {
        Modifier { bits: self.bits & !other.bits }
    }

    #[verifier::when_used_as_spec(spec_union)]
    pub fn union(self, other: Modifier) -> (m: Modifier)
        ensures
            m == self.spec_union(other),
    {
        Modifier { bits: self.bits | other.bits }
    }
}

/// The look of a cell: its colors, the modifiers it adds and those it
/// removes. The modifiers in effect are those added and not removed.
#[derive(Clone, Copy, Debug, PartialEq, Eq, Structural)]
pub struct Style {
    pub fg: Color,
    pub bg: Color,
    pub add_modifier: Modifier,
    pub sub_modifier: Modifier,
}

impl Style {
    /// What a terminal shows after its attributes were reset: default colors
    /// and no modifier.
    pub open spec fn spec_reset() -> Style {
        Style {
            fg: Color::Reset,
            bg: Color::Reset,
            add_modifier: Modifier::spec_empty(),
            sub_modifier: Modifier::spec_empty(),
        }
    }

    #[verifier::when_used_as_spec(spec_reset)]
    pub fn reset() -> (s: Style)
        ensures
            s == Style::spec_reset(),
    {
        Style {
            fg: Color::Reset,
            bg: Color::Reset,
            add_modifier: Modifier::empty(),
            sub_modifier: Modifier::empty(),
        }
    }

    /// The modifiers in effect.
    pub open spec fn spec_effective(self) -> Modifier {
        self.add_modifier.spec_difference(self.sub_modifier)
    }

    #[verifier::when_used_as_spec(spec_effective)]
    pub fn effective(self) -> (m: Modifier)
        ensures
            m == self.spec_effective(),
    {
        self.add_modifier.difference(self.sub_modifier)
    }
}

/// One character position of the screen.
#[derive(Clone, Debug)]
pub struct Cell {
    /// The text shown in the cell.
    pub symbol: String,
    pub fg: Color,
    pub bg: Color,
    pub modifier: Modifier,
    /// A skipped cell is left as the screen shows it.
    pub skip: bool,
}

impl Cell {
    pub open spec fn spec_style(&self) -> Style {
        Style {
            fg: self.fg,
            bg: self.bg,
            add_modifier: self.modifier,
            sub_modifier: Modifier::spec_empty(),
        }
    }

    /// A plain cell that shows `symbol`.
    pub fn new(symbol: &str) -> (cell: Cell)
        ensures
            cell.symbol@ == symbol@,
            cell.fg == Color::Reset,
            cell.bg == Color::Reset,
            cell.modifier == Modifier::spec_empty(),
            !cell.skip,
    {
        Cell {
            symbol: symbol.to_owned(),
            fg: Color::Reset,
            bg: Color::Reset,
            modifier: Modifier::empty(),
            skip: false,
        }
    }

    #[verifier::when_used_as_spec(spec_style)]
    pub fn style(&self) -> (s: Style)
        ensures
            s == self.spec_style(),
    {
        Style {
            fg: self.fg,
            bg: self.bg,
            add_modifier: self.modifier,
            sub_modifier: Modifier::empty(),
        }
    }
}

} // verus!
