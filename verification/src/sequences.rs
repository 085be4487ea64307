//! The escape sequences the backend sends, and the bytes each one stands for.
//!
//! The sequences themselves come from the `anes` crate. Each function that
//! formats one is trusted to append exactly the bytes that
//! [`Command::bytes`] gives for it.

use crate::style::AnsiColor;
use crate::style::AnsiColor::{
    Ansi, Black, Blue, Cyan, DarkBlue, DarkCyan, DarkGray, DarkGreen, DarkMagenta, DarkRed,
    DarkYellow, Gray, Green, Magenta, Red, Rgb, White, Yellow,
};
use anes::Attribute as AnesAttribute;
use anes::Color as AnesColor;
use std::io::Write;
use vstd::prelude::*;

verus! {

/// A display attribute that a `SetAttribute` sequence turns on or off.
#[derive(Clone, Copy, Debug, PartialEq, Eq, Structural)]
pub enum Attribute {
    Bold,
    Faint,
    /// Neither bold nor faint.
    Normal,
    Italic,
    ItalicOff,
    Underline,
    UnderlineOff,
    Blink,
    BlinkOff,
    Reverse,
    ReverseOff,
    Conceal,
    ConcealOff,
    Crossed,
    CrossedOff,
}

impl Attribute {
    /// The number of the attribute in a "select graphic rendition" sequence.
    pub open spec fn code(self) -> nat {
        match self {
            Attribute::Bold => 1,
            Attribute::Faint => 2,
            Attribute::Normal => 22,
            Attribute::Italic => 3,
            Attribute::ItalicOff => 23,
            Attribute::Underline => 4,
            Attribute::UnderlineOff => 24,
            Attribute::Blink => 5,
            Attribute::BlinkOff => 25,
            Attribute::Reverse => 7,
            Attribute::ReverseOff => 27,
            Attribute::Conceal => 8,
            Attribute::ConcealOff => 28,
            Attribute::Crossed => 9,
            Attribute::CrossedOff => 29,
        }
    }
}

/// One escape sequence.
#[derive(Clone, Copy, Debug, PartialEq, Eq, Structural)]
pub enum Command {
    /// Moves the cursor to a column and a row, both counted from 1.
    MoveCursorTo(u16, u16),
    /// Turns every attribute off and both colors back to their defaults.
    ResetAttributes,
    SetAttribute(Attribute),
    SetBackgroundColor(AnsiColor),
    SetForegroundColor(AnsiColor),
    /// Clears the whole screen.
    ClearBuffer,
    SwitchBufferToAlternate,
    SwitchBufferToNormal,
    HideCursor,
    ShowCursor,
}

/// The ASCII digits of `n` in base ten, without leading zeros.
pub open spec fn decimal(n: nat) -> Seq<u8>
    decreases n,
{
    if n < 10 {
        seq![(0x30 + n) as u8]
    } else {
        decimal(n / 10).push((0x30 + n % 10) as u8)
    }
}

/// `ESC [`, the bytes that open a control sequence.
pub open spec fn csi() -> Seq<u8> {
    seq![0x1bu8, 0x5bu8]
}

/// The place of a named color in the palette of 256 colors.
pub open spec fn palette_index(color: AnsiColor) -> nat {
    match color {
        AnsiColor::Black => 0,
        AnsiColor::DarkRed => 1,
        AnsiColor::DarkGreen => 2,
        AnsiColor::DarkYellow => 3,
        AnsiColor::DarkBlue => 4,
        AnsiColor::DarkMagenta => 5,
        AnsiColor::DarkCyan => 6,
        AnsiColor::Gray => 7,
        AnsiColor::DarkGray => 8,
        AnsiColor::Red => 9,
        AnsiColor::Green => 10,
        AnsiColor::Yellow => 11,
        AnsiColor::Blue => 12,
        AnsiColor::Magenta => 13,
        AnsiColor::Cyan => 14,
        AnsiColor::White => 15,
        AnsiColor::Ansi(value) => value as nat,
        _ => 0,
    }
}

/// The sixteen named colors have the first sixteen places of the palette,
/// each a place of its own.
pub proof fn lemma_named_colors_have_places_of_their_own(first: AnsiColor, second: AnsiColor)
    requires
        !(first is Default) && !(first is Ansi) && !(first is Rgb),
        !(second is Default) && !(second is Ansi) && !(second is Rgb),
    ensures
        palette_index(first) < 16,
        palette_index(first) == palette_index(second) <==> first == second,
{
}

/// The parameters that select `color` after the `38` or `48` of a color
/// sequence: `;2;` and the three parts of a 24-bit color, `;5;` and the
/// place in the palette of any other.
pub open spec fn color_parameters(color: AnsiColor) -> Seq<u8> {
    match color {
        AnsiColor::Default => Seq::empty(),
        AnsiColor::Rgb(r, g, b) => seq![0x3bu8, 0x32u8, 0x3bu8] + decimal(r as nat) + seq![0x3bu8]
            + decimal(g as nat) + seq![0x3bu8] + decimal(b as nat),
        _ => seq![0x3bu8, 0x35u8, 0x3bu8] + decimal(palette_index(color)),
    }
}

impl Command {
    /// The bytes that the terminal receives for the sequence.
    pub open spec fn bytes(self) -> Seq<u8> {
        match self {
            Command::MoveCursorTo(column, row) => csi() + decimal(row as nat) + seq![0x3bu8]
                + decimal(column as nat) + seq![0x48u8],
            Command::ResetAttributes => csi() + seq![0x30u8, 0x6du8],
            Command::SetAttribute(attribute) => csi() + decimal(attribute.code()) + seq![0x6du8],
            Command::SetBackgroundColor(color) => match color {
                AnsiColor::Default => csi() + seq![0x34u8, 0x39u8, 0x6du8],
                _ => csi() + seq![0x34u8, 0x38u8] + color_parameters(color) + seq![0x6du8],
            },
            Command::SetForegroundColor(color) => match color {
                AnsiColor::Default => csi() + seq![0x33u8, 0x39u8, 0x6du8],
                _ => csi() + seq![0x33u8, 0x38u8] + color_parameters(color) + seq![0x6du8],
            },
            Command::ClearBuffer => csi() + seq![0x32u8, 0x4au8],
            Command::SwitchBufferToAlternate => csi() + seq![
                0x3fu8,
                0x31u8,
                0x30u8,
                0x34u8,
                0x39u8,
                0x68u8,
            ],
            Command::SwitchBufferToNormal => csi() + seq![
                0x3fu8,
                0x31u8,
                0x30u8,
                0x34u8,
                0x39u8,
                0x6cu8,
            ],
            Command::HideCursor => csi() + seq![0x3fu8, 0x32u8, 0x35u8, 0x6cu8],
            Command::ShowCursor => csi() + seq![0x3fu8, 0x32u8, 0x35u8, 0x68u8],
        }
    }

    /// Appends the sequence to `buf`.
    pub fn write_to(self, buf: &mut Vec<u8>)
        ensures
            final(buf)@ == old(buf)@ + self.bytes(),
    {
        match self {
            Command::MoveCursorTo(column, row) => write_move_cursor_to(buf, column, row),
            Command::ResetAttributes => write_reset_attributes(buf),
            Command::SetAttribute(attribute) => write_set_attribute(buf, attribute),
            Command::SetBackgroundColor(color) => write_set_background_color(buf, color),
            Command::SetForegroundColor(color) => write_set_foreground_color(buf, color),
            Command::ClearBuffer => write_clear_buffer(buf),
            Command::SwitchBufferToAlternate => write_switch_buffer_to_alternate(buf),
            Command::SwitchBufferToNormal => write_switch_buffer_to_normal(buf),
            Command::HideCursor => write_hide_cursor(buf),
            Command::ShowCursor => write_show_cursor(buf),
        }
    }
}

/// The bytes of `commands`, one after the other.
pub open spec fn commands_bytes(commands: Seq<Command>) -> Seq<u8>
    decreases commands.len(),
{
    if commands.len() == 0 {
        Seq::empty()
    } else {
        commands_bytes(commands.drop_last()) + commands.last().bytes()
    }
}

/// A run of one command has that command's bytes.
pub proof fn lemma_commands_bytes_one(command: Command)
    ensures
        commands_bytes(seq![command]) == command.bytes(),
{
    let run = seq![command];
    assert(run.drop_last() =~= Seq::<Command>::empty());
    assert(commands_bytes(run.drop_last()) =~= Seq::<u8>::empty());
    assert(commands_bytes(run) =~= command.bytes());
}

/// The bytes of two runs of commands are the bytes of the first run followed
/// by those of the second.
pub proof fn lemma_commands_bytes_concat(a: Seq<Command>, b: Seq<Command>)
    ensures
        commands_bytes(a + b) == commands_bytes(a) + commands_bytes(b),
    decreases b.len(),
{
    if b.len() == 0 {
        assert(a + b =~= a);
    } else {
        assert((a + b).drop_last() =~= a + b.drop_last());
        assert((a + b).last() == b.last());
        lemma_commands_bytes_concat(a, b.drop_last());
    }
}

/// Formats `anes::MoveCursorTo(column, row)`: `ESC [ row ; column H`, both
/// numbers in decimal.
#[verifier::external_body]
fn write_move_cursor_to(buf: &mut Vec<u8>, column: u16, row: u16)
    ensures
        final(buf)@ == old(buf)@ + Command::MoveCursorTo(column, row).bytes(),
{
    let _ = write!(buf, "{}", anes::MoveCursorTo(column, row));
}

/// Formats `anes::ResetAttributes`: `ESC [ 0 m`.
#[verifier::external_body]
fn write_reset_attributes(buf: &mut Vec<u8>)
    ensures
        final(buf)@ == old(buf)@ + Command::ResetAttributes.bytes(),
{
    let _ = write!(buf, "{}", anes::ResetAttributes);
}

/// Formats `anes::SetAttribute` of the `anes::Attribute` of the same name:
/// `ESC [ code m`, the attribute's code in decimal.
#[verifier::external_body]
fn write_set_attribute(buf: &mut Vec<u8>, attribute: Attribute)
    ensures
        final(buf)@ == old(buf)@ + Command::SetAttribute(attribute).bytes(),
{
    let attribute = match attribute {
        Attribute::Bold => AnesAttribute::Bold, Attribute::Faint => AnesAttribute::Faint,
        Attribute::Normal => AnesAttribute::Normal, Attribute::Italic => AnesAttribute::Italic,
        Attribute::ItalicOff => AnesAttribute::ItalicOff, Attribute::Underline => AnesAttribute::Underline,
        Attribute::UnderlineOff => AnesAttribute::UnderlineOff, Attribute::Blink => AnesAttribute::Blink,
        Attribute::BlinkOff => AnesAttribute::BlinkOff, Attribute::Reverse => AnesAttribute::Reverse,
        Attribute::ReverseOff => AnesAttribute::ReverseOff, Attribute::Conceal => AnesAttribute::Conceal,
        Attribute::ConcealOff => AnesAttribute::ConcealOff, Attribute::Crossed => AnesAttribute::Crossed,
        Attribute::CrossedOff => AnesAttribute::CrossedOff,
    };
    let _ = write!(buf, "{}", anes::SetAttribute(attribute));
}

/// Formats `anes::SetBackgroundColor` of the `anes::Color` of the same
/// name: `ESC [ 49 m` for the default color, `ESC [ 48 ; 2 ; r ; g ; b m`
/// for a 24-bit color, `ESC [ 48 ; 5 ; n m` for any other, `n` its place in
/// the palette.
#[verifier::external_body]
fn write_set_background_color(buf: &mut Vec<u8>, color: AnsiColor)
    ensures
        final(buf)@ == old(buf)@ + Command::SetBackgroundColor(color).bytes(),
{
    let color = match color {
        AnsiColor::Default => AnesColor::Default, Black => AnesColor::Black,
        DarkRed => AnesColor::DarkRed, DarkGreen => AnesColor::DarkGreen,
        DarkYellow => AnesColor::DarkYellow, DarkBlue => AnesColor::DarkBlue,
        DarkMagenta => AnesColor::DarkMagenta, DarkCyan => AnesColor::DarkCyan,
        DarkGray => AnesColor::DarkGray, Gray => AnesColor::Gray, Red => AnesColor::Red,
        Green => AnesColor::Green, Yellow => AnesColor::Yellow, Blue => AnesColor::Blue,
        Magenta => AnesColor::Magenta, Cyan => AnesColor::Cyan, White => AnesColor::White,
        Ansi(value) => AnesColor::Ansi(value), Rgb(r, g, b) => AnesColor::Rgb(r, g, b),
    };
    let _ = write!(buf, "{}", anes::SetBackgroundColor(color));
}

/// Formats `anes::SetForegroundColor` of the `anes::Color` of the same
/// name: `ESC [ 39 m` for the default color, `ESC [ 38 ; 2 ; r ; g ; b m`
/// for a 24-bit color, `ESC [ 38 ; 5 ; n m` for any other, `n` its place in
/// the palette.
#[verifier::external_body]
fn write_set_foreground_color(buf: &mut Vec<u8>, color: AnsiColor)
    ensures
        final(buf)@ == old(buf)@ + Command::SetForegroundColor(color).bytes(),
{
    let color = match color {
        AnsiColor::Default => AnesColor::Default, Black => AnesColor::Black,
        DarkRed => AnesColor::DarkRed, DarkGreen => AnesColor::DarkGreen,
        DarkYellow => AnesColor::DarkYellow, DarkBlue => AnesColor::DarkBlue,
        DarkMagenta => AnesColor::DarkMagenta, DarkCyan => AnesColor::DarkCyan,
        DarkGray => AnesColor::DarkGray, Gray => AnesColor::Gray, Red => AnesColor::Red,
        Green => AnesColor::Green, Yellow => AnesColor::Yellow, Blue => AnesColor::Blue,
        Magenta => AnesColor::Magenta, Cyan => AnesColor::Cyan, White => AnesColor::White,
        Ansi(value) => AnesColor::Ansi(value), Rgb(r, g, b) => AnesColor::Rgb(r, g, b),
    };
    let _ = write!(buf, "{}", anes::SetForegroundColor(color));
}

/// Formats `anes::ClearBuffer::All`: `ESC [ 2 J`.
#[verifier::external_body]
fn write_clear_buffer(buf: &mut Vec<u8>)
    ensures
        final(buf)@ == old(buf)@ + Command::ClearBuffer.bytes(),
{
    let _ = write!(buf, "{}", anes::ClearBuffer::All);
}

/// Formats `anes::SwitchBufferToAlternate`: `ESC [ ? 1049 h`.
#[verifier::external_body]
fn write_switch_buffer_to_alternate(buf: &mut Vec<u8>)
    ensures
        final(buf)@ == old(buf)@ + Command::SwitchBufferToAlternate.bytes(),
{
    let _ = write!(buf, "{}", anes::SwitchBufferToAlternate);
}

/// Formats `anes::SwitchBufferToNormal`: `ESC [ ? 1049 l`.
#[verifier::external_body]
fn write_switch_buffer_to_normal(buf: &mut Vec<u8>)
    ensures
        final(buf)@ == old(buf)@ + Command::SwitchBufferToNormal.bytes(),
{
    let _ = write!(buf, "{}", anes::SwitchBufferToNormal);
}

/// Formats `anes::HideCursor`: `ESC [ ? 25 l`.
#[verifier::external_body]
fn write_hide_cursor(buf: &mut Vec<u8>)
    ensures
        final(buf)@ == old(buf)@ + Command::HideCursor.bytes(),
{
    let _ = write!(buf, "{}", anes::HideCursor);
}

/// Formats `anes::ShowCursor`: `ESC [ ? 25 h`.
#[verifier::external_body]
fn write_show_cursor(buf: &mut Vec<u8>)
    ensures
        final(buf)@ == old(buf)@ + Command::ShowCursor.bytes(),
{
    let _ = write!(buf, "{}", anes::ShowCursor);
}

} // verus!
