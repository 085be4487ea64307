use ratatui_wasm_backend::sequences::{Attribute, Command};
use ratatui_wasm_backend::style::{ansi_color, AnsiColor, Color};

fn written(command: Command) -> String {
    let mut buf = b"<".to_vec();
    command.write_to(&mut buf);
    String::from_utf8(buf).unwrap()
}

#[test]
fn a_sequence_is_appended_to_what_is_there() {
    let mut buf = b"ab".to_vec();
    Command::ResetAttributes.write_to(&mut buf);
    Command::HideCursor.write_to(&mut buf);
    assert_eq!(buf, b"ab\x1b[0m\x1b[?25l");
}

#[test]
fn move_cursor_to_sends_the_row_first() {
    assert_eq!(written(Command::MoveCursorTo(5, 10)), "<\x1b[10;5H");
    assert_eq!(written(Command::MoveCursorTo(1, 1)), "<\x1b[1;1H");
    assert_eq!(written(Command::MoveCursorTo(65535, 0)), "<\x1b[0;65535H");
    assert_eq!(written(Command::MoveCursorTo(100, 2009)), "<\x1b[2009;100H");
}

#[test]
fn the_fixed_sequences() {
    assert_eq!(written(Command::ResetAttributes), "<\x1b[0m");
    assert_eq!(written(Command::ClearBuffer), "<\x1b[2J");
    assert_eq!(written(Command::SwitchBufferToAlternate), "<\x1b[?1049h");
    assert_eq!(written(Command::SwitchBufferToNormal), "<\x1b[?1049l");
    assert_eq!(written(Command::HideCursor), "<\x1b[?25l");
    assert_eq!(written(Command::ShowCursor), "<\x1b[?25h");
}

#[test]
fn each_attribute_has_its_code() {
    let expected = [
        (Attribute::Bold, "<\x1b[1m"),
        (Attribute::Faint, "<\x1b[2m"),
        (Attribute::Normal, "<\x1b[22m"),
        (Attribute::Italic, "<\x1b[3m"),
        (Attribute::ItalicOff, "<\x1b[23m"),
        (Attribute::Underline, "<\x1b[4m"),
        (Attribute::UnderlineOff, "<\x1b[24m"),
        (Attribute::Blink, "<\x1b[5m"),
        (Attribute::BlinkOff, "<\x1b[25m"),
        (Attribute::Reverse, "<\x1b[7m"),
        (Attribute::ReverseOff, "<\x1b[27m"),
        (Attribute::Conceal, "<\x1b[8m"),
        (Attribute::ConcealOff, "<\x1b[28m"),
        (Attribute::Crossed, "<\x1b[9m"),
        (Attribute::CrossedOff, "<\x1b[29m"),
    ];
    for (attribute, bytes) in expected {
        assert_eq!(written(Command::SetAttribute(attribute)), bytes);
    }
}

#[test]
fn foreground_colors() {
    assert_eq!(written(Command::SetForegroundColor(AnsiColor::Default)), "<\x1b[39m");
    assert_eq!(written(Command::SetForegroundColor(AnsiColor::Ansi(0))), "<\x1b[38;5;0m");
    assert_eq!(written(Command::SetForegroundColor(AnsiColor::Ansi(9))), "<\x1b[38;5;9m");
    assert_eq!(written(Command::SetForegroundColor(AnsiColor::Ansi(10))), "<\x1b[38;5;10m");
    let named = [
        (AnsiColor::Black, "<\x1b[38;5;0m"),
        (AnsiColor::DarkRed, "<\x1b[38;5;1m"),
        (AnsiColor::DarkGreen, "<\x1b[38;5;2m"),
        (AnsiColor::DarkYellow, "<\x1b[38;5;3m"),
        (AnsiColor::DarkBlue, "<\x1b[38;5;4m"),
        (AnsiColor::DarkMagenta, "<\x1b[38;5;5m"),
        (AnsiColor::DarkCyan, "<\x1b[38;5;6m"),
        (AnsiColor::DarkGray, "<\x1b[38;5;8m"),
        (AnsiColor::Gray, "<\x1b[38;5;7m"),
        (AnsiColor::Red, "<\x1b[38;5;9m"),
        (AnsiColor::Green, "<\x1b[38;5;10m"),
        (AnsiColor::Yellow, "<\x1b[38;5;11m"),
        (AnsiColor::Blue, "<\x1b[38;5;12m"),
        (AnsiColor::Magenta, "<\x1b[38;5;13m"),
        (AnsiColor::Cyan, "<\x1b[38;5;14m"),
        (AnsiColor::White, "<\x1b[38;5;15m"),
    ];
    for (color, bytes) in named {
        assert_eq!(written(Command::SetForegroundColor(color)), bytes);
    }
    assert_eq!(written(Command::SetForegroundColor(AnsiColor::Ansi(200))), "<\x1b[38;5;200m");
    assert_eq!(written(Command::SetForegroundColor(AnsiColor::Ansi(255))), "<\x1b[38;5;255m");
    assert_eq!(written(Command::SetForegroundColor(AnsiColor::Rgb(1, 2, 3))), "<\x1b[38;2;1;2;3m");
    assert_eq!(
        written(Command::SetForegroundColor(AnsiColor::Rgb(255, 0, 100))),
        "<\x1b[38;2;255;0;100m"
    );
}

#[test]
fn background_colors() {
    assert_eq!(written(Command::SetBackgroundColor(AnsiColor::Default)), "<\x1b[49m");
    assert_eq!(written(Command::SetBackgroundColor(AnsiColor::Ansi(0))), "<\x1b[48;5;0m");
    assert_eq!(written(Command::SetBackgroundColor(AnsiColor::Ansi(15))), "<\x1b[48;5;15m");
    let named = [
        (AnsiColor::Black, "<\x1b[48;5;0m"),
        (AnsiColor::DarkRed, "<\x1b[48;5;1m"),
        (AnsiColor::DarkGreen, "<\x1b[48;5;2m"),
        (AnsiColor::DarkYellow, "<\x1b[48;5;3m"),
        (AnsiColor::DarkBlue, "<\x1b[48;5;4m"),
        (AnsiColor::DarkMagenta, "<\x1b[48;5;5m"),
        (AnsiColor::DarkCyan, "<\x1b[48;5;6m"),
        (AnsiColor::DarkGray, "<\x1b[48;5;8m"),
        (AnsiColor::Gray, "<\x1b[48;5;7m"),
        (AnsiColor::Red, "<\x1b[48;5;9m"),
        (AnsiColor::Green, "<\x1b[48;5;10m"),
        (AnsiColor::Yellow, "<\x1b[48;5;11m"),
        (AnsiColor::Blue, "<\x1b[48;5;12m"),
        (AnsiColor::Magenta, "<\x1b[48;5;13m"),
        (AnsiColor::Cyan, "<\x1b[48;5;14m"),
        (AnsiColor::White, "<\x1b[48;5;15m"),
    ];
    for (color, bytes) in named {
        assert_eq!(written(Command::SetBackgroundColor(color)), bytes);
    }
    assert_eq!(written(Command::SetBackgroundColor(AnsiColor::Ansi(200))), "<\x1b[48;5;200m");
    assert_eq!(written(Command::SetBackgroundColor(AnsiColor::Rgb(1, 2, 3))), "<\x1b[48;2;1;2;3m");
}

#[test]
fn the_sequences_are_those_of_anes() {
    let pairs = [
        (written(Command::MoveCursorTo(7, 3)), format!("<{}", anes::MoveCursorTo(7, 3))),
        (written(Command::ResetAttributes), format!("<{}", anes::ResetAttributes)),
        (written(Command::ClearBuffer), format!("<{}", anes::ClearBuffer::All)),
        (
            written(Command::SetAttribute(Attribute::Crossed)),
            format!("<{}", anes::SetAttribute(anes::Attribute::Crossed)),
        ),
        (
            written(Command::SetForegroundColor(AnsiColor::DarkRed)),
            format!("<{}", anes::SetForegroundColor(anes::Color::DarkRed)),
        ),
        (
            written(Command::SetBackgroundColor(AnsiColor::White)),
            format!("<{}", anes::SetBackgroundColor(anes::Color::White)),
        ),
        (
            written(Command::SetBackgroundColor(AnsiColor::DarkGray)),
            format!("<{}", anes::SetBackgroundColor(anes::Color::DarkGray)),
        ),
        (
            written(Command::SetBackgroundColor(AnsiColor::Ansi(8))),
            format!("<{}", anes::SetBackgroundColor(anes::Color::Ansi(8))),
        ),
    ];
    for (ours, theirs) in pairs {
        assert_eq!(ours, theirs);
    }
}

#[test]
fn every_color_has_one_protocol_color() {
    let expected = [
        (Color::Reset, AnsiColor::Default),
        (Color::Black, AnsiColor::Black),
        (Color::Red, AnsiColor::DarkRed),
        (Color::Green, AnsiColor::DarkGreen),
        (Color::Yellow, AnsiColor::DarkYellow),
        (Color::Blue, AnsiColor::DarkBlue),
        (Color::Magenta, AnsiColor::DarkMagenta),
        (Color::Cyan, AnsiColor::DarkCyan),
        (Color::Gray, AnsiColor::Gray),
        (Color::DarkGray, AnsiColor::DarkGray),
        (Color::LightRed, AnsiColor::Red),
        (Color::LightGreen, AnsiColor::Green),
        (Color::LightYellow, AnsiColor::Yellow),
        (Color::LightBlue, AnsiColor::Blue),
        (Color::LightMagenta, AnsiColor::Magenta),
        (Color::LightCyan, AnsiColor::Cyan),
        (Color::White, AnsiColor::White),
        (Color::Rgb(10, 20, 30), AnsiColor::Rgb(10, 20, 30)),
        (Color::Indexed(77), AnsiColor::Ansi(77)),
    ];
    for (color, protocol) in expected {
        assert_eq!(ansi_color(color), protocol);
    }
}

#[test]
fn the_sixteen_named_colors_have_codes_of_their_own() {
    let named = [
        (Color::Black, "<\x1b[38;5;0m"),
        (Color::Red, "<\x1b[38;5;1m"),
        (Color::Green, "<\x1b[38;5;2m"),
        (Color::Yellow, "<\x1b[38;5;3m"),
        (Color::Blue, "<\x1b[38;5;4m"),
        (Color::Magenta, "<\x1b[38;5;5m"),
        (Color::Cyan, "<\x1b[38;5;6m"),
        (Color::Gray, "<\x1b[38;5;7m"),
        (Color::DarkGray, "<\x1b[38;5;8m"),
        (Color::LightRed, "<\x1b[38;5;9m"),
        (Color::LightGreen, "<\x1b[38;5;10m"),
        (Color::LightYellow, "<\x1b[38;5;11m"),
        (Color::LightBlue, "<\x1b[38;5;12m"),
        (Color::LightMagenta, "<\x1b[38;5;13m"),
        (Color::LightCyan, "<\x1b[38;5;14m"),
        (Color::White, "<\x1b[38;5;15m"),
    ];
    for (color, bytes) in named {
        assert_eq!(written(Command::SetForegroundColor(ansi_color(color))), bytes);
    }
    assert_ne!(ansi_color(Color::Gray), ansi_color(Color::DarkGray));
    assert_eq!(written(Command::SetForegroundColor(ansi_color(Color::Reset))), "<\x1b[39m");
}
