use ratatui_wasm_backend::backend::AnsiBackend;
use ratatui_wasm_backend::style::{
    Cell, Color, Modifier, Position, Style, BOLD, CROSSED_OUT, DIM, HIDDEN, ITALIC, RAPID_BLINK,
    REVERSED, SLOW_BLINK, UNDERLINED,
};

fn cell(symbol: &str, fg: Color, bg: Color, modifier: u16) -> Cell {
    let mut cell = Cell::new(symbol);
    cell.fg = fg;
    cell.bg = bg;
    cell.modifier = Modifier::from_bits_truncate(modifier);
    cell
}

fn plain(symbol: &str) -> Cell {
    Cell::new(symbol)
}

fn style(modifier: u16) -> Style {
    Style {
        fg: Color::Reset,
        bg: Color::Reset,
        add_modifier: Modifier::from_bits_truncate(modifier),
        sub_modifier: Modifier::empty(),
    }
}

/// What is queued after `run`, as text.
fn queued(backend: &AnsiBackend) -> String {
    String::from_utf8(backend.pending().clone()).unwrap()
}

/// What a backend queues for the modifiers `to` when `from` is in effect.
fn modifier_change(from: u16, to: u16) -> String {
    let mut backend = AnsiBackend::new();
    backend.apply_style(style(from));
    let _ = backend.flush();
    backend.apply_style(style(to));
    queued(&backend)
}

#[test]
fn draws_a_run_of_cells_with_few_sequences() {
    let mut backend = AnsiBackend::new();
    let cells = vec![
        (0, 0, cell("A", Color::Red, Color::Reset, BOLD)),
        (1, 0, cell("B", Color::Red, Color::Reset, BOLD)),
        (0, 1, plain("C")),
    ];
    let bytes = backend.draw(&cells).unwrap();
    let expected = "\x1b[1;1H\x1b[0m\x1b[1m\x1b[38;5;1mAB\x1b[2;1H\x1b[22m\x1b[39mC";
    assert_eq!(bytes, expected.as_bytes());
    assert!(backend.pending().is_empty());
    assert_eq!(backend.cursor(), Some(Position { x: 1, y: 1 }));
    assert_eq!(backend.style(), Some(plain("C").style()));
}

#[test]
fn a_new_backend_knows_nothing() {
    let backend = AnsiBackend::new();
    assert_eq!(backend.cursor(), None);
    assert_eq!(backend.style(), None);
    assert!(backend.pending().is_empty());
}

#[test]
fn moving_twice_to_one_place_sends_one_move() {
    let mut backend = AnsiBackend::new();
    backend.set_cursor_position(Position { x: 4, y: 9 });
    assert_eq!(queued(&backend), "\x1b[10;5H");
    backend.set_cursor_position(Position { x: 4, y: 9 });
    assert_eq!(queued(&backend), "\x1b[10;5H");
    assert_eq!(backend.cursor(), Some(Position { x: 4, y: 9 }));
}

#[test]
fn moving_elsewhere_sends_a_move_each_time() {
    let mut backend = AnsiBackend::new();
    backend.set_cursor_position(Position { x: 0, y: 0 });
    backend.set_cursor_position(Position { x: 0, y: 1 });
    backend.set_cursor_position(Position { x: 0, y: 0 });
    assert_eq!(queued(&backend), "\x1b[1;1H\x1b[2;1H\x1b[1;1H");
}

#[test]
fn coordinates_are_sent_counted_from_one_row_first() {
    let mut backend = AnsiBackend::new();
    backend.set_cursor_position(Position { x: 65534, y: 0 });
    assert_eq!(queued(&backend), "\x1b[1;65535H");
    let _ = backend.flush();
    backend.set_cursor_position(Position { x: 9, y: 99 });
    assert_eq!(queued(&backend), "\x1b[100;10H");
}

#[test]
fn an_unknown_cursor_is_brought_to_the_origin() {
    let mut backend = AnsiBackend::new();
    assert_eq!(backend.get_cursor_position(), Position { x: 0, y: 0 });
    assert_eq!(queued(&backend), "\x1b[1;1H");
    assert_eq!(backend.cursor(), Some(Position { x: 0, y: 0 }));
}

#[test]
fn a_known_cursor_is_reported_without_a_move() {
    let mut backend = AnsiBackend::new();
    backend.set_cursor_position(Position { x: 3, y: 2 });
    let _ = backend.flush();
    assert_eq!(backend.get_cursor_position(), Position { x: 3, y: 2 });
    assert!(backend.pending().is_empty());
}

#[test]
fn a_skipped_cell_changes_nothing() {
    let mut backend = AnsiBackend::new();
    backend.draw_cell(2, 3, &cell("x", Color::Blue, Color::Reset, ITALIC));
    let cursor = backend.cursor();
    let style = backend.style();
    let before = queued(&backend);
    let mut skipped = cell("y", Color::Green, Color::White, BOLD);
    skipped.skip = true;
    backend.draw_cell(7, 7, &skipped);
    assert_eq!(backend.cursor(), cursor);
    assert_eq!(backend.style(), style);
    assert_eq!(queued(&backend), before);
}

#[test]
fn a_skipped_cell_may_lie_anywhere() {
    let mut skipped = plain("!");
    skipped.skip = true;
    let mut backend = AnsiBackend::new();
    let bytes = backend.draw(&vec![(65535, 65535, skipped.clone())]);
    assert_eq!(bytes, None);
    assert_eq!(backend.cursor(), None);
}

#[test]
fn a_frame_with_a_skipped_cell_is_the_frame_without_it() {
    let mut skipped = cell("S", Color::Cyan, Color::Black, DIM);
    skipped.skip = true;
    let with = vec![(0, 0, plain("a")), (1, 0, skipped), (2, 0, plain("b"))];
    let without = vec![(0, 0, plain("a")), (2, 0, plain("b"))];
    let mut first = AnsiBackend::new();
    let mut second = AnsiBackend::new();
    assert_eq!(first.draw(&with), second.draw(&without));
    assert_eq!(first.cursor(), second.cursor());
    assert_eq!(first.style(), second.style());
}

#[test]
fn the_second_cell_of_a_style_sends_no_attribute() {
    let mut backend = AnsiBackend::new();
    let look = cell("a", Color::Rgb(1, 2, 3), Color::Indexed(200), UNDERLINED | REVERSED);
    backend.draw_cell(0, 0, &look);
    let _ = backend.flush();
    backend.draw_cell(1, 0, &look);
    assert_eq!(queued(&backend), "a");
    let _ = backend.flush();
    backend.draw_cell(5, 5, &look);
    assert_eq!(queued(&backend), "\x1b[6;6Ha");
}

#[test]
fn a_style_in_effect_takes_no_sequence() {
    let mut backend = AnsiBackend::new();
    let target = Style {
        fg: Color::LightBlue,
        bg: Color::Gray,
        add_modifier: Modifier::from_bits_truncate(BOLD | SLOW_BLINK),
        sub_modifier: Modifier::empty(),
    };
    backend.apply_style(target);
    let _ = backend.flush();
    backend.apply_style(target);
    assert!(backend.pending().is_empty());
}

#[test]
fn an_unknown_style_is_reset_first() {
    let mut backend = AnsiBackend::new();
    backend.apply_style(Style::reset());
    assert_eq!(queued(&backend), "\x1b[0m");
    assert_eq!(backend.style(), Some(Style::reset()));
}

#[test]
fn bold_to_dim_sets_faint_only() {
    assert_eq!(modifier_change(BOLD, DIM), "\x1b[2m");
}

#[test]
fn intensity_takes_one_sequence_at_most() {
    assert_eq!(modifier_change(0, BOLD), "\x1b[1m");
    assert_eq!(modifier_change(0, DIM), "\x1b[2m");
    assert_eq!(modifier_change(0, BOLD | DIM), "\x1b[1m");
    assert_eq!(modifier_change(DIM, BOLD), "\x1b[1m");
    assert_eq!(modifier_change(BOLD, 0), "\x1b[22m");
    assert_eq!(modifier_change(DIM, 0), "\x1b[22m");
    assert_eq!(modifier_change(BOLD | DIM, 0), "\x1b[22m");
    assert_eq!(modifier_change(BOLD | DIM, BOLD), "\x1b[22m");
    assert_eq!(modifier_change(BOLD, BOLD | DIM), "\x1b[2m");
}

#[test]
fn each_modifier_has_its_sequences() {
    assert_eq!(modifier_change(0, CROSSED_OUT), "\x1b[9m");
    assert_eq!(modifier_change(CROSSED_OUT, 0), "\x1b[29m");
    assert_eq!(modifier_change(0, HIDDEN), "\x1b[8m");
    assert_eq!(modifier_change(HIDDEN, 0), "\x1b[28m");
    assert_eq!(modifier_change(0, ITALIC), "\x1b[3m");
    assert_eq!(modifier_change(ITALIC, 0), "\x1b[23m");
    assert_eq!(modifier_change(0, REVERSED), "\x1b[7m");
    assert_eq!(modifier_change(REVERSED, 0), "\x1b[27m");
    assert_eq!(modifier_change(0, UNDERLINED), "\x1b[4m");
    assert_eq!(modifier_change(UNDERLINED, 0), "\x1b[24m");
}

#[test]
fn modifiers_are_sent_in_a_fixed_order() {
    let all = BOLD | CROSSED_OUT | HIDDEN | ITALIC | SLOW_BLINK | REVERSED | UNDERLINED;
    assert_eq!(modifier_change(0, all), "\x1b[1m\x1b[9m\x1b[8m\x1b[3m\x1b[5m\x1b[7m\x1b[4m");
    assert_eq!(
        modifier_change(all, 0),
        "\x1b[22m\x1b[29m\x1b[28m\x1b[23m\x1b[25m\x1b[27m\x1b[24m"
    );
}

#[test]
fn the_two_blinks_share_one_attribute() {
    assert_eq!(modifier_change(0, SLOW_BLINK), "\x1b[5m");
    assert_eq!(modifier_change(0, RAPID_BLINK), "\x1b[5m");
    assert_eq!(modifier_change(SLOW_BLINK, SLOW_BLINK | RAPID_BLINK), "\x1b[5m");
    assert_eq!(modifier_change(SLOW_BLINK, 0), "\x1b[25m");
    assert_eq!(modifier_change(RAPID_BLINK, 0), "\x1b[25m");
    assert_eq!(modifier_change(SLOW_BLINK | RAPID_BLINK, 0), "\x1b[25m");
}

#[test]
fn blink_stays_on_while_one_blink_remains() {
    assert_eq!(modifier_change(SLOW_BLINK | RAPID_BLINK, SLOW_BLINK), "");
    assert_eq!(modifier_change(SLOW_BLINK | RAPID_BLINK, RAPID_BLINK), "");
}

#[test]
fn removed_modifiers_are_not_in_effect() {
    let mut backend = AnsiBackend::new();
    backend.apply_style(Style {
        fg: Color::Reset,
        bg: Color::Reset,
        add_modifier: Modifier::from_bits_truncate(BOLD | ITALIC),
        sub_modifier: Modifier::from_bits_truncate(BOLD),
    });
    assert_eq!(queued(&backend), "\x1b[0m\x1b[3m");
}

#[test]
fn the_background_comes_before_the_foreground() {
    let mut backend = AnsiBackend::new();
    backend.apply_style(Style::reset());
    let _ = backend.flush();
    backend.apply_style(Style {
        fg: Color::Yellow,
        bg: Color::Blue,
        add_modifier: Modifier::empty(),
        sub_modifier: Modifier::empty(),
    });
    assert_eq!(queued(&backend), "\x1b[48;5;4m\x1b[38;5;3m");
}

#[test]
fn a_color_is_sent_only_where_it_differs() {
    let mut backend = AnsiBackend::new();
    let first = Style {
        fg: Color::Yellow,
        bg: Color::Blue,
        add_modifier: Modifier::empty(),
        sub_modifier: Modifier::empty(),
    };
    backend.apply_style(first);
    let _ = backend.flush();
    backend.apply_style(Style { fg: Color::Reset, ..first });
    assert_eq!(queued(&backend), "\x1b[39m");
    let _ = backend.flush();
    backend.apply_style(Style { fg: Color::Reset, bg: Color::Reset, ..first });
    assert_eq!(queued(&backend), "\x1b[49m");
}

#[test]
fn colors_are_compared_by_value() {
    let mut backend = AnsiBackend::new();
    let red = Style {
        fg: Color::Red,
        bg: Color::Reset,
        add_modifier: Modifier::empty(),
        sub_modifier: Modifier::empty(),
    };
    backend.apply_style(red);
    let _ = backend.flush();
    backend.apply_style(Style { fg: Color::Indexed(1), ..red });
    assert_eq!(queued(&backend), "\x1b[38;5;1m");
    let _ = backend.flush();
    backend.apply_style(Style { fg: Color::Rgb(0, 0, 0), ..red });
    assert_eq!(queued(&backend), "\x1b[38;2;0;0;0m");
    let _ = backend.flush();
    backend.apply_style(Style { fg: Color::Rgb(0, 0, 1), ..red });
    assert_eq!(queued(&backend), "\x1b[38;2;0;0;1m");
}

#[test]
fn every_frame_starts_with_a_reset() {
    let mut backend = AnsiBackend::new();
    let cells = vec![(0, 0, cell("a", Color::Reset, Color::Reset, BOLD))];
    assert_eq!(backend.draw(&cells).unwrap(), "\x1b[1;1H\x1b[0m\x1b[1ma".as_bytes());
    assert_eq!(backend.draw(&cells).unwrap(), "\x1b[1;1H\x1b[0m\x1b[1ma".as_bytes());
}

#[test]
fn the_cursor_is_kept_from_frame_to_frame() {
    let mut backend = AnsiBackend::new();
    assert_eq!(backend.draw(&vec![(0, 0, plain("a"))]).unwrap(), "\x1b[1;1H\x1b[0ma".as_bytes());
    assert_eq!(backend.draw(&vec![(1, 0, plain("b"))]).unwrap(), "\x1b[0mb".as_bytes());
}

#[test]
fn a_cell_off_the_expected_place_gets_its_move() {
    let mut backend = AnsiBackend::new();
    let cells = vec![(0, 0, plain("a")), (0, 0, plain("b")), (2, 0, plain("c"))];
    let bytes = backend.draw(&cells).unwrap();
    assert_eq!(bytes, "\x1b[1;1H\x1b[0ma\x1b[1;1Hb\x1b[1;3Hc".as_bytes());
    assert_eq!(backend.cursor(), Some(Position { x: 3, y: 0 }));
}

#[test]
fn text_is_sent_as_it_is() {
    let mut backend = AnsiBackend::new();
    let cells = vec![(0, 0, plain("é")), (1, 0, plain("🔬")), (2, 0, plain("")), (3, 0, plain("ab"))];
    let bytes = backend.draw(&cells).unwrap();
    assert_eq!(bytes, "\x1b[1;1H\x1b[0mé🔬ab".as_bytes());
    assert_eq!(backend.cursor(), Some(Position { x: 4, y: 0 }));
}

#[test]
fn an_empty_frame_writes_nothing() {
    let mut backend = AnsiBackend::new();
    assert_eq!(backend.draw(&Vec::new()), None);
    assert_eq!(backend.flush(), None);
    assert_eq!(backend.style(), None);
}

#[test]
fn a_frame_takes_what_was_queued_before() {
    let mut backend = AnsiBackend::new();
    backend.hide_cursor();
    assert_eq!(backend.draw(&Vec::new()).unwrap(), "\x1b[?25l".as_bytes());
    assert!(backend.pending().is_empty());
}

#[test]
fn flush_takes_the_queue_once() {
    let mut backend = AnsiBackend::new();
    backend.show_cursor();
    backend.hide_cursor();
    assert_eq!(backend.flush().unwrap(), "\x1b[?25h\x1b[?25l".as_bytes());
    assert_eq!(backend.flush(), None);
}

#[test]
fn the_bell_is_one_byte() {
    let mut backend = AnsiBackend::new();
    backend.beep();
    assert_eq!(backend.pending().as_slice(), &[7u8]);
    assert_eq!(backend.cursor(), None);
}

#[test]
fn clear_resets_the_attributes_first() {
    let mut backend = AnsiBackend::new();
    backend.clear();
    assert_eq!(queued(&backend), "\x1b[0m\x1b[2J");
    assert_eq!(backend.style(), Some(Style::reset()));
    assert_eq!(backend.cursor(), None);
}

#[test]
fn entering_the_alternate_screen_sends_its_run_whole() {
    let mut backend = AnsiBackend::new();
    backend.exclusive();
    assert_eq!(queued(&backend), "\x1b[?1049h\x1b[1;1H\x1b[0m\x1b[2J");
    let _ = backend.flush();
    backend.exclusive();
    assert_eq!(queued(&backend), "\x1b[?1049h\x1b[1;1H\x1b[0m\x1b[2J");
}

#[test]
fn leaving_the_alternate_screen_sends_its_run_whole() {
    let mut backend = AnsiBackend::new();
    backend.set_cursor_position(Position { x: 0, y: 0 });
    let _ = backend.flush();
    backend.normal();
    assert_eq!(queued(&backend), "\x1b[1;1H\x1b[0m\x1b[2J\x1b[?1049l");
}

#[test]
fn entering_and_leaving_ends_where_a_session_starts() {
    let mut fresh = AnsiBackend::new();
    fresh.exclusive();
    let mut backend = AnsiBackend::new();
    backend.draw_cell(8, 8, &cell("q", Color::Magenta, Color::Green, HIDDEN));
    backend.exclusive();
    backend.normal();
    assert_eq!(backend.cursor(), Some(Position { x: 0, y: 0 }));
    assert_eq!(backend.style(), Some(Style::reset()));
    assert_eq!(backend.cursor(), fresh.cursor());
    assert_eq!(backend.style(), fresh.style());
}

#[test]
fn a_session_starts_on_a_clear_alternate_screen() {
    let mut backend = AnsiBackend::new();
    backend.start_session();
    assert_eq!(queued(&backend), "\x1b[?1049h\x1b[1;1H\x1b[0m\x1b[2J\x1b[0m\x1b[2J");
    assert_eq!(backend.cursor(), Some(Position::origin()));
}

#[test]
fn a_session_ends_with_all_written() {
    let mut backend = AnsiBackend::new();
    backend.beep();
    let bytes = backend.end_session().unwrap();
    assert_eq!(bytes, "\x07\x1b[0m\x1b[2J\x1b[1;1H\x1b[0m\x1b[2J\x1b[?1049l".as_bytes());
    assert!(backend.pending().is_empty());
}

#[test]
fn after_a_clear_the_first_cell_needs_no_reset() {
    let mut backend = AnsiBackend::new();
    backend.exclusive();
    let _ = backend.flush();
    backend.draw_cell(0, 0, &plain("a"));
    assert_eq!(queued(&backend), "a");
}

#[test]
fn gray_and_dark_gray_are_two_colors() {
    let mut backend = AnsiBackend::new();
    backend.apply_style(Style::reset());
    let _ = backend.flush();
    backend.apply_style(Style { bg: Color::Gray, ..Style::reset() });
    assert_eq!(queued(&backend), "\x1b[48;5;7m");
    let _ = backend.flush();
    backend.apply_style(Style { bg: Color::DarkGray, ..Style::reset() });
    assert_eq!(queued(&backend), "\x1b[48;5;8m");
}

#[test]
fn equal_modifiers_take_no_sequence() {
    let mut backend = AnsiBackend::new();
    backend.beep();
    let all = Modifier::from_bits_truncate(BOLD | ITALIC | SLOW_BLINK | CROSSED_OUT);
    backend.apply_modifiers(all, all);
    assert_eq!(backend.pending().as_slice(), &[7u8]);
    assert_eq!(backend.cursor(), None);
    assert_eq!(backend.style(), None);
}

#[test]
fn a_change_of_modifiers_queues_its_sequences() {
    let mut backend = AnsiBackend::new();
    backend.apply_modifiers(
        Modifier::from_bits_truncate(BOLD | RAPID_BLINK | UNDERLINED),
        Modifier::from_bits_truncate(DIM | REVERSED),
    );
    assert_eq!(queued(&backend), "\x1b[2m\x1b[25m\x1b[7m\x1b[24m");
    assert_eq!(backend.style(), None);
}
