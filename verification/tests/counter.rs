use ratatui_wasm_backend::counter::{App, Ingest, Main, Step};
use ratatui_wasm_backend::event::{KeyCode, KeyModifiers, Sequence};

fn press(code: KeyCode) -> Sequence {
    Sequence::Key(code, KeyModifiers::empty())
}

fn recorded(app: &App) -> Vec<Sequence> {
    app.seqs().iter().copied().collect()
}

#[test]
fn the_arrow_keys_move_the_counter() {
    let mut main = Main::new();
    assert_eq!(main.app().counter(), 0);
    assert_eq!(main.push_stdin_bytes(b"\x1b[A\x1b[C\x1b[C"), Ingest::Render);
    assert_eq!(main.app().counter(), 21);
    assert_eq!(main.push_stdin_bytes(b"\x1b[B\x1b[D"), Ingest::Render);
    assert_eq!(main.app().counter(), 10);
    assert_eq!(
        recorded(main.app()),
        vec![
            press(KeyCode::Up),
            press(KeyCode::Right),
            press(KeyCode::Right),
            press(KeyCode::Down),
            press(KeyCode::Left),
        ]
    );
}

#[test]
fn the_counter_does_not_leave_its_range() {
    let mut main = Main::new();
    assert_eq!(main.push_stdin_bytes(b"a\x1b[Bb"), Ingest::Overflow);
    assert_eq!(main.app().counter(), 0);
    assert_eq!(main.app().regex(), "a");
    assert_eq!(recorded(main.app()), vec![press(KeyCode::Char('a'))]);
    // What was decoded behind the key that was not taken is still queued.
    assert_eq!(main.push_stdin_bytes(b""), Ingest::Render);
    assert_eq!(main.app().regex(), "ab");

    let mut app = App::default();
    for _ in 0..6553 {
        assert_eq!(app.try_recv_sequence(press(KeyCode::Right)), Step::Continue);
    }
    assert_eq!(app.counter(), 65530);
    assert!(!app.can_take(press(KeyCode::Right)));
    assert_eq!(app.try_recv_sequence(press(KeyCode::Right)), Step::Overflow);
    assert_eq!(app.counter(), 65530);
    for _ in 0..5 {
        assert!(app.can_take(press(KeyCode::Up)));
        assert_eq!(app.recv_sequence(press(KeyCode::Up)), Step::Continue);
    }
    assert_eq!(app.counter(), 65535);
    assert!(!app.can_take(press(KeyCode::Up)));
    assert!(app.can_take(press(KeyCode::Left)));
    assert!(app.can_take(press(KeyCode::Char('x'))));
}

#[test]
fn a_counter_below_ten_does_not_go_left() {
    let mut app = App::default();
    for _ in 0..9 {
        assert_eq!(app.try_recv_sequence(press(KeyCode::Up)), Step::Continue);
    }
    assert_eq!(app.try_recv_sequence(press(KeyCode::Left)), Step::Overflow);
    assert_eq!(app.counter(), 9);
    assert_eq!(app.seqs().len(), 9);
    assert_eq!(app.try_recv_sequence(press(KeyCode::Up)), Step::Continue);
    assert_eq!(app.try_recv_sequence(press(KeyCode::Left)), Step::Continue);
    assert_eq!(app.counter(), 0);
}

#[test]
fn the_counter_application_takes_text() {
    let mut main = Main::new();
    assert_eq!(main.push_stdin_bytes(b"ab\x01c\t\r"), Ingest::Render);
    assert_eq!(main.app().regex(), "abc");
    assert_eq!(main.push_stdin_bytes(&[0x7f]), Ingest::Render);
    assert_eq!(main.app().regex(), "ab");
    assert_eq!(main.push_stdin_bytes(b"\x1b[3~\x1b[3~\x1b[3~"), Ingest::Render);
    assert_eq!(main.app().regex(), "");
    assert_eq!(main.app().counter(), 0);
    assert_eq!(main.app().seqs().len(), 10);
}

#[test]
fn the_counter_application_quits_on_escape_and_ctrl_c() {
    let mut main = Main::new();
    assert_eq!(main.push_stdin_bytes(b"a\x03b"), Ingest::Quit);
    assert_eq!(main.app().regex(), "a");
    assert_eq!(recorded(main.app()), vec![press(KeyCode::Char('a'))]);
    let mut main = Main::new();
    assert_eq!(main.push_stdin_bytes(&[0x1b]), Ingest::Quit);
    assert!(main.app().seqs().is_empty());
    let mut main = Main::new();
    assert_eq!(main.push_stdin_bytes(b""), Ingest::Idle);
}

#[test]
fn the_counter_application_notes_mouse_and_cursor() {
    let mut app = App::default();
    let wheel = Sequence::Mouse(anes::parser::Mouse::ScrollDown(2, 3), KeyModifiers::empty());
    assert_eq!(app.recv_sequence(wheel), Step::Continue);
    assert_eq!(app.recv_sequence(Sequence::CursorPosition(1, 1)), Step::Continue);
    assert_eq!(recorded(&app), vec![wheel, Sequence::CursorPosition(1, 1)]);
    assert_eq!(app.counter(), 0);
    assert_eq!(app.regex(), "");
}
