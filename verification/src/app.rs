//! The state of a regular expression tester, and what each piece of input
//! does to it.
//!
//! The tester shows a regular expression and a text. Matching is the work
//! of the host's engine: the state only notes when its matches are out of
//! date, and takes the engine's answer when the caller brings it.

use crate::ctrl::{Ctrl, GetCtrl};
use crate::event::{KeyCode, KeyModifiers, Sequence, ALT};
use crate::parser::{advance, decoded, new_parser, next, pending};
use crate::regexp::{Match, RegExp};
use crate::strings::{string_pop, string_push};
use crate::style::Color;
use crate::widgets::text_box::{TextBox, TextBoxView};
use anes::parser::Parser;
use std::collections::VecDeque;
use vstd::prelude::*;

verus! {

/// The pane that typing goes to.
#[derive(Clone, Copy, Debug, PartialEq, Eq, Structural)]
pub enum ActiveWidget {
    Regex,
    TextBox,
}

impl ActiveWidget {
    pub open spec fn spec_next(self) -> ActiveWidget {
        match self {
            ActiveWidget::Regex => ActiveWidget::TextBox,
            ActiveWidget::TextBox => ActiveWidget::Regex,
        }
    }

    /// Moves on to the other pane.
    pub fn next(&mut self)
        ensures
            *final(self) == old(self).spec_next(),
    {
        *self = match *self {
            ActiveWidget::Regex => ActiveWidget::TextBox,
            ActiveWidget::TextBox => ActiveWidget::Regex,
        }
    }

    /// The border color of the pane `this_widget`: white where typing goes
    /// to it, dark gray where not.
    pub fn color_for(&self, this_widget: ActiveWidget) -> (color: Color)
        ensures
            color == (if *self == this_widget {
                Color::White
            } else {
                Color::DarkGray
            }),
    {
        let same = match (*self, this_widget) {
            (ActiveWidget::Regex, ActiveWidget::Regex) => true,
            (ActiveWidget::TextBox, ActiveWidget::TextBox) => true,
            _ => false,
        };
        if same {
            Color::White
        } else {
            Color::DarkGray
        }
    }

    /// Typing starts in the pane of the regular expression.
    pub fn default() -> (widget: ActiveWidget)
        ensures
            widget == ActiveWidget::Regex,
    {
        ActiveWidget::Regex
    }
}

/// What the caller is to do after a piece of input.
#[derive(Clone, Copy, Debug, PartialEq, Eq, Structural)]
pub enum Outcome {
    /// Go on.
    Continue,
    /// The user asked to quit. This is no failure.
    Quit,
}

/// How many pieces of input are kept for the debug pane.
pub const DEBUG_SEQUENCES: usize = 10;

/// The state of the tester.
pub struct AppView {
    /// The regular expression as the user typed it.
    pub regex: Seq<char>,
    /// The text that is searched.
    pub body: TextBoxView,
    /// Whether to ring the bell at the next frame.
    pub beep: bool,
    /// What the engine said was wrong with the expression, if anything.
    pub error: Option<Seq<char>>,
    pub matches: Seq<Match>,
    /// Whether the debug pane is shown.
    pub debug: bool,
    /// The last pieces of input, oldest first.
    pub seqs: Seq<Sequence>,
    pub active_widget: ActiveWidget,
    /// Whether the expression has changed since the matches were found.
    pub stale: bool,
}

impl AppView {
    /// The state of a tester for the expression `regex` and the text `body`
    /// before any input: typing goes to the expression, and the matches are
    /// still to be found.
    pub open spec fn start(regex: Seq<char>, body: Seq<char>) -> AppView {
        AppView {
            regex,
            body: TextBoxView {
                text: body,
                pos: 0,
                dirty: true,
                last_wrap_width: 0,
                lines: Seq::empty(),
            },
            beep: false,
            error: None,
            matches: Seq::empty(),
            debug: false,
            seqs: Seq::empty(),
            active_widget: ActiveWidget::Regex,
            stale: true,
        }
    }

    /// The state with `seq` noted for the debug pane, which keeps the last
    /// ten.
    pub open spec fn add_debug_seq(self, seq: Sequence) -> AppView {
        let seqs = self.seqs.push(seq);
        AppView {
            seqs: if seqs.len() > DEBUG_SEQUENCES {
                seqs.drop_first()
            } else {
                seqs
            },
            ..self
        }
    }

    /// The state after the character `c` was typed into the expression.
    pub open spec fn got_char(self, c: char) -> AppView {
        AppView { regex: self.regex.push(c), stale: true, ..self }
    }

    /// The state after the last character of the expression was taken off.
    pub open spec fn backspace(self) -> AppView {
        AppView {
            regex: if self.regex.len() > 0 {
                self.regex.drop_last()
            } else {
                self.regex
            },
            stale: true,
            ..self
        }
    }

    /// Whether a key asks to quit: Escape does, and so does `Ctrl-C`.
    pub open spec fn is_quit(code: KeyCode) -> bool {
        code is Esc || (!(code is Tab) && code.spec_ctrl() == Some(Ctrl::C))
    }

    /// The state after a key that does not ask to quit. In order: Tab moves
    /// on to the other pane; any other chord of `Ctrl` and a letter rings
    /// the bell; `Alt-d` shows or hides the debug pane; the text box takes
    /// every other key while typing goes to it; a key with a modifier rings
    /// the bell; a character goes to the expression; Backspace and Delete
    /// take its last character off; any other key rings the bell.
    pub open spec fn key(self, code: KeyCode, modifiers: KeyModifiers) -> AppView {
        if code is Tab {
            AppView { active_widget: self.active_widget.spec_next(), ..self }
        } else if code.spec_ctrl() is Some {
            AppView { beep: true, ..self }
        } else if code == KeyCode::Char('d') && modifiers.bits == ALT {
            AppView { debug: !self.debug, ..self }
        } else if self.active_widget == ActiveWidget::TextBox {
            AppView { body: self.body.handle_input(code), ..self }
        } else if modifiers.bits != 0 {
            AppView { beep: true, ..self }
        } else {
            match code {
                KeyCode::Char(c) => self.got_char(c),
                KeyCode::Backspace | KeyCode::Delete => self.backspace(),
                _ => AppView { beep: true, ..self },
            }
        }
    }

    /// The state after a piece of input, and what the caller is to do. A
    /// request to quit leaves the state as it is. Anything else is noted
    /// for the debug pane; mouse events and cursor reports do nothing more.
    pub open spec fn recv_sequence(self, seq: Sequence) -> (AppView, Outcome) {
        match seq {
            Sequence::Key(code, modifiers) => if AppView::is_quit(code) {
                (self, Outcome::Quit)
            } else {
                (self.key(code, modifiers).add_debug_seq(seq), Outcome::Continue)
            },
            _ => (self.add_debug_seq(seq), Outcome::Continue),
        }
    }

    /// The state after the pieces of input `seqs`, one after the other, up
    /// to and with the first that asks to quit.
    pub open spec fn recv_all(self, seqs: Seq<Sequence>) -> (AppView, Outcome)
        decreases seqs.len(),
    {
        if seqs.len() == 0 {
            (self, Outcome::Continue)
        } else {
            let (before, outcome) = self.recv_all(seqs.drop_last());
            if outcome == Outcome::Quit {
                (before, outcome)
            } else {
                before.recv_sequence(seqs.last())
            }
        }
    }

    /// The state after the engine's answer was brought: its matches, or
    /// what it said was wrong with the expression.
    pub open spec fn calc_matches(self, answer: Result<Seq<Match>, Seq<char>>) -> AppView {
        match answer {
            Ok(matches) => AppView { matches, error: None, stale: false, ..self },
            Err(message) => AppView {
                error: Some(message),
                matches: Seq::empty(),
                stale: false,
                ..self
            },
        }
    }
}

/// Escape and `Ctrl-C` ask to quit, whatever modifiers come with them, and
/// change nothing: the control character of `Ctrl-C` is not typed into the
/// expression or the text. No other piece of input asks to quit.
pub proof fn lemma_quit_requests(app: AppView, seq: Sequence)
    ensures
        seq matches Sequence::Key(KeyCode::Char(c), _) && c as int == 3 ==> app.recv_sequence(seq)
            == (app, Outcome::Quit),
        seq matches Sequence::Key(KeyCode::Esc, _) ==> app.recv_sequence(seq) == (
            app,
            Outcome::Quit,
        ),
        app.recv_sequence(seq).1 == Outcome::Quit ==> app.recv_sequence(seq).0 == app,
        app.recv_sequence(seq).1 == Outcome::Quit <==> (seq matches Sequence::Key(code, _) && (code
            is Esc || (code matches KeyCode::Char(c) && c as int == 3))),
{
}

/// The tester.
pub struct App {
    regex: String,
    body: TextBox,
    beep: bool,
    error: Option<String>,
    matches: Vec<Match>,
    debug: bool,
    seqs: VecDeque<Sequence>,
    active_widget: ActiveWidget,
    stale: bool,
}

impl View for App {
    type V = AppView;

    closed spec fn view(&self) -> AppView {
        AppView {
            regex: self.regex@,
            body: self.body@,
            beep: self.beep,
            error: match self.error {
                Some(message) => Some(message@),
                None => None,
            },
            matches: self.matches@,
            debug: self.debug,
            seqs: self.seqs@,
            active_widget: self.active_widget,
            stale: self.stale,
        }
    }
}

impl App {
    /// A tester for the expression `regex` and the text `body`. Its matches
    /// are still to be found.
    pub fn new(regex: &str, body: &str) -> (app: App)
        ensures
            app@ == AppView::start(regex@, body@),
    {
        App {
            seqs: VecDeque::new(),
            regex: regex.to_owned(),
            body: TextBox::from(body),
            debug: false,
            beep: false,
            error: None,
            matches: Vec::new(),
            active_widget: ActiveWidget::default(),
            stale: true,
        }
    }

    pub fn regex(&self) -> (regex: &str)
        ensures
            regex@ == self@.regex,
    {
        self.regex.as_str()
    }

    pub fn body(&self) -> (body: &TextBox)
        ensures
            body@ == self@.body,
    {
        &self.body
    }

    /// The text box, to wrap its text before it is shown. What is done to
    /// the text box is done to the text box of the tester, and to nothing
    /// else of it.
    pub fn body_mut(&mut self) -> (body: &mut TextBox)
        ensures
            body@ == old(self)@.body,
            final(self)@ == (AppView { body: final(body)@, ..old(self)@ }),
    {
        &mut self.body
    }

    pub fn error(&self) -> (error: &Option<String>)
        ensures
            match *error {
                Some(message) => self@.error == Some(message@),
                None => self@.error is None,
            },
    {
        &self.error
    }

    pub fn matches(&self) -> (matches: &Vec<Match>)
        ensures
            matches@ == self@.matches,
    {
        &self.matches
    }

    pub fn debug(&self) -> (debug: bool)
        ensures
            debug == self@.debug,
    {
        self.debug
    }

    pub fn seqs(&self) -> (seqs: &VecDeque<Sequence>)
        ensures
            seqs@ == self@.seqs,
    {
        &self.seqs
    }

    pub fn active_widget(&self) -> (widget: ActiveWidget)
        ensures
            widget == self@.active_widget,
    {
        self.active_widget
    }

    /// Whether the matches are to be found anew before the next frame.
    pub fn stale(&self) -> (stale: bool)
        ensures
            stale == self@.stale,
    {
        self.stale
    }

    /// Whether to ring the bell now. The bell rings once for each time it
    /// was asked for.
    pub fn take_beep(&mut self) -> (beep: bool)
        ensures
            beep == old(self)@.beep,
            final(self)@ == (AppView { beep: false, ..old(self)@ }),
    {
        let beep = self.beep;
        self.beep = false;
        beep
    }

    /// What the engine is asked to compile: the expression, with the flags
    /// that every search uses.
    pub fn regexp(&self) -> (regexp: RegExp)
        ensures
            regexp.spec_pattern() == self@.regex,
            regexp.spec_flags() == "digm"@,
    {
        proof {
            reveal_strlit("digm");
            assert("digm"@[0] == 'd');
        }
        RegExp::new(self.regex.as_str(), "digm")
    }

    /// Takes the engine's answer: its matches, or what it said was wrong
    /// with the expression.
    pub fn calc_matches(&mut self, answer: Result<Vec<Match>, String>)
        ensures
            final(self)@ == old(self)@.calc_matches(
                match answer {
                    Ok(matches) => Ok(matches@),
                    Err(message) => Err(message@),
                },
            ),
    {
        match answer {
            Ok(matches) => {
                self.matches = matches;
                self.error = None;
            },
            Err(message) => {
                self.error = Some(message);
                self.matches.clear();
            },
        }
        self.stale = false;
    }

    fn add_debug_seq(&mut self, seq: Sequence)
        ensures
            final(self)@ == old(self)@.add_debug_seq(seq),
    {
        self.seqs.push_back(seq);
        if self.seqs.len() > DEBUG_SEQUENCES {
            self.seqs.pop_front();
        }
    }

    fn toggle_debug(&mut self)
        ensures
            final(self)@ == (AppView { debug: !old(self)@.debug, ..old(self)@ }),
    {
        self.debug = !self.debug;
    }

    fn got_char(&mut self, c: char)
        ensures
            final(self)@ == old(self)@.got_char(c),
    {
        string_push(&mut self.regex, c);
        self.stale = true;
    }

    fn backspace(&mut self)
        ensures
            final(self)@ == old(self)@.backspace(),
    {
        let _ = string_pop(&mut self.regex);
        self.stale = true;
    }

    /// Hands the key to the text box if typing goes to it.
    fn delegate_input(&mut self, seq: KeyCode) -> (taken: bool)
        ensures
            taken == (old(self)@.active_widget == ActiveWidget::TextBox),
            final(self)@ == (if taken {
                AppView { body: old(self)@.body.handle_input(seq), ..old(self)@ }
            } else {
                old(self)@
            }),
    {
        match self.active_widget {
            ActiveWidget::Regex => false,
            ActiveWidget::TextBox => {
                self.body.handle_input(seq);
                true
            },
        }
    }

    /// Takes one piece of input.
    pub fn recv_sequence(&mut self, seq: Sequence) -> (outcome: Outcome)
        ensures
            (final(self)@, outcome) == old(self)@.recv_sequence(seq),
    {
        match seq {
            Sequence::Mouse(_, _) => {},
            Sequence::CursorPosition(_, _) => {},
            Sequence::Key(code, modifiers) => {
                let chord = code.ctrl();
                let quit_chord = match chord {
                    Some(Ctrl::C) => true,
                    _ => false,
                };
                let alt_d = match code {
                    KeyCode::Char(c) => c == 'd' && modifiers.bits == ALT,
                    _ => false,
                };
                let is_tab = match code {
                    KeyCode::Tab => true,
                    _ => false,
                };
                let is_esc = match code {
                    KeyCode::Esc => true,
                    _ => false,
                };
                if is_esc {
                    return Outcome::Quit;
                } else if is_tab {
                    self.active_widget.next();
                } else if quit_chord {
                    return Outcome::Quit;
                } else if chord.is_some() {
                    self.beep = true;
                } else if alt_d {
                    self.toggle_debug();
                } else if self.delegate_input(code) {
                    // The text box took the key.
                } else if !modifiers.is_empty() {
                    self.beep = true;
                } else {
                    match code {
                        KeyCode::Char(c) => {
                            self.got_char(c);
                        },
                        KeyCode::Backspace | KeyCode::Delete => {
                            self.backspace();
                        },
                        _ => {
                            self.beep = true;
                        },
                    }
                }
            },
        }
        self.add_debug_seq(seq);
        Outcome::Continue
    }
}

/// What the caller is to do after a chunk of input.
#[derive(Clone, Copy, Debug, PartialEq, Eq, Structural)]
pub enum Ingest {
    /// The chunk held no piece of input: there is nothing to draw.
    Idle,
    /// At least one piece of input was taken: draw one frame.
    Render,
    /// The user asked to quit.
    Quit,
}

/// Whether `after` and `ingest` are what comes of `before` when `queue`
/// is what its decoder holds and `taken` the pieces of input handed to the
/// tester: the pieces taken are the front of the queue, and what stays
/// queued is the rest; the tester has taken each piece in order; it asked
/// to quit at the last piece taken or not at all; nothing is due where no
/// piece was taken; the queue is empty unless the user asked to quit.
pub open spec fn ingested(
    before: Main,
    queue: Seq<Sequence>,
    taken: Seq<Sequence>,
    after: Main,
    ingest: Ingest,
) -> bool {
    &&& taken + pending(after.parser()) == queue
    &&& before.app_view().recv_all(taken) == (
        after.app_view(),
        if ingest == Ingest::Quit {
            Outcome::Quit
        } else {
            Outcome::Continue
        },
    )
    &&& ingest == Ingest::Quit ==> taken.len() > 0 && before.app_view().recv_all(
        taken.drop_last(),
    ).1 == Outcome::Continue
    &&& ingest == Ingest::Idle <==> taken.len() == 0
    &&& ingest != Ingest::Quit ==> pending(after.parser()).len() == 0
}

/// The tester together with the decoder of its input.
pub struct Main {
    parser: Parser,
    app: App,
}

impl Main {
    pub closed spec fn parser(&self) -> Parser {
        self.parser
    }

    pub closed spec fn app_view(&self) -> AppView {
        self.app@
    }

    /// A tester for `regex` and `body` that has seen no input.
    pub fn new(regex: &str, body: &str) -> (main: Main)
        ensures
            pending(main.parser()) == Seq::<Sequence>::empty(),
            main.app_view() == AppView::start(regex@, body@),
    {
        Main { parser: new_parser(), app: App::new(regex, body) }
    }

    pub fn app(&self) -> (app: &App)
        ensures
            app@ == self.app_view(),
    {
        &self.app
    }

    /// The tester, to bring it the engine's answer or to ring its bell.
    pub fn app_mut(&mut self) -> (app: &mut App)
        ensures
            app@ == old(self).app_view(),
            final(self).app_view() == final(app)@,
            final(self).parser() == old(self).parser(),
    {
        &mut self.app
    }

    /// Takes a chunk of input: has the decoder read it, then hands what the
    /// decoder holds to the tester piece by piece, in order, up to the first
    /// piece that asks to quit. What the decoder holds is what it had
    /// queued before, then what it makes out of the chunk. One frame is due
    /// if at least one piece was taken and none asked to quit.
    pub fn push_stdin_bytes(&mut self, bytes: &[u8]) -> (ingest: Ingest)
        ensures
            exists|taken: Seq<Sequence>| #[trigger]
                ingested(
                    *old(self),
                    pending(old(self).parser()) + decoded(old(self).parser(), bytes@, false),
                    taken,
                    *final(self),
                    ingest,
                ),
    {
        advance(&mut self.parser, bytes, false);
        let ghost queue = pending(self.parser);
        let ghost mut taken = Seq::<Sequence>::empty();
        let mut got_token = false;
        assert(taken + pending(self.parser) =~= queue);
        loop
            invariant
                queue == pending(old(self).parser()) + decoded(old(self).parser(), bytes@, false),
                taken + pending(self.parser) == queue,
                old(self).app_view().recv_all(taken) == (self.app@, Outcome::Continue),
                got_token <==> taken.len() > 0,
            ensures
                pending(self.parser).len() == 0,
            decreases pending(self.parser).len(),
        {
            let ghost app_before = self.app@;
            let seq = match next(&mut self.parser) {
                Some(seq) => seq,
                None => {
                    break ;
                },
            };
            let ghost before = taken;
            proof {
                taken = taken.push(seq);
                assert(taken.drop_last() =~= before);
                assert(taken.last() == seq);
                assert(taken + pending(self.parser) =~= queue);
            }
            let outcome = self.app.recv_sequence(seq);
            assert(old(self).app_view().recv_all(taken) == app_before.recv_sequence(seq));
            match outcome {
                Outcome::Quit => {
                    assert(ingested(*old(self), queue, taken, *self, Ingest::Quit));
                    return Ingest::Quit;
                },
                Outcome::Continue => {},
            }
            got_token = true;
        }
        if got_token {
            assert(ingested(*old(self), queue, taken, *self, Ingest::Render));
            Ingest::Render
        } else {
            assert(ingested(*old(self), queue, taken, *self, Ingest::Idle));
            Ingest::Idle
        }
    }
}

} // verus!
