//! The state of a smaller application: a counter that the arrow keys move,
//! and a line of text that is typed.

use crate::ctrl::{Ctrl, GetCtrl};
use crate::event::{KeyCode, Sequence};
use crate::parser::{advance, decoded, new_parser, next, pending};
use crate::strings::{string_pop, string_push};
use anes::parser::Parser;
use std::collections::VecDeque;
use vstd::prelude::*;

verus! {

/// How many pieces of input are kept for the debug pane.
pub const DEBUG_SEQUENCES: usize = 10;

/// What came of a piece of input.
#[derive(Clone, Copy, Debug, PartialEq, Eq, Structural)]
pub enum Step {
    /// The piece was taken. Go on.
    Continue,
    /// The user asked to quit. This is no failure.
    Quit,
    /// The piece would have moved the counter out of its range, and was not
    /// taken.
    Overflow,
}

/// The state of the application.
pub struct AppView {
    pub counter: int,
    /// The last pieces of input, oldest first.
    pub seqs: Seq<Sequence>,
    /// The text as the user typed it.
    pub regex: Seq<char>,
}

impl AppView {
    /// The state before any input.
    pub open spec fn start() -> AppView {
        AppView { counter: 0, seqs: Seq::empty(), regex: Seq::empty() }
    }

    /// The state with `seq` noted for the debug pane, which keeps the last
    /// ten.
    pub open spec fn add_seq(self, seq: Sequence) -> AppView {
        let seqs = self.seqs.push(seq);
        AppView {
            seqs: if seqs.len() > DEBUG_SEQUENCES {
                seqs.drop_first()
            } else {
                seqs
            },
            ..self
        }
    }

    /// By how much a key moves the counter: Up and Down by one, Right and
    /// Left by ten.
    pub open spec fn counter_step(code: KeyCode) -> int {
        match code {
            KeyCode::Up => 1,
            KeyCode::Down => -1,
            KeyCode::Left => -10,
            KeyCode::Right => 10,
            _ => 0,
        }
    }

    /// Whether the piece of input leaves the counter in its range, which is
    /// that of 16 bits.
    pub open spec fn can_take(self, seq: Sequence) -> bool {
        match seq {
            Sequence::Key(code, _) => 0 <= self.counter + AppView::counter_step(code) <= u16::MAX,
            _ => true,
        }
    }

    /// Whether a key asks to quit: Escape does, and so does `Ctrl-C`.
    pub open spec fn is_quit(code: KeyCode) -> bool {
        code is Esc || (code.spec_ctrl() == Some(Ctrl::C) && AppView::counter_step(code) == 0)
    }

    /// The state after a key that does not ask to quit: an arrow key moves
    /// the counter; a character that stands for no chord of `Ctrl` and a
    /// letter is typed; Backspace and Delete take the last character off;
    /// any other key does nothing.
    pub open spec fn key(self, code: KeyCode) -> AppView {
        match code {
            KeyCode::Up | KeyCode::Down | KeyCode::Left | KeyCode::Right => AppView {
                counter: self.counter + AppView::counter_step(code),
                ..self
            },
            KeyCode::Char(c) => if code.spec_ctrl() is None {
                AppView { regex: self.regex.push(c), ..self }
            } else {
                self
            },
            KeyCode::Backspace | KeyCode::Delete => AppView {
                regex: if self.regex.len() > 0 {
                    self.regex.drop_last()
                } else {
                    self.regex
                },
                ..self
            },
            _ => self,
        }
    }

    /// The state after a piece of input, and whether it asked to quit. A
    /// request to quit leaves the state as it is. Anything else is noted
    /// for the debug pane; mouse events and cursor reports do nothing more.
    pub open spec fn recv_sequence(self, seq: Sequence) -> (AppView, Step) {
        match seq {
            Sequence::Key(code, _) => if AppView::is_quit(code) {
                (self, Step::Quit)
            } else {
                (self.key(code).add_seq(seq), Step::Continue)
            },
            _ => (self.add_seq(seq), Step::Continue),
        }
    }

    /// The state after a piece of input that is taken only if it leaves the
    /// counter in its range.
    pub open spec fn try_recv_sequence(self, seq: Sequence) -> (AppView, Step) {
        if self.can_take(seq) {
            self.recv_sequence(seq)
        } else {
            (self, Step::Overflow)
        }
    }

    /// The state after the pieces of input `seqs`, one after the other, up
    /// to and with the first that is not taken or asks to quit.
    pub open spec fn recv_all(self, seqs: Seq<Sequence>) -> (AppView, Step)
        decreases seqs.len(),
    {
        if seqs.len() == 0 {
            (self, Step::Continue)
        } else {
            let (before, step) = self.recv_all(seqs.drop_last());
            if step != Step::Continue {
                (before, step)
            } else {
                before.try_recv_sequence(seqs.last())
            }
        }
    }
}

/// The application.
pub struct App {
    counter: u16,
    seqs: VecDeque<Sequence>,
    regex: String,
}

impl View for App {
    type V = AppView;

    closed spec fn view(&self) -> AppView {
        AppView { counter: self.counter as int, seqs: self.seqs@, regex: self.regex@ }
    }
}

impl App {
    /// An application that has seen no input.
    pub fn default() -> (app: App)
        ensures
            app@ == AppView::start(),
    {
        App { counter: 0, seqs: VecDeque::new(), regex: String::new() }
    }

    pub fn counter(&self) -> (counter: u16)
        ensures
            counter == self@.counter,
    {
        self.counter
    }

    pub fn regex(&self) -> (regex: &str)
        ensures
            regex@ == self@.regex,
    {
        self.regex.as_str()
    }

    pub fn seqs(&self) -> (seqs: &VecDeque<Sequence>)
        ensures
            seqs@ == self@.seqs,
    {
        &self.seqs
    }

    fn add_seq(&mut self, seq: Sequence)
        ensures
            final(self)@ == old(self)@.add_seq(seq),
    {
        self.seqs.push_back(seq);
        if self.seqs.len() > DEBUG_SEQUENCES {
            self.seqs.pop_front();
        }
    }

    /// Whether the piece of input leaves the counter in its range.
    pub fn can_take(&self, seq: Sequence) -> (fits: bool)
        ensures
            fits == self@.can_take(seq),
    {
        match seq {
            Sequence::Key(code, _) => match code {
                KeyCode::Up => self.counter < u16::MAX,
                KeyCode::Down => self.counter >= 1,
                KeyCode::Left => self.counter >= 10,
                KeyCode::Right => self.counter <= u16::MAX - 10,
                _ => true,
            },
            _ => true,
        }
    }

    /// Takes one piece of input.
    pub fn recv_sequence(&mut self, seq: Sequence) -> (step: Step)
        requires
            old(self)@.can_take(seq),
        ensures
            (final(self)@, step) == old(self)@.recv_sequence(seq),
    {
        match seq {
            Sequence::Key(code, _modifiers) => {
                let quit_chord = match code.ctrl() {
                    Some(Ctrl::C) => true,
                    _ => false,
                };
                match code {
                    KeyCode::Up => {
                        self.counter += 1;
                    },
                    KeyCode::Down => {
                        self.counter -= 1;
                    },
                    KeyCode::Left => {
                        self.counter -= 10;
                    },
                    KeyCode::Right => {
                        self.counter += 10;
                    },
                    KeyCode::Esc => {
                        return Step::Quit;
                    },
                    KeyCode::Char(c) => {
                        if quit_chord {
                            return Step::Quit;
                        }
                        if code.ctrl().is_none() {
                            string_push(&mut self.regex, c);
                        }
                    },
                    KeyCode::Backspace => {
                        let _ = string_pop(&mut self.regex);
                    },
                    KeyCode::Delete => {
                        let _ = string_pop(&mut self.regex);
                    },
                    _ => {},
                }
            },
            Sequence::Mouse(_, _) => {},
            Sequence::CursorPosition(_, _) => {},
        }
        self.add_seq(seq);
        Step::Continue
    }

    /// Takes one piece of input if it leaves the counter in its range, and
    /// says so if it does not.
    pub fn try_recv_sequence(&mut self, seq: Sequence) -> (step: Step)
        ensures
            (final(self)@, step) == old(self)@.try_recv_sequence(seq),
    {
        if self.can_take(seq) {
            self.recv_sequence(seq)
        } else {
            Step::Overflow
        }
    }
}

/// `Ctrl-C` and Escape ask to quit and change nothing; no other piece of
/// input asks to quit.
pub proof fn lemma_quit_requests(app: AppView, seq: Sequence)
    ensures
        seq matches Sequence::Key(KeyCode::Char(c), _) && c as int == 3 ==> app.recv_sequence(seq)
            == (app, Step::Quit),
        seq matches Sequence::Key(KeyCode::Esc, _) ==> app.recv_sequence(seq) == (app, Step::Quit),
        app.recv_sequence(seq).1 == Step::Quit <==> (seq matches Sequence::Key(code, _) && (code
            is Esc || (code matches KeyCode::Char(c) && c as int == 3))),
        app.recv_sequence(seq).1 != Step::Overflow,
{
}

/// What the caller is to do after a chunk of input.
#[derive(Clone, Copy, Debug, PartialEq, Eq, Structural)]
pub enum Ingest {
    /// The chunk held no piece of input: there is nothing to draw.
    Idle,
    /// At least one piece of input was taken: draw one frame.
    Render,
    /// The user asked to quit.
    Quit,
    /// A piece of input would have moved the counter out of its range.
    Overflow,
}

impl Ingest {
    /// What came of the last piece of input that was handed over.
    pub open spec fn last_step(self) -> Step {
        match self {
            Ingest::Quit => Step::Quit,
            Ingest::Overflow => Step::Overflow,
            _ => Step::Continue,
        }
    }
}

/// Whether `after` and `ingest` are what comes of `before` when `queue` is
/// what its decoder holds and `taken` the pieces of input handed to the
/// application: the pieces taken are the front of the queue, and what
/// stays queued is the rest; the application was handed each piece in
/// order; the last piece handed over stopped the run, or none did; nothing
/// is due where no piece was handed over; the queue is empty unless a piece
/// stopped the run.
pub open spec fn ingested(
    before: Main,
    queue: Seq<Sequence>,
    taken: Seq<Sequence>,
    after: Main,
    ingest: Ingest,
) -> bool {
    &&& taken + pending(after.parser()) == queue
    &&& before.app_view().recv_all(taken) == (after.app_view(), ingest.last_step())
    &&& ingest.last_step() != Step::Continue ==> taken.len() > 0 && before.app_view().recv_all(
        taken.drop_last(),
    ).1 == Step::Continue
    &&& ingest == Ingest::Idle <==> taken.len() == 0
    &&& ingest.last_step() == Step::Continue ==> pending(after.parser()).len() == 0
}

/// The application together with the decoder of its input.
pub struct Main {
    parser: Parser,
    app: App,
}

impl Main {
    pub closed spec fn parser(&self) -> Parser {
        self.parser
    }

    pub closed spec fn app_view(&self) -> AppView {
        self.app@
    }

    /// An application that has seen no input.
    pub fn new() -> (main: Main)
        ensures
            pending(main.parser()) == Seq::<Sequence>::empty(),
            main.app_view() == AppView::start(),
    {
        Main { parser: new_parser(), app: App::default() }
    }

    pub fn app(&self) -> (app: &App)
        ensures
            app@ == self.app_view(),
    {
        &self.app
    }

    /// Takes a chunk of input: has the decoder read it, then hands what the
    /// decoder holds to the application piece by piece, in order, up to the
    /// first piece that asks to quit or would move the counter out of its
    /// range. What the decoder holds is what it had queued before, then
    /// what it makes out of the chunk. One frame is due if at least one
    /// piece was handed over and none stopped the run.
    pub fn push_stdin_bytes(&mut self, bytes: &[u8]) -> (ingest: Ingest)
        ensures
            exists|taken: Seq<Sequence>| #[trigger]
                ingested(
                    *old(self),
                    pending(old(self).parser()) + decoded(old(self).parser(), bytes@, false),
                    taken,
                    *final(self),
                    ingest,
                ),
    {
        advance(&mut self.parser, bytes, false);
        let ghost queue = pending(self.parser);
        let ghost mut taken = Seq::<Sequence>::empty();
        let mut got_token = false;
        assert(taken + pending(self.parser) =~= queue);
        loop
            invariant
                queue == pending(old(self).parser()) + decoded(old(self).parser(), bytes@, false),
                taken + pending(self.parser) == queue,
                old(self).app_view().recv_all(taken) == (self.app@, Step::Continue),
                got_token <==> taken.len() > 0,
            ensures
                pending(self.parser).len() == 0,
            decreases pending(self.parser).len(),
        {
            let ghost app_before = self.app@;
            let seq = match next(&mut self.parser) {
                Some(seq) => seq,
                None => {
                    break ;
                },
            };
            let ghost before = taken;
            proof {
                taken = taken.push(seq);
                assert(taken.drop_last() =~= before);
                assert(taken.last() == seq);
                assert(taken + pending(self.parser) =~= queue);
            }
            let step = self.app.try_recv_sequence(seq);
            assert(old(self).app_view().recv_all(taken) == app_before.try_recv_sequence(seq));
            match step {
                Step::Quit => {
                    assert(ingested(*old(self), queue, taken, *self, Ingest::Quit));
                    return Ingest::Quit;
                },
                Step::Overflow => {
                    assert(ingested(*old(self), queue, taken, *self, Ingest::Overflow));
                    return Ingest::Overflow;
                },
                Step::Continue => {},
            }
            got_token = true;
        }
        if got_token {
            assert(ingested(*old(self), queue, taken, *self, Ingest::Render));
            Ingest::Render
        } else {
            assert(ingested(*old(self), queue, taken, *self, Ingest::Idle));
            Ingest::Idle
        }
    }
}

} // verus!
