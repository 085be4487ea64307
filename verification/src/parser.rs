//! The decoder of terminal input.
//!
//! Decoding is the work of `anes::parser::Parser`. It is fed bytes and keeps
//! a queue of the pieces of input that it has made out of them.

use crate::event::KeyCode::{
    BackTab, Backspace, Char, Delete, Down, End, Enter, Esc, Home, Insert, Left, Null, PageDown,
    PageUp, Right, Tab, Up, F,
};
use crate::event::Sequence::{CursorPosition, Key};
use crate::event::{KeyModifiers, Sequence};
use anes::parser::KeyCode as Code;
use anes::parser::Parser;
use anes::parser::Sequence::{CursorPosition as Report, Key as Press, Mouse as Pointer};
use vstd::prelude::*;

verus! {

#[verifier::external_type_specification]
#[verifier::external_body]
pub struct ExParser(Parser);

/// The pieces of input that the decoder has made out and not yet handed
/// out, oldest first.
pub uninterp spec fn pending(parser: Parser) -> Seq<Sequence>;

/// The pieces of input that the decoder makes out of `bytes`, in order,
/// when it reads them in the state that `parser` is in. `more` says whether
/// more input is at hand behind `bytes`.
pub uninterp spec fn decoded(parser: Parser, bytes: Seq<u8>, more: bool) -> Seq<Sequence>;

/// `Parser::default()`: a decoder that has seen no input has nothing queued.
#[verifier::external_body]
pub(crate) fn new_parser() -> (parser: Parser)
    ensures
        pending(parser) == Seq::<Sequence>::empty(),
{
    Parser::default()
}

/// `Parser::advance`: the decoder reads `bytes`. What it makes out of them
/// goes to the back of its queue; what was queued stays in front.
#[verifier::external_body]
pub(crate) fn advance(parser: &mut Parser, bytes: &[u8], more: bool)
    ensures
        pending(*final(parser)) == pending(*old(parser)) + decoded(*old(parser), bytes@, more),
{
    parser.advance(bytes, more)
}

/// `Parser::next`: takes the oldest piece of input off the queue, if there
/// is one. Each key code becomes the key code of the same name; a mouse
/// event is handed on as it is.
#[verifier::external_body]
pub(crate) fn next(parser: &mut Parser) -> (sequence: Option<Sequence>)
    ensures
        match sequence {
            Some(first) => pending(*old(parser)).len() > 0 && first == pending(*old(parser))[0]
                && pending(*final(parser)) == pending(*old(parser)).drop_first(),
            None => pending(*old(parser)).len() == 0 && pending(*final(parser)).len() == 0,
        },
{
    Some(match parser.next()? {
        Press(code, m) => Key(match code {
            Code::Backspace => Backspace, Code::Enter => Enter, Code::Left => Left,
            Code::Right => Right, Code::Up => Up, Code::Down => Down, Code::Home => Home,
            Code::End => End, Code::PageUp => PageUp, Code::PageDown => PageDown,
            Code::Tab => Tab, Code::BackTab => BackTab, Code::Delete => Delete,
            Code::Insert => Insert, Code::F(n) => F(n), Code::Char(c) => Char(c),
            Code::Null => Null, Code::Esc => Esc,
        }, KeyModifiers { bits: m.bits() }),
        Pointer(e, m) => Sequence::Mouse(e, KeyModifiers { bits: m.bits() }),
        Report(x, y) => CursorPosition(x, y),
    })
}

} // verus!
