//! An ANSI terminal backend for cell-grid user interfaces, with the pieces
//! of a small application built on it.
//!
//! - [`backend`] turns the changed cells of a frame into as few escape
//!   sequences as it can, and keeps track of the terminal's cursor and
//!   style while it does.
//! - [`sequences`] holds the escape sequences and the bytes they stand for;
//!   [`style`] the colors and modifiers of a cell.
//! - [`ctrl`] tells which decoded keys stand for a chord of `Ctrl` and a
//!   letter; [`event`] holds what a decoder reports and [`parser`] the
//!   decoder.
//! - [`app`] is the state of a regular expression tester: what each piece
//!   of input does to it. [`regexp`] and [`widgets`] are its parts.
//!   [`counter`] is the state of a smaller application.
//!
//! The library writes to no terminal and calls no host. It queues bytes and
//! hands them out; it takes the host's answers as plain values.

pub mod app;
pub mod backend;
pub mod counter;
pub mod ctrl;
pub mod event;
pub mod parser;
pub mod regexp;
pub mod sequences;
pub mod strings;
pub mod style;
pub mod widgets;
