//! A box of text that wraps its text to a width.

use crate::event::KeyCode;
use crate::strings::{len_utf8, string_insert, string_remove};
use vstd::prelude::*;
use vstd::utf8::{
    decode_utf8, encode_scalar, encode_utf8, is_char_boundary, length_of_first_scalar,
    pop_first_scalar, valid_utf8,
};

verus! {

/// The lines that `text` wraps to at `width` columns, words broken where
/// they are longer than a line.
pub uninterp spec fn wrapped(text: Seq<char>, width: u16) -> Seq<Seq<char>>;

/// `textwrap::wrap` with `Options::new(width).break_words(true)`: the lines
/// that `text` wraps to.
#[verifier::external_body]
fn wrap(text: &str, width: u16) -> (lines: Vec<String>)
    ensures
        lines@.len() == wrapped(text@, width).len(),
        forall|i: int| 0 <= i < lines@.len() ==> (#[trigger] lines@[i])@ == wrapped(text@, width)[i],
{
    let options = textwrap::Options::new(usize::from(width)).break_words(true);
    textwrap::wrap(text, options).into_iter().map(|line| line.into_owned()).collect()
}

/// What a text box holds.
pub struct TextBoxView {
    pub text: Seq<char>,
    /// Where typing goes: a place in the text, counted in bytes of UTF-8.
    pub pos: int,
    /// Whether the text has changed since it was last wrapped.
    pub dirty: bool,
    /// The width that the text was last wrapped to.
    pub last_wrap_width: u16,
    /// The lines that the text was last wrapped to.
    pub lines: Seq<Seq<char>>,
}

/// The bytes of a text without the character that starts at byte `start`.
pub open spec fn without_char_at(bytes: Seq<u8>, start: int) -> Seq<u8> {
    bytes.subrange(0, start) + bytes.subrange(
        start + length_of_first_scalar(bytes.subrange(start, bytes.len() as int)),
        bytes.len() as int,
    )
}

/// Bytes that a character was taken out of at `start` are the bytes from
/// before without that character.
proof fn lemma_without_char_at(before: Seq<u8>, after: Seq<u8>, start: int, ch: char)
    requires
        0 <= start <= after.len(),
        before == after.subrange(0, start) + encode_scalar(ch as u32) + after.subrange(
            start,
            after.len() as int,
        ),
    ensures
        after == without_char_at(before, start),
{
    let head = after.subrange(0, start);
    let taken = encode_scalar(ch as u32);
    let tail = after.subrange(start, after.len() as int);
    let one = seq![ch];
    assert(encode_utf8(one.drop_first()) =~= Seq::<u8>::empty());
    assert(encode_utf8(one) =~= taken);
    vstd::utf8::encode_utf8_first_scalar(one);
    assert(length_of_first_scalar(taken) == taken.len());
    let rest = before.subrange(start, before.len() as int);
    assert(rest =~= taken + tail);
    assert(rest[0] == taken[0]);
    assert(length_of_first_scalar(rest) == taken.len());
    assert(before.subrange(0, start) =~= head);
    assert(before.subrange(start + taken.len(), before.len() as int) =~= tail);
    assert(after =~= head + tail);
}

impl TextBoxView {
    /// The text as bytes of UTF-8.
    pub open spec fn bytes(self) -> Seq<u8> {
        encode_utf8(self.text)
    }

    /// Whether typing goes to a character boundary of the text.
    pub open spec fn well_formed(self) -> bool {
        0 <= self.pos <= self.bytes().len() && is_char_boundary(self.bytes(), self.pos)
    }

    /// Whether the wrapped lines are those of the text, unless the box is
    /// marked as changed.
    pub open spec fn lines_are_current(self) -> bool {
        !self.dirty ==> self.lines == wrapped(self.text, self.last_wrap_width)
    }

    /// Where a typed character goes: at `pos` if that is a character
    /// boundary of the text, else at its end.
    pub open spec fn insertion_point(self) -> int {
        if is_char_boundary(self.bytes(), self.pos) {
            self.pos
        } else {
            self.bytes().len() as int
        }
    }

    /// The box after `ch` was typed: `ch` stands at the insertion point and
    /// typing goes on behind it.
    pub open spec fn insert(self, ch: char) -> TextBoxView {
        let at = self.insertion_point();
        TextBoxView {
            text: decode_utf8(
                self.bytes().subrange(0, at) + encode_scalar(ch as u32) + self.bytes().subrange(
                    at,
                    self.bytes().len() as int,
                ),
            ),
            pos: at + encode_scalar(ch as u32).len(),
            dirty: true,
            ..self
        }
    }

    /// Where the character in front of byte `from` starts, looking back at
    /// most four bytes: the last character boundary before `from`.
    pub open spec fn boundary_before(self, from: int) -> Option<int> {
        if 1 <= from && is_char_boundary(self.bytes(), from - 1) {
            Some(from - 1)
        } else if 2 <= from && is_char_boundary(self.bytes(), from - 2) {
            Some(from - 2)
        } else if 3 <= from && is_char_boundary(self.bytes(), from - 3) {
            Some(from - 3)
        } else if 4 <= from && is_char_boundary(self.bytes(), from - 4) {
            Some(from - 4)
        } else {
            None
        }
    }

    /// Where backspace starts from: `pos`, or the end of the text if `pos`
    /// lies behind it.
    pub open spec fn backspace_from(self) -> int {
        if self.pos > self.bytes().len() {
            self.bytes().len() as int
        } else {
            self.pos
        }
    }

    /// The box after backspace. At the start of the text backspace does
    /// nothing. Else it takes out the character in front of `pos`, and
    /// typing goes on where that character was.
    pub open spec fn backspace(self) -> TextBoxView {
        if self.pos == 0 {
            self
        } else {
            match self.boundary_before(self.backspace_from()) {
                Some(start) => TextBoxView {
                    text: decode_utf8(without_char_at(self.bytes(), start)),
                    pos: start,
                    dirty: true,
                    ..self
                },
                None => TextBoxView { pos: self.backspace_from(), dirty: true, ..self },
            }
        }
    }

    /// The box after the text was wrapped to `width`. Nothing is done where
    /// the text has not changed since it was wrapped to the same width.
    pub open spec fn rewrap(self, width: u16) -> TextBoxView {
        if !self.dirty && self.last_wrap_width == width {
            self
        } else {
            TextBoxView {
                lines: wrapped(self.text, width),
                last_wrap_width: width,
                dirty: false,
                ..self
            }
        }
    }

    /// The box after a key was pressed: backspace takes a character out, a
    /// character or Enter puts one in, and no other key does anything.
    pub open spec fn handle_input(self, key: KeyCode) -> TextBoxView {
        match key {
            KeyCode::Backspace => self.backspace(),
            KeyCode::Enter => self.insert('\n'),
            KeyCode::Char(c) => self.insert(c),
            _ => self,
        }
    }
}

/// In a text, no character takes more than four bytes: in front of every
/// character boundary but the first lies another, at most four bytes back.
proof fn lemma_boundary_within_four(bytes: Seq<u8>, index: int)
    requires
        valid_utf8(bytes),
        is_char_boundary(bytes, index),
        index > 0,
    ensures
        boundary_within_four(bytes, index),
    decreases bytes.len(),
{
    reveal_with_fuel(is_char_boundary, 2);
    let first = length_of_first_scalar(bytes);
    let rest = pop_first_scalar(bytes);
    assert(1 <= first <= 4);
    if index - first == 0 {
        assert(is_char_boundary(bytes, index - first));
    } else {
        assert(is_char_boundary(rest, index - first));
        assert(index - first > 0);
        lemma_boundary_within_four(rest, index - first);
        let near = index - first;
        if is_char_boundary(rest, near - 1) {
            lemma_boundary_of_rest(bytes, near - 1);
        } else if 2 <= near && is_char_boundary(rest, near - 2) {
            lemma_boundary_of_rest(bytes, near - 2);
        } else if 3 <= near && is_char_boundary(rest, near - 3) {
            lemma_boundary_of_rest(bytes, near - 3);
        } else {
            lemma_boundary_of_rest(bytes, near - 4);
        }
    }
}

/// Whether one of the four bytes in front of `index` is a character
/// boundary.
spec fn boundary_within_four(bytes: Seq<u8>, index: int) -> bool {
    ||| 1 <= index && is_char_boundary(bytes, index - 1)
    ||| 2 <= index && is_char_boundary(bytes, index - 2)
    ||| 3 <= index && is_char_boundary(bytes, index - 3)
    ||| 4 <= index && is_char_boundary(bytes, index - 4)
}

/// A character boundary of a text without its first character is one of
/// the text, further back by that character.
proof fn lemma_boundary_of_rest(bytes: Seq<u8>, index: int)
    requires
        valid_utf8(bytes),
        bytes.len() > 0,
        0 <= index,
        is_char_boundary(pop_first_scalar(bytes), index),
    ensures
        is_char_boundary(bytes, index + length_of_first_scalar(bytes)),
{
    reveal_with_fuel(is_char_boundary, 2);
    let first = length_of_first_scalar(bytes);
    let rest = pop_first_scalar(bytes);
    assert(1 <= first <= 4);
    assert(rest.len() == bytes.len() - first);
    if index > 0 {
        assert(index <= rest.len());
    }
}

/// Where two texts are put together, the seam is a character boundary.
proof fn lemma_seam_is_boundary(head: Seq<u8>, tail: Seq<u8>)
    requires
        valid_utf8(head),
        valid_utf8(tail),
    ensures
        valid_utf8(head + tail),
        is_char_boundary(head + tail, head.len() as int),
{
    vstd::utf8::valid_utf8_concat(head, tail);
    let whole = head + tail;
    if tail.len() == 0 {
        assert(whole =~= head);
        vstd::utf8::is_char_boundary_start_end_of_seq(whole);
    } else if head.len() > 0 {
        vstd::utf8::is_char_boundary_start_end_of_seq(tail);
        vstd::utf8::is_char_boundary_iff_not_is_continuation_byte(tail, 0);
        assert(whole[head.len() as int] == tail[0]);
        vstd::utf8::is_char_boundary_iff_not_is_continuation_byte(whole, head.len() as int);
    }
}

/// A box whose typing goes to a character boundary keeps it there through
/// every key. In such a box a typed character goes where typing is, and
/// backspace, unless typing is at the start, takes out a character.
pub proof fn lemma_text_box_stays_well_formed(text_box: TextBoxView, key: KeyCode)
    requires
        text_box.well_formed(),
    ensures
        text_box.handle_input(key).well_formed(),
        text_box.insertion_point() == text_box.pos,
        text_box.backspace_from() == text_box.pos,
        text_box.pos > 0 ==> text_box.boundary_before(text_box.pos) is Some,
        text_box.pos > 0 ==> text_box.backspace().bytes().len() < text_box.bytes().len(),
{
    lemma_insert_keeps_well_formed(text_box, '\n');
    if let KeyCode::Char(c) = key {
        lemma_insert_keeps_well_formed(text_box, c);
    }
    lemma_backspace_keeps_well_formed(text_box);
}

proof fn lemma_insert_keeps_well_formed(text_box: TextBoxView, c: char)
    requires
        text_box.well_formed(),
    ensures
        text_box.insert(c).well_formed(),
{
    let bytes = text_box.bytes();
    let at = text_box.pos;
    let head = bytes.subrange(0, at);
    let tail = bytes.subrange(at, bytes.len() as int);
    let typed = encode_scalar(c as u32);
    let one = seq![c];
    vstd::utf8::encode_utf8_valid_utf8(text_box.text);
    vstd::utf8::valid_utf8_split(bytes, at);
    assert(encode_utf8(one.drop_first()) =~= Seq::<u8>::empty());
    assert(encode_utf8(one) =~= typed);
    vstd::utf8::encode_utf8_valid_utf8(one);
    lemma_seam_is_boundary(head, typed);
    lemma_seam_is_boundary(head + typed, tail);
    let grown = head + typed + tail;
    vstd::utf8::decode_utf8_encode_utf8(grown);
    assert(text_box.insert(c).bytes() == grown);
    assert((head + typed).len() == at + typed.len());
}

proof fn lemma_backspace_keeps_well_formed(text_box: TextBoxView)
    requires
        text_box.well_formed(),
    ensures
        text_box.backspace().well_formed(),
        text_box.pos > 0 ==> text_box.boundary_before(text_box.pos) is Some,
        text_box.pos > 0 ==> text_box.backspace().bytes().len() < text_box.bytes().len(),
{
    let bytes = text_box.bytes();
    let from = text_box.pos;
    vstd::utf8::encode_utf8_valid_utf8(text_box.text);
    if from > 0 {
        lemma_boundary_within_four(bytes, from);
        let start = text_box.boundary_before(from)->0;
        let head = bytes.subrange(0, start);
        let behind = bytes.subrange(start, bytes.len() as int);
        vstd::utf8::valid_utf8_split(bytes, start);
        assert(behind.len() > 0);
        let taken = length_of_first_scalar(behind);
        assert(1 <= taken <= 4);
        let tail = pop_first_scalar(behind);
        assert(tail =~= bytes.subrange(start + taken, bytes.len() as int));
        assert(without_char_at(bytes, start) == head + tail);
        lemma_seam_is_boundary(head, tail);
        vstd::utf8::decode_utf8_encode_utf8(head + tail);
        assert(text_box.backspace().bytes() == head + tail);
    }
}

/// An editable box of text that wraps its text to the width it is shown
/// at. The wrapped lines are kept until the text or the width changes.
#[derive(Debug)]
pub struct TextBox {
    text: String,
    /// Where typing goes, in bytes of UTF-8.
    text_pos_in_bytes: usize,
    dirty: bool,
    last_wrap_width: u16,
    lines: Vec<String>,
}

impl View for TextBox {
    type V = TextBoxView;

    closed spec fn view(&self) -> TextBoxView {
        TextBoxView {
            text: self.text@,
            pos: self.text_pos_in_bytes as int,
            dirty: self.dirty,
            last_wrap_width: self.last_wrap_width,
            lines: Seq::new(self.lines@.len(), |i: int| self.lines@[i]@),
        }
    }
}

impl TextBox {
    /// A box that holds `value`, with typing at its start.
    pub fn from(value: &str) -> (text_box: TextBox)
        ensures
            text_box@ == (TextBoxView {
                text: value@,
                pos: 0,
                dirty: true,
                last_wrap_width: 0,
                lines: Seq::empty(),
            }),
            text_box@.lines_are_current(),
            text_box@.well_formed(),
    {
        proof {
            vstd::utf8::encode_utf8_valid_utf8(value@);
            vstd::utf8::is_char_boundary_start_end_of_seq(encode_utf8(value@));
        }
        let text_box = TextBox {
            text: value.to_owned(),
            text_pos_in_bytes: 0,
            dirty: true,
            last_wrap_width: 0,
            lines: Vec::new(),
        };
        assert(text_box@.lines =~= Seq::<Seq<char>>::empty());
        text_box
    }

    pub fn text(&self) -> (text: &str)
        ensures
            text@ == self@.text,
    {
        self.text.as_str()
    }

    /// The lines that the text was last wrapped to.
    pub fn lines(&self) -> (lines: &Vec<String>)
        ensures
            lines@.len() == self@.lines.len(),
            forall|i: int| 0 <= i < lines@.len() ==> (#[trigger] lines@[i])@ == self@.lines[i],
    {
        &self.lines
    }

    pub fn handle_input(&mut self, seq: KeyCode)
        ensures
            final(self)@ == old(self)@.handle_input(seq),
            old(self)@.lines_are_current() ==> final(self)@.lines_are_current(),
    {
        match seq {
            KeyCode::Backspace => self.backspace(),
            KeyCode::Delete => {},
            KeyCode::Enter => {
                self.insert('\n');
            },
            KeyCode::Left => {},
            KeyCode::Right => {},
            KeyCode::Up => {},
            KeyCode::Down => {},
            KeyCode::Home => {},
            KeyCode::End => {},
            KeyCode::PageUp => {},
            KeyCode::PageDown => {},
            KeyCode::BackTab => {},
            KeyCode::Tab | KeyCode::Insert => {},
            KeyCode::F(_) => {},
            KeyCode::Char(c) => {
                self.insert(c);
            },
            KeyCode::Null => {},
            KeyCode::Esc => {},
        }
    }

    fn dirty(&mut self)
        ensures
            final(self)@ == (TextBoxView { dirty: true, ..old(self)@ }),
    {
        self.dirty = true;
    }

    /// Puts `c` where typing goes, and goes on behind it.
    pub fn insert(&mut self, c: char)
        ensures
            final(self)@ == old(self)@.insert(c),
            final(self)@.lines_are_current(),
    {
        let ghost before = encode_utf8(self.text@);
        let length = self.text.as_str().as_bytes().len();
        assert(length == before.len());
        proof {
            vstd::utf8::encode_utf8_valid_utf8(self.text@);
            vstd::utf8::is_char_boundary_start_end_of_seq(before);
        }
        if self.text_pos_in_bytes > length || !self.text.as_str().is_char_boundary(
            self.text_pos_in_bytes,
        ) {
            self.text_pos_in_bytes = length;
        }
        let at = self.text_pos_in_bytes;
        assert(at == old(self)@.insertion_point());
        string_insert(&mut self.text, at, c);
        let width = len_utf8(c);
        let ghost now = encode_utf8(self.text@);
        let grown = self.text.as_str().as_bytes().len();
        assert(grown == now.len());
        assert(now.len() == before.len() + width);
        self.text_pos_in_bytes = at + width;
        self.dirty();
        proof {
            vstd::utf8::encode_utf8_decode_utf8(self.text@);
        }
    }

    /// Takes out the character in front of where typing goes.
    pub fn backspace(&mut self)
        ensures
            final(self)@ == old(self)@.backspace(),
            old(self)@.lines_are_current() ==> final(self)@.lines_are_current(),
    {
        if self.text_pos_in_bytes == 0 {
            return ;
        }
        let length = self.text.as_str().as_bytes().len();
        assert(length == encode_utf8(self.text@).len());
        if self.text_pos_in_bytes > length {
            self.text_pos_in_bytes = length;
        }
        let from = self.text_pos_in_bytes;
        let mut char_offset: usize = 1;
        while char_offset <= 4 && char_offset <= from
            invariant
                1 <= char_offset <= 5,
                from == self.text_pos_in_bytes,
                from == old(self)@.backspace_from(),
                from <= encode_utf8(self.text@).len(),
                self.text@ == old(self)@.text,
                self.dirty == old(self).dirty,
                self.last_wrap_width == old(self).last_wrap_width,
                self.lines == old(self).lines,
                char_offset > 1 ==> !is_char_boundary(encode_utf8(old(self)@.text), from - 1),
                char_offset > 2 ==> !is_char_boundary(encode_utf8(old(self)@.text), from - 2),
                char_offset > 3 ==> !is_char_boundary(encode_utf8(old(self)@.text), from - 3),
                char_offset > 4 ==> !is_char_boundary(encode_utf8(old(self)@.text), from - 4),
            decreases 5 - char_offset,
        {
            let idx = from - char_offset;
            if self.text.as_str().is_char_boundary(idx) {
                let removed = string_remove(&mut self.text, idx);
                self.text_pos_in_bytes = idx;
                self.dirty();
                proof {
                    lemma_without_char_at(
                        encode_utf8(old(self)@.text),
                        encode_utf8(self.text@),
                        idx as int,
                        removed,
                    );
                    vstd::utf8::encode_utf8_decode_utf8(self.text@);
                }
                return ;
            }
            char_offset += 1;
        }
        self.dirty();
    }

    /// Wraps the text to `new_width`, unless it is wrapped to that width
    /// and has not changed since.
    pub fn rewrap(&mut self, new_width: u16)
        ensures
            final(self)@ == old(self)@.rewrap(new_width),
            old(self)@.lines_are_current() ==> final(self)@.lines_are_current()
                && final(self)@.lines == wrapped(final(self)@.text, new_width),
    {
        if !self.dirty && self.last_wrap_width == new_width {
            return ;
        }
        let lines = wrap(self.text.as_str(), new_width);
        self.set_lines(lines, new_width);
        assert(self@.lines =~= wrapped(self@.text, new_width));
    }

    /// Takes `lines` as the lines that the text wraps to at `width`.
    pub fn set_lines(&mut self, lines: Vec<String>, width: u16)
        ensures
            final(self)@ == (TextBoxView {
                lines: Seq::new(lines@.len(), |i: int| lines@[i]@),
                last_wrap_width: width,
                dirty: false,
                ..old(self)@
            }),
    {
        self.lines = lines;
        self.last_wrap_width = width;
        self.dirty = false;
    }
}

} // verus!
