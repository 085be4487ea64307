//! Text with the matches of a search highlighted.

use crate::regexp::Match;
use vstd::prelude::*;
use vstd::std_specs::iter::IteratorSpec;
use vstd::string::StrSliceExecFns;

verus! {

/// One character of a text, and whether it is highlighted.
#[derive(Clone, Copy, Debug, PartialEq, Eq, Structural)]
pub struct Span {
    pub symbol: char,
    pub highlighted: bool,
}

/// A text and the matches to highlight in it. The matches count characters,
/// not bytes.
///
/// The matches are meant to be in order and not to overlap. Then a character
/// is highlighted exactly if a match covers it.
pub struct Hilighted<'a> {
    pub text: &'a str,
    pub matches: &'a Vec<Match>,
}

/// The place of the first match from place `from` on that ends after the
/// character at `at`, or the number of matches if there is none.
pub open spec fn first_live_from(matches: Seq<Match>, at: int, from: int) -> int
    decreases matches.len() - from,
{
    if from < 0 || from >= matches.len() {
        matches.len() as int
    } else if matches[from].end > at {
        from
    } else {
        first_live_from(matches, at, from + 1)
    }
}

/// Whether the character at `at` is highlighted: whether the first match
/// that ends after it has begun.
pub open spec fn highlighted_at(matches: Seq<Match>, at: int) -> bool {
    let live = first_live_from(matches, at, 0);
    live < matches.len() && matches[live].start <= at
}

/// Whether the matches are in order and do not overlap.
pub open spec fn in_order(matches: Seq<Match>) -> bool {
    forall|j: int, k: int|
        0 <= j < k < matches.len() ==> (#[trigger] matches[j]).end <= (#[trigger] matches[k]).start
}

/// Whether a match covers the character at `at`.
pub open spec fn covered(matches: Seq<Match>, at: int) -> bool {
    exists|k: int| 0 <= k < matches.len() && (#[trigger] matches[k]).start <= at < matches[k].end
}

/// The span for the character at `at`.
pub open spec fn span_at(text: Seq<char>, matches: Seq<Match>, at: int) -> Span {
    Span { symbol: text[at], highlighted: highlighted_at(matches, at) }
}

/// One span for each character of `text`, in order.
pub open spec fn spans_of(text: Seq<char>, matches: Seq<Match>) -> Seq<Span>
    decreases text.len(),
{
    if text.len() == 0 {
        Seq::empty()
    } else {
        spans_of(text.drop_last(), matches).push(
            span_at(text, matches, text.len() - 1),
        )
    }
}

/// The span at each place is the character at that place, highlighted or
/// not as the matches say.
pub proof fn lemma_spans_of(text: Seq<char>, matches: Seq<Match>)
    ensures
        spans_of(text, matches).len() == text.len(),
        forall|i: int|
            0 <= i < text.len() ==> #[trigger] spans_of(text, matches)[i] == span_at(
                text,
                matches,
                i,
            ),
    decreases text.len(),
{
    if text.len() > 0 {
        lemma_spans_of(text.drop_last(), matches);
    }
}

/// The lines that `spans` fill, and the line still open after the last
/// span. A line feed closes the open line and is the first span of the next.
pub open spec fn broken(spans: Seq<Span>) -> (Seq<Seq<Span>>, Seq<Span>)
    decreases spans.len(),
{
    if spans.len() == 0 {
        (Seq::empty(), Seq::empty())
    } else {
        let (lines, open) = broken(spans.drop_last());
        if spans.last().symbol == '\n' {
            (lines.push(open), seq![spans.last()])
        } else {
            (lines, open.push(spans.last()))
        }
    }
}

/// The lines of `spans`: those that a line feed closed, then the open line
/// if it holds anything.
pub open spec fn lines_of(spans: Seq<Span>) -> Seq<Seq<Span>> {
    let (lines, open) = broken(spans);
    if open.len() > 0 {
        lines.push(open)
    } else {
        lines
    }
}

/// The spans of each line.
pub open spec fn line_views(lines: Seq<Vec<Span>>) -> Seq<Seq<Span>> {
    Seq::new(lines.len(), |i: int| lines[i]@)
}

/// What `first_live_from` finds: no match between `from` and it ends after
/// `at`, and it does if it is a match.
pub proof fn lemma_first_live(matches: Seq<Match>, at: int, from: int)
    requires
        0 <= from <= matches.len(),
    ensures
        from <= first_live_from(matches, at, from) <= matches.len(),
        forall|k: int|
            from <= k < first_live_from(matches, at, from) ==> (#[trigger] matches[k]).end <= at,
        first_live_from(matches, at, from) < matches.len() ==> matches[first_live_from(
            matches,
            at,
            from,
        )].end > at,
    decreases matches.len() - from,
{
    if from < matches.len() && matches[from].end <= at {
        lemma_first_live(matches, at, from + 1);
    }
}

/// A place is the first live one if no match before it ends after `at` and
/// the match at it, if there is one, does.
proof fn lemma_first_live_is(matches: Seq<Match>, at: int, from: int, live: int)
    requires
        0 <= from <= live <= matches.len(),
        forall|k: int| from <= k < live ==> (#[trigger] matches[k]).end <= at,
        live < matches.len() ==> matches[live].end > at,
    ensures
        first_live_from(matches, at, from) == live,
    decreases live - from,
{
    if from < live {
        lemma_first_live_is(matches, at, from + 1, live);
    }
}

/// With matches in order that do not overlap, a character is highlighted
/// exactly if a match covers it.
pub proof fn lemma_highlighted_iff_covered(matches: Seq<Match>, at: int)
    requires
        in_order(matches),
    ensures
        highlighted_at(matches, at) <==> covered(matches, at),
{
    lemma_first_live(matches, at, 0);
    let live = first_live_from(matches, at, 0);
    if highlighted_at(matches, at) {
        assert(matches[live].start <= at < matches[live].end);
    }
    if covered(matches, at) {
        let k = choose|k: int|
            0 <= k < matches.len() && (#[trigger] matches[k]).start <= at < matches[k].end;
        if live > k {
            assert(matches[k].end <= at);
        }
        if live < k {
            assert(matches[live].end <= matches[k].start);
        }
    }
}

impl<'a> Hilighted<'a> {
    /// The text as lines of spans, one span for each character. A line feed
    /// starts a new line and is its first span.
    pub fn lines(&self) -> (lines: Vec<Vec<Span>>)
        ensures
            line_views(lines@) == lines_of(spans_of(self.text@, self.matches@)),
    {
        let text = self.text;
        let matches = self.matches;
        let length = text.unicode_len();
        let ghost all = spans_of(text@, matches@);
        proof {
            lemma_spans_of(text@, matches@);
        }
        let mut lines: Vec<Vec<Span>> = Vec::new();
        let mut spans: Vec<Span> = Vec::new();
        let mut live: usize = 0;
        let mut char_index: usize = 0;
        assert(all.take(0) =~= Seq::<Span>::empty());
        assert(line_views(lines@) =~= Seq::<Seq<Span>>::empty());
        for ch in it: text.chars()
            invariant
                it.seq() == text@,
                length == text@.len(),
                all == spans_of(text@, matches@),
                all.len() == text@.len(),
                char_index == it.index(),
                live <= matches@.len(),
                forall|k: int| 0 <= k < live ==> (#[trigger] matches@[k]).end <= char_index,
                (line_views(lines@), spans@) == broken(all.take(char_index as int)),
        {
            proof {
                lemma_spans_of(text@, matches@);
            }
            while live < matches.len() && matches[live].end <= char_index
                invariant
                    live <= matches@.len(),
                    forall|k: int| 0 <= k < live ==> (#[trigger] matches@[k]).end <= char_index,
                decreases matches@.len() - live,
            {
                live += 1;
            }
            proof {
                lemma_first_live_is(matches@, char_index as int, 0, live as int);
            }
            let ghost closed = line_views(lines@);
            let ghost open = spans@;
            // A line feed starts a new line.
            if ch == '\n' {
                let mut done: Vec<Span> = Vec::new();
                std::mem::swap(&mut done, &mut spans);
                lines.push(done);
                assert(line_views(lines@) =~= closed.push(open));
            }
            let highlighted = live < matches.len() && matches[live].start <= char_index;
            let span = Span { symbol: ch, highlighted };
            spans.push(span);
            proof {
                let next = all.take(char_index + 1);
                assert(next.drop_last() =~= all.take(char_index as int));
                assert(next.last() == span);
                if ch == '\n' {
                    assert(spans@ =~= seq![span]);
                }
            }
            char_index += 1;
        }
        assert(all.take(char_index as int) =~= all);
        if !spans.is_empty() {
            let ghost closed = line_views(lines@);
            let ghost open = spans@;
            lines.push(spans);
            assert(line_views(lines@) =~= closed.push(open));
        }
        lines
    }
}

/// A run of text, highlighted as a whole or not at all.
#[derive(Clone, Debug, PartialEq, Eq)]
pub struct Segment {
    pub text: String,
    pub highlighted: bool,
}

/// Whether every match ends no earlier than it starts.
pub open spec fn well_ordered(matches: Seq<Match>) -> bool {
    forall|i: int| 0 <= i < matches.len() ==> (#[trigger] matches[i]).start <= matches[i].end
}

/// The runs that the text from character `from` on falls into: for each
/// match its characters, highlighted, with the characters between the match
/// before and it in front, until a match starts or ends at or behind the
/// last character; then what is left of the text, which may be nothing.
pub open spec fn runs_from(text: Seq<char>, matches: Seq<Match>, from: int) -> Seq<
    (Seq<char>, bool),
>
    decreases matches.len(),
{
    if matches.len() == 0 || matches[0].start >= text.len() || matches[0].end >= text.len() {
        seq![(text.subrange(from, text.len() as int), false)]
    } else {
        let found = matches[0];
        let between = if from < found.start {
            seq![(text.subrange(from, found.start as int), false)]
        } else {
            Seq::empty()
        };
        between + seq![(text.subrange(found.start as int, found.end as int), true)] + runs_from(
            text,
            matches.drop_first(),
            found.end as int,
        )
    }
}

/// What each segment holds.
pub open spec fn segment_views(segments: Seq<Segment>) -> Seq<(Seq<char>, bool)> {
    Seq::new(segments.len(), |i: int| (segments[i].text@, segments[i].highlighted))
}

impl<'a> Hilighted<'a> {
    /// The text as runs, each highlighted as a whole or not at all. A match
    /// that reaches the last character ends the highlighting: it and the
    /// matches behind it are left plain.
    pub fn segments(&self) -> (segments: Vec<Segment>)
        requires
            well_ordered(self.matches@),
        ensures
            segment_views(segments@) == runs_from(self.text@, self.matches@, 0),
    {
        let text = self.text;
        let matches = self.matches;
        let length = text.unicode_len();
        let mut segments: Vec<Segment> = Vec::new();
        let mut prev: usize = 0;
        let mut i: usize = 0;
        assert(matches@.skip(0) =~= matches@);
        assert(segment_views(segments@) + runs_from(text@, matches@, 0) =~= runs_from(
            text@,
            matches@,
            0,
        ));
        while i < matches.len()
            invariant
                i <= matches@.len(),
                length == text@.len(),
                well_ordered(matches@),
                prev <= length,
                runs_from(text@, matches@, 0) == segment_views(segments@) + runs_from(
                    text@,
                    matches@.skip(i as int),
                    prev as int,
                ),
            ensures
                i == matches@.len() || matches@[i as int].start >= length || matches@[i as int].end
                    >= length,
            decreases matches@.len() - i,
        {
            let found = matches[i];
            let ghost rest = matches@.skip(i as int);
            assert(rest[0] == found);
            assert(rest.drop_first() =~= matches@.skip(i + 1));
            if found.start >= length || found.end >= length {
                break ;
            }
            let ghost before = segment_views(segments@);
            // The text between the match before and this one.
            if prev < found.start {
                segments.push(
                    Segment { text: text.substring_char(prev, found.start).to_owned(), highlighted: false },
                );
            }
            let ghost between = if prev < found.start {
                seq![(text@.subrange(prev as int, found.start as int), false)]
            } else {
                Seq::empty()
            };
            assert(segment_views(segments@) =~= before + between);
            segments.push(
                Segment {
                    text: text.substring_char(found.start, found.end).to_owned(),
                    highlighted: true,
                },
            );
            assert(segment_views(segments@) =~= before + between + seq![
                (text@.subrange(found.start as int, found.end as int), true),
            ]);
            assert(before + (between + seq![
                (text@.subrange(found.start as int, found.end as int), true),
            ] + runs_from(text@, rest.drop_first(), found.end as int)) =~= segment_views(segments@)
                + runs_from(text@, rest.drop_first(), found.end as int));
            prev = found.end;
            i += 1;
        }
        let ghost before = segment_views(segments@);
        let ghost rest = matches@.skip(i as int);
        assert(i < matches@.len() ==> rest[0] == matches@[i as int]);
        assert(runs_from(text@, rest, prev as int) =~= seq![
            (text@.subrange(prev as int, length as int), false),
        ]);
        // What is left of the text.
        segments.push(
            Segment { text: text.substring_char(prev, length).to_owned(), highlighted: false },
        );
        assert(segment_views(segments@) =~= before + seq![
            (text@.subrange(prev as int, length as int), false),
        ]);
        segments
    }
}

} // verus!
