//! Regular expressions that a host engine evaluates.
//!
//! The engine itself is the host's. This module says what the engine is
//! asked to compile, and what to make of its answers when a text is searched
//! for every match.

use vstd::prelude::*;
use vstd::std_specs::iter::IteratorSpec;
use vstd::string::StringExecFns;

verus! {

/// A match, from the character at `start` up to, not including, the one at
/// `end`.
#[derive(Clone, Copy, Debug, PartialEq, Eq, Structural)]
pub struct Match {
    pub start: usize,
    pub end: usize,
}

/// The flags that the engine is given for `flags`: the same, with the flag
/// `d` added where it is missing. With `d` the engine reports where each
/// match starts and ends.
pub open spec fn with_indices_flag(flags: Seq<char>) -> Seq<char> {
    if flags.contains('d') {
        flags
    } else {
        flags.push('d')
    }
}

/// Whether an answer of the engine is a match to keep: a match that is not
/// empty.
pub open spec fn is_kept(answer: Option<Match>) -> bool {
    answer matches Some(found) && found.start != found.end
}

/// Whether the engine is asked again after `answer`. An empty match would
/// be found again and again, and an engine that is not global finds its
/// first match each time: the search ends with either.
pub open spec fn spec_goes_on(global: bool, answer: Option<Match>) -> bool {
    global && is_kept(answer)
}

/// The matches that a search keeps of the engine's `answers`: the first
/// where the engine is not global, else every one up to the first answer
/// that is no match or an empty one.
pub open spec fn collected(global: bool, answers: Seq<Option<Match>>) -> Seq<Match>
    decreases answers.len(),
{
    if answers.len() == 0 || !is_kept(answers[0]) {
        Seq::empty()
    } else if !global {
        seq![answers[0]->0]
    } else {
        seq![answers[0]->0] + collected(global, answers.drop_first())
    }
}

/// Whether `flags` hold the flag `d`.
fn has_indices_flag(flags: &str) -> (found: bool)
    ensures
        found == flags@.contains('d'),
{
    let mut found = false;
    for c in it: flags.chars()
        invariant
            it.seq() == flags@,
            found == flags@.take(it.index() as int).contains('d'),
    {
        proof {
            let i = it.index() as int;
            let seen = flags@.take(i);
            let now = flags@.take(i + 1);
            assert(now =~= seen.push(c));
            if seen.contains('d') {
                let k = choose|k: int| 0 <= k < seen.len() && seen[k] == 'd';
                assert(now[k] == 'd');
            }
            if c == 'd' {
                assert(now[i] == 'd');
            }
        }
        if c == 'd' {
            found = true;
        }
    }
    assert(flags@.take(flags@.len() as int) =~= flags@);
    found
}

/// A regular expression as the host's engine is asked to compile it.
#[derive(Debug)]
pub struct RegExp {
    pattern: String,
    flags: String,
}

impl RegExp {
    pub closed spec fn spec_pattern(&self) -> Seq<char> {
        self.pattern@
    }

    pub closed spec fn spec_flags(&self) -> Seq<char> {
        self.flags@
    }

    /// The regular expression `pattern` with `flags`. The flag `d` is added
    /// where it is missing, so that the engine reports where each match
    /// starts and ends.
    pub fn new(pattern: &str, flags: &str) -> (regexp: RegExp)
        ensures
            regexp.spec_pattern() == pattern@,
            regexp.spec_flags() == with_indices_flag(flags@),
    {
        if has_indices_flag(flags) {
            return RegExp { pattern: pattern.to_owned(), flags: flags.to_owned() };
        }
        proof {
            reveal_strlit("d");
            assert("d"@ =~= seq!['d']);
            assert(flags@ + seq!['d'] =~= flags@.push('d'));
        }
        let flags = flags.to_owned().concat("d");
        RegExp { pattern: pattern.to_owned(), flags }
    }

    /// The pattern to compile.
    pub fn pattern(&self) -> (pattern: &str)
        ensures
            pattern@ == self.spec_pattern(),
    {
        self.pattern.as_str()
    }

    /// The flags to compile the pattern with.
    pub fn flags(&self) -> (flags: &str)
        ensures
            flags@ == self.spec_flags(),
    {
        self.flags.as_str()
    }

    /// Whether to ask the engine for one more match after `answer`.
    pub fn goes_on(global: bool, answer: Option<Match>) -> (again: bool)
        ensures
            again == spec_goes_on(global, answer),
    {
        match answer {
            Some(found) => global && found.start != found.end,
            None => false,
        }
    }

    /// The matches of a search, given what the engine answered each time it
    /// was asked, in order. `global` says whether the engine goes on from
    /// its last match.
    pub fn match_all(global: bool, answers: &Vec<Option<Match>>) -> (matches: Vec<Match>)
        ensures
            matches@ == collected(global, answers@),
    {
        let mut matches: Vec<Match> = Vec::new();
        let mut i: usize = 0;
        assert(answers@.skip(0) =~= answers@);
        assert(matches@ + collected(global, answers@) =~= collected(global, answers@));
        while i < answers.len()
            invariant
                i <= answers.len(),
                collected(global, answers@) == matches@ + collected(global, answers@.skip(i as int)),
            decreases answers.len() - i,
        {
            let ghost rest = answers@.skip(i as int);
            assert(rest[0] == answers@[i as int]);
            assert(rest.drop_first() =~= answers@.skip(i + 1));
            let found = match answers[i] {
                Some(found) => found,
                None => {
                    assert(matches@ + Seq::<Match>::empty() =~= matches@);
                    return matches;
                },
            };
            // An empty match would be found again and again.
            if found.start == found.end {
                assert(matches@ + Seq::<Match>::empty() =~= matches@);
                return matches;
            }
            let ghost before = matches@;
            matches.push(found);
            if !global {
                assert(before + seq![found] =~= matches@);
                return matches;
            }
            assert(before + (seq![found] + collected(global, rest.drop_first())) =~= matches@
                + collected(global, rest.drop_first()));
            i += 1;
        }
        assert(answers@.skip(i as int) =~= Seq::<Option<Match>>::empty());
        assert(matches@ + Seq::<Match>::empty() =~= matches@);
        matches
    }
}

/// A search keeps no empty match, and at most one match where the engine is
/// not global.
pub proof fn lemma_collected_matches(global: bool, answers: Seq<Option<Match>>)
    ensures
        forall|i: int|
            0 <= i < collected(global, answers).len() ==> (#[trigger] collected(
                global,
                answers,
            )[i]).start != collected(global, answers)[i].end,
        collected(global, answers).len() <= answers.len(),
        !global ==> collected(global, answers).len() <= 1,
        forall|i: int|
            0 <= i < collected(global, answers).len() ==> answers[i] == Some(
                #[trigger] collected(global, answers)[i],
            ),
    decreases answers.len(),
{
    if answers.len() == 0 || !is_kept(answers[0]) {
    } else if !global {
    } else {
        lemma_collected_matches(global, answers.drop_first());
        let rest = collected(global, answers.drop_first());
        let all = collected(global, answers);
        assert forall|i: int| 0 <= i < all.len() implies (#[trigger] all[i]).start != all[i].end
            && answers[i] == Some(all[i]) by {
            if i > 0 {
                assert(all[i] == rest[i - 1]);
                assert(answers.drop_first()[i - 1] == answers[i]);
            }
        }
    }
}

} // verus!
