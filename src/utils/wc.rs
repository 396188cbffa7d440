//! Counting for wc: lines, words and characters or bytes.
use vstd::prelude::*;

use vstd::std_specs::iter::IteratorSpec;

use crate::text::{is_white_space, is_whitespace, lemma_contains_push};

verus! {

/// Whether characters, bytes or neither are counted.
#[derive(PartialEq, Eq, Structural, Clone, Copy, Debug)]
pub enum FlagsUnitType {
    NoneType,
    Char,
    Byte,
}

/// What to report.
pub struct Flags {
    pub chars_bytes: FlagsUnitType,
    pub words: bool,
    pub lines: bool,
}

impl Flags {
    pub fn new() -> (f: Flags)
        ensures
            f.chars_bytes == FlagsUnitType::NoneType,
            !f.words,
            !f.lines,
    {
        Flags { chars_bytes: FlagsUnitType::NoneType, words: false, lines: false }
    }

    /// The flags that the short options `opts` select, in order: `c` counts
    /// bytes, `m` characters (the later of the two wins), `l` lines, `w`
    /// words. Where none of these is given, lines, words and bytes are
    /// counted. Other options are ignored.
    pub fn from_options(opts: &Vec<char>) -> (f: Flags)
        ensures
            f.chars_bytes == (if any_selected(opts@) {
                unit_selected(opts@)
            } else {
                FlagsUnitType::Byte
            }),
            f.lines == (opts@.contains('l') || !any_selected(opts@)),
            f.words == (opts@.contains('w') || !any_selected(opts@)),
    {
        let mut f = Flags::new();
        let mut chosen = false;
        let mut i: usize = 0;
        while i < opts.len()
            invariant
                i <= opts@.len(),
                chosen == any_selected(opts@.take(i as int)),
                f.chars_bytes == unit_selected(opts@.take(i as int)),
                f.lines == opts@.take(i as int).contains('l'),
                f.words == opts@.take(i as int).contains('w'),
            decreases opts@.len() - i,
        {
            let c = opts[i];
            let ghost before = opts@.take(i as int);
            assert(opts@.take(i + 1) =~= before.push(c));
            assert(before.push(c).drop_last() =~= before);
            assert(before.push(c).last() == c);
            if c == 'c' {
                chosen = true;
                f.chars_bytes = FlagsUnitType::Byte;
            } else if c == 'm' {
                chosen = true;
                f.chars_bytes = FlagsUnitType::Char;
            } else if c == 'l' {
                chosen = true;
                f.lines = true;
            } else if c == 'w' {
                chosen = true;
                f.words = true;
            }
            proof {
                lemma_contains_push(before, c, 'l');
                lemma_contains_push(before, c, 'w');
                lemma_contains_push(before, c, 'c');
                lemma_contains_push(before, c, 'm');
            }
            i = i + 1;
        }
        assert(opts@.take(opts@.len() as int) =~= opts@);
        if !chosen {
            f.chars_bytes = FlagsUnitType::Byte;
            f.lines = true;
            f.words = true;
        }
        f
    }
}

/// Some option among `c`, `m`, `l`, `w` is present.
pub open spec fn any_selected(opts: Seq<char>) -> bool {
    opts.contains('c') || opts.contains('m') || opts.contains('l') || opts.contains('w')
}

/// The unit that the last `c` or `m` in `opts` selects, if any.
pub open spec fn unit_selected(opts: Seq<char>) -> FlagsUnitType
    decreases opts.len(),
{
    if opts.len() == 0 {
        FlagsUnitType::NoneType
    } else if opts.last() == 'c' {
        FlagsUnitType::Byte
    } else if opts.last() == 'm' {
        FlagsUnitType::Char
    } else {
        unit_selected(opts.drop_last())
    }
}

/// Counts of one input.
pub struct Stats {
    pub chars: usize,
    pub words: usize,
    pub lines: usize,
    /// Some bytes were not valid UTF-8 and were skipped.
    pub encoding_error: bool,
}

impl Stats {
    pub fn new() -> (s: Stats)
        ensures
            s.chars == 0,
            s.words == 0,
            s.lines == 0,
            !s.encoding_error,
    {
        Stats { chars: 0, words: 0, lines: 0, encoding_error: false }
    }

    /// Adds the counts of `other`, stopping at `usize::MAX`.
    pub fn add(&mut self, other: &Stats)
        ensures
            final(self).chars == min_add(old(self).chars as int, other.chars as int),
            final(self).words == min_add(old(self).words as int, other.words as int),
            final(self).lines == min_add(old(self).lines as int, other.lines as int),
            final(self).encoding_error == (old(self).encoding_error || other.encoding_error),
    {
        self.chars = self.chars.saturating_add(other.chars);
        self.words = self.words.saturating_add(other.words);
        self.lines = self.lines.saturating_add(other.lines);
        self.encoding_error = self.encoding_error || other.encoding_error;
    }
}

pub open spec fn min_add(a: int, b: int) -> int {
    if a + b > usize::MAX {
        usize::MAX as int
    } else {
        a + b
    }
}

/// Whether the previous piece of input ended inside a word.
pub struct CountStatsState {
    pub in_word: bool,
}

impl CountStatsState {
    pub fn new() -> (s: CountStatsState)
        ensures
            !s.in_word,
    {
        CountStatsState { in_word: false }
    }
}

/// Whitespace for byte counting: tab, line feed, vertical tab, form feed,
/// carriage return and space.
pub open spec fn is_space_byte(b: u8) -> bool {
    (9 <= b && b <= 13) || b == 32
}

pub open spec fn space_bytes() -> spec_fn(u8) -> bool {
    |b: u8| is_space_byte(b)
}

pub open spec fn white_space_chars() -> spec_fn(char) -> bool {
    |c: char| is_white_space(c)
}

/// Whether a word is open after `s`, when one was open before it exactly
/// where `start` says.
pub open spec fn in_word_after<A>(ws: spec_fn(A) -> bool, start: bool, s: Seq<A>) -> bool {
    if s.len() == 0 {
        start
    } else {
        !ws(s.last())
    }
}

/// The number of words that end inside `s`: whitespace right after a
/// word character (or after an open word carried in).
pub open spec fn word_ends<A>(ws: spec_fn(A) -> bool, start: bool, s: Seq<A>) -> nat
    decreases s.len(),
{
    if s.len() == 0 {
        0
    } else {
        word_ends(ws, start, s.drop_last()) + if ws(s.last()) && in_word_after(
            ws,
            start,
            s.drop_last(),
        ) {
            1nat
        } else {
            0nat
        }
    }
}

/// How many elements of `s` equal `x`.
pub open spec fn occurrences<A>(s: Seq<A>, x: A) -> nat
    decreases s.len(),
{
    if s.len() == 0 {
        0
    } else {
        occurrences(s.drop_last(), x) + if s.last() == x {
            1nat
        } else {
            0nat
        }
    }
}

/// Counts the bytes, line feeds and completed words of `bytes`, carrying the
/// open word across calls in `state`.
pub fn count_stats_bytes(bytes: &[u8], state: &mut CountStatsState) -> (stats: Stats)
    ensures
        stats.chars == bytes@.len(),
        stats.lines == occurrences(bytes@, 10u8),
        stats.words == word_ends(space_bytes(), old(state).in_word, bytes@),
        final(state).in_word == in_word_after(space_bytes(), old(state).in_word, bytes@),
        !stats.encoding_error,
{
    let ghost start = state.in_word;
    let mut stats = Stats::new();
    stats.chars = bytes.len();
    let mut i: usize = 0;
    while i < bytes.len()
        invariant
            i <= bytes@.len(),
            stats.chars == bytes@.len(),
            !stats.encoding_error,
            stats.lines == occurrences(bytes@.take(i as int), 10u8),
            stats.words == word_ends(space_bytes(), start, bytes@.take(i as int)),
            state.in_word == in_word_after(space_bytes(), start, bytes@.take(i as int)),
            stats.lines <= i,
            stats.words <= i,
        decreases bytes@.len() - i,
    {
        let b = bytes[i];
        let ghost prefix = bytes@.take(i as int);
        let ghost next = bytes@.take(i + 1);
        assert(next.drop_last() =~= prefix);
        assert(next.last() == b);
        assert(space_bytes()(b) == is_space_byte(b));
        assert(word_ends(space_bytes(), start, next) == word_ends(space_bytes(), start, prefix) + if space_bytes()(b)
            && in_word_after(space_bytes(), start, prefix) {
            1nat
        } else {
            0nat
        });
        assert(in_word_after(space_bytes(), start, next) == !space_bytes()(b));
        assert(occurrences(next, 10u8) == occurrences(prefix, 10u8) + if b == 10u8 {
            1nat
        } else {
            0nat
        });
        if (b >= 9 && b <= 13) || b == 32 {
            if b == 10 {
                stats.lines = stats.lines + 1;
            }
            if state.in_word {
                stats.words = stats.words + 1;
                state.in_word = false;
            }
        } else {
            state.in_word = true;
        }
        i = i + 1;
    }
    assert(bytes@.take(bytes@.len() as int) =~= bytes@);
    stats
}

/// Counts the characters, line feeds and completed words of `text`,
/// carrying the open word across calls in `state`. Whitespace is Unicode's.
pub fn count_stats_str(text: &str, state: &mut CountStatsState) -> (stats: Stats)
    ensures
        stats.chars == text@.len(),
        stats.lines == occurrences(text@, '\n'),
        stats.words == word_ends(white_space_chars(), old(state).in_word, text@),
        final(state).in_word == in_word_after(white_space_chars(), old(state).in_word, text@),
        !stats.encoding_error,
{
    let ghost start = state.in_word;
    let mut stats = Stats::new();
    let n = text.unicode_len();
    let mut i: usize = 0;
    let mut it = text.chars();
    proof {
        broadcast use vstd::string::axiom_spec_iter;
    }
    while i < n
        invariant
            i <= n,
            n == text@.len(),
            it.remaining() == text@.skip(i as int),
            it.obeys_prophetic_iter_laws(),
            !stats.encoding_error,
            stats.chars == i,
            stats.lines == occurrences(text@.take(i as int), '\n'),
            stats.words == word_ends(white_space_chars(), start, text@.take(i as int)),
            state.in_word == in_word_after(white_space_chars(), start, text@.take(i as int)),
            stats.lines <= i,
            stats.words <= i,
        decreases n - i,
    {
        let ghost before = it;
        let next = it.next();
        proof {
            vstd::string::next_postcondition(&before, &it, next);
        }
        let c = next.unwrap();
        assert(c == text@[i as int]);
        let ghost prefix = text@.take(i as int);
        let ghost next = text@.take(i + 1);
        assert(next.drop_last() =~= prefix);
        assert(next.last() == c);
        assert(white_space_chars()(c) == is_white_space(c));
        assert(word_ends(white_space_chars(), start, next) == word_ends(white_space_chars(), start, prefix) + if white_space_chars()(c)
            && in_word_after(white_space_chars(), start, prefix) {
            1nat
        } else {
            0nat
        });
        assert(in_word_after(white_space_chars(), start, next) == !white_space_chars()(c));
        assert(occurrences(next, '\n') == occurrences(prefix, '\n') + if c == '\n' {
            1nat
        } else {
            0nat
        });
        stats.chars = stats.chars + 1;
        if is_whitespace(c) {
            if c == '\n' {
                stats.lines = stats.lines + 1;
            }
            if state.in_word {
                stats.words = stats.words + 1;
                state.in_word = false;
            }
        } else {
            state.in_word = true;
        }
        i = i + 1;
        assert(it.remaining() =~= text@.skip(i as int));
    }
    assert(text@.take(n as int) =~= text@);
    stats
}

/// The word still open when the input ends counts as one more.
pub fn finish_words(stats: &mut Stats, state: &CountStatsState)
    ensures
        final(stats).chars == old(stats).chars,
        final(stats).lines == old(stats).lines,
        final(stats).encoding_error == old(stats).encoding_error,
        final(stats).words == min_add(old(stats).words as int, if state.in_word {
            1
        } else {
            0
        }),
{
    if state.in_word {
        stats.words = stats.words.saturating_add(1);
    }
}

} // verus!
