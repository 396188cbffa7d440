//! The tail utility's decisions: its configuration, the choice of reader for
//! each source, and how the results of several sources combine.
use vstd::prelude::*;

use crate::err::Error;
use crate::forward::tail_forward;
use crate::lines::{last_n, lines_of, views};
use crate::reverse::tail_reverse;

verus! {

/// The window size when none is given.
pub const DEFAULT_LINE_COUNT: usize = 10;

/// How many bytes each read of a source asks for.
pub const CHUNK_SIZE: usize = 4096;

/// A rejected configuration.
#[derive(PartialEq, Eq, Structural, Clone, Copy, Debug)]
pub enum ConfigError {
    /// `-n` came without a value.
    MissingCount,
    /// The line count is not a decimal number that fits in `usize`.
    InvalidCount,
    /// The line count is zero.
    ZeroCount,
}

pub open spec fn is_digit(c: char) -> bool {
    '0' <= c && c <= '9'
}

/// The number that a string of decimal digits spells.
pub open spec fn digits_value(d: Seq<char>) -> int
    decreases d.len(),
{
    if d.len() == 0 {
        0
    } else {
        digits_value(d.drop_last()) * 10 + (d.last() as u32 - '0' as u32)
    }
}

/// The digits of a count: the text without one leading `+`.
pub open spec fn count_digits(s: Seq<char>) -> Seq<char> {
    if s.len() > 0 && s[0] == '+' {
        s.drop_first()
    } else {
        s
    }
}

/// An optional `+` and then at least one decimal digit.
pub open spec fn is_count_text(s: Seq<char>) -> bool {
    let d = count_digits(s);
    d.len() > 0 && forall|i: int| 0 <= i < d.len() ==> is_digit(#[trigger] d[i])
}

proof fn lemma_digits_value_monotone(d: Seq<char>, c: char)
    requires
        is_digit(c),
        digits_value(d) >= 0,
    ensures
        digits_value(d.push(c)) >= digits_value(d),
        digits_value(d.push(c)) == digits_value(d) * 10 + (c as u32 - '0' as u32),
{
    assert(d.push(c).drop_last() =~= d);
}

proof fn lemma_digits_value_nonneg(d: Seq<char>)
    requires
        forall|i: int| 0 <= i < d.len() ==> is_digit(#[trigger] d[i]),
    ensures
        digits_value(d) >= 0,
    decreases d.len(),
{
    if d.len() > 0 {
        lemma_digits_value_nonneg(d.drop_last());
        assert(is_digit(d[d.len() - 1]));
    }
}

/// Reads a line count: an optional `+` and decimal digits, whose value must
/// fit in `usize`.
pub fn parse_line_count(text: &str) -> (r: Result<usize, ConfigError>)
    ensures
        r matches Ok(v) ==> is_count_text(text@) && v == digits_value(count_digits(text@)),
        r is Err ==> r == Err::<usize, ConfigError>(ConfigError::InvalidCount),
        r is Ok <==> is_count_text(text@) && digits_value(count_digits(text@)) <= usize::MAX,
{
    let n = text.unicode_len();
    let mut i: usize = 0;
    if n > 0 && text.get_char(0) == '+' {
        i = 1;
    }
    let start = i;
    let ghost d = count_digits(text@);
    assert(d =~= text@.subrange(start as int, n as int));
    if start == n {
        return Err(ConfigError::InvalidCount);
    }
    let mut acc: u128 = 0;
    let mut over = false;
    while i < n
        invariant
            start <= i <= n,
            n == text@.len(),
            d == text@.subrange(start as int, n as int),
            d == count_digits(text@),
            forall|k: int| 0 <= k < i - start ==> is_digit(#[trigger] d[k]),
            !over ==> acc == digits_value(d.take(i - start)),
            !over ==> acc <= usize::MAX,
            over ==> digits_value(d.take(i - start)) > usize::MAX,
        decreases n - i,
    {
        let c = text.get_char(i);
        if !('0' <= c && c <= '9') {
            assert(!is_digit(d[i - start]));
            assert(!is_count_text(text@));
            return Err(ConfigError::InvalidCount);
        }
        let ghost prev = d.take(i - start);
        proof {
            lemma_digits_value_nonneg(prev);
            lemma_digits_value_monotone(prev, c);
            assert(d.take(i - start + 1) =~= prev.push(c));
        }
        if !over {
            let digit = (c as u32 - '0' as u32) as u128;
            acc = acc * 10 + digit;
            if acc > usize::MAX as u128 {
                over = true;
            }
        }
        i = i + 1;
    }
    assert(d.take(n - start) =~= d);
    if over {
        Err(ConfigError::InvalidCount)
    } else {
        Ok(acc as usize)
    }
}

/// The settings of one run, fixed for all its sources.
pub struct TailConfig {
    line_count: usize,
    follow: bool,
}

impl TailConfig {
    #[verifier::type_invariant]
    spec fn positive(&self) -> bool {
        self.line_count > 0
    }

    pub closed spec fn count(&self) -> nat {
        self.line_count as nat
    }

    pub closed spec fn follows(&self) -> bool {
        self.follow
    }

    /// A window of `line_count` lines; zero is refused before any source is
    /// opened.
    pub fn new(line_count: usize, follow: bool) -> (r: Result<TailConfig, ConfigError>)
        ensures
            r is Err <==> line_count == 0,
            r matches Err(e) ==> e == ConfigError::ZeroCount,
            r matches Ok(c) ==> c.count() == line_count && c.follows() == follow && c.count()
                > 0,
    {
        if line_count == 0 {
            Err(ConfigError::ZeroCount)
        } else {
            Ok(TailConfig { line_count, follow })
        }
    }

    /// The configuration from the text given to `-n` (or the default count
    /// where there was none).
    pub fn from_count_text(text: Option<&str>, follow: bool) -> (r: Result<
        TailConfig,
        ConfigError,
    >)
        ensures
            text is None ==> (r matches Ok(c) && c.count() == DEFAULT_LINE_COUNT && c.follows()
                == follow),
            text matches Some(t) ==> (r is Ok <==> is_count_text(t@) && 0 < digits_value(
                count_digits(t@),
            ) <= usize::MAX),
            text matches Some(t) ==> (r matches Err(e) ==> (e == ConfigError::ZeroCount
                <==> is_count_text(t@) && digits_value(count_digits(t@)) == 0)),
            text matches Some(t) ==> (r matches Ok(c) ==> c.count() == digits_value(
                count_digits(t@),
            ) && c.follows() == follow),
            r matches Err(e) ==> e != ConfigError::MissingCount,
    {
        match text {
            None => TailConfig::new(DEFAULT_LINE_COUNT, follow),
            Some(t) => match parse_line_count(t) {
                Ok(v) => TailConfig::new(v, follow),
                Err(e) => Err(e),
            },
        }
    }

    /// The window size; never zero.
    pub fn line_count(&self) -> (n: usize)
        ensures
            n == self.count(),
            n > 0,
    {
        proof {
            use_type_invariant(self);
        }
        self.line_count
    }

    pub fn follow(&self) -> (f: bool)
        ensures
            f == self.follows(),
    {
        self.follow
    }
}

/// How the lines of one source are found.
#[derive(PartialEq, Eq, Structural, Clone, Copy, Debug)]
pub enum Strategy {
    /// Backward from the end, in chunks: for a seekable regular file.
    ReverseScan,
    /// Front to back through the window: for streams, and for a followed
    /// file, whose reading must resume where it stopped.
    ForwardStream,
}

/// The reader for a source: a reverse scan where the source is seekable and
/// is not to be followed, forward streaming otherwise.
pub fn select_strategy(seekable: bool, followed: bool) -> (s: Strategy)
    ensures
        s == (if seekable && !followed {
            Strategy::ReverseScan
        } else {
            Strategy::ForwardStream
        }),
{
    if seekable && !followed {
        Strategy::ReverseScan
    } else {
        Strategy::ForwardStream
    }
}

/// The last `n` lines of a source held in memory, found with `strategy`. The
/// result does not depend on the strategy.
pub fn tail_bytes(source: &[u8], n: usize, strategy: Strategy) -> (out: Vec<Vec<u8>>)
    requires
        n > 0,
    ensures
        views(out@) == last_n(lines_of(source@), n as nat),
{
    match strategy {
        Strategy::ReverseScan => tail_reverse(source, n, CHUNK_SIZE),
        Strategy::ForwardStream => tail_forward(source, n, CHUNK_SIZE),
    }
}

/// The name that stands for standard input.
pub open spec fn is_stdin_name(name: Seq<char>) -> bool {
    name == seq!['-']
}

pub fn is_stdin_marker(name: &str) -> (r: bool)
    ensures
        r == is_stdin_name(name@),
{
    let n = name.unicode_len();
    if n == 1 && name.get_char(0) == '-' {
        assert(name@ =~= seq!['-']);
        true
    } else {
        false
    }
}

/// The sources of a run, in order: those named, or standard input alone
/// where none is.
pub fn source_names(names: Vec<String>) -> (r: Vec<String>)
    ensures
        names@.len() == 0 ==> r@.len() == 1 && is_stdin_name(r@[0]@),
        names@.len() > 0 ==> r@ == names@,
{
    if names.len() == 0 {
        let mut r: Vec<String> = Vec::new();
        let marker = "-".to_owned();
        proof {
            reveal_strlit("-");
        }
        r.push(marker);
        assert(r@[0]@ =~= seq!['-']);
        r
    } else {
        names
    }
}

/// Which source is followed, if any: the first, where following is asked
/// for and the first source is not standard input.
pub fn follow_index(names: &Vec<String>, follow: bool) -> (r: Option<usize>)
    ensures
        r is Some <==> follow && names@.len() > 0 && !is_stdin_name(names@[0]@),
        r matches Some(i) ==> i == 0,
{
    if follow && names.len() > 0 && !is_stdin_marker(names[0].as_str()) {
        Some(0)
    } else {
        None
    }
}

/// What became of one source.
#[derive(PartialEq, Eq, Structural, Clone, Copy, Debug)]
pub enum SourceOutcome {
    /// Its lines were printed.
    Emitted,
    /// It could not be opened.
    OpenFailed,
    /// Reading it failed; what was read before stands.
    ReadFailed,
    /// Its watch could not be registered (a followed source only).
    WatchFailed,
}

pub open spec fn any_failed(outcomes: Seq<SourceOutcome>) -> bool {
    exists|i: int| 0 <= i < outcomes.len() && outcomes[i] != SourceOutcome::Emitted
}

/// The result of a run over several sources: a failure, with exit code 1,
/// where any source failed; each failure was reported as it happened.
pub fn overall_result(outcomes: &Vec<SourceOutcome>) -> (r: Result<(), Error>)
    ensures
        r is Err <==> any_failed(outcomes@),
        r matches Err(e) ==> e.code == 1 && e.message.is_none(),
{
    let mut i: usize = 0;
    while i < outcomes.len()
        invariant
            i <= outcomes@.len(),
            forall|k: int| 0 <= k < i ==> outcomes@[k] == SourceOutcome::Emitted,
        decreases outcomes@.len() - i,
    {
        if outcomes[i] != SourceOutcome::Emitted {
            return Err(Error::new_nomsg(1));
        }
        i = i + 1;
    }
    Ok(())
}

/// What the driver of a run is to do next.
#[derive(PartialEq, Eq, Structural, Clone, Copy, Debug)]
pub enum Step {
    /// Print the last lines of source `i` once, then `record` the outcome.
    Emit(usize),
    /// Source `i` is followed: print its first window, register the watch,
    /// then `record` the outcome.
    StartFollow(usize),
    /// All sources are done; block on the followed file's notifications.
    KeepFollowing,
    /// The run is over; its result is `result()`.
    Done,
}

/// The step after `recorded` outcomes of a run over `count` sources, where
/// `followed` is the followed source: each source in turn, the followed one
/// by `StartFollow`; then following, where a source is followed; the run
/// ends at once when the followed source fails.
pub open spec fn planned_step(
    followed: Option<usize>,
    count: nat,
    recorded: Seq<SourceOutcome>,
) -> Step {
    if followed matches Some(i) && i < recorded.len() && recorded[i as int]
        != SourceOutcome::Emitted {
        Step::Done
    } else if recorded.len() < count {
        if followed == Some(recorded.len() as usize) {
            Step::StartFollow(recorded.len() as usize)
        } else {
            Step::Emit(recorded.len() as usize)
        }
    } else if followed is Some {
        Step::KeepFollowing
    } else {
        Step::Done
    }
}

/// The progress of a run over its sources, in argument order.
pub struct FanOut {
    count: usize,
    followed: Option<usize>,
    outcomes: Vec<SourceOutcome>,
}

impl FanOut {
    pub closed spec fn source_count(&self) -> nat {
        self.count as nat
    }

    pub closed spec fn followed_source(&self) -> Option<usize> {
        self.followed
    }

    /// The outcomes recorded so far, one per source handled.
    pub closed spec fn recorded(&self) -> Seq<SourceOutcome> {
        self.outcomes@
    }

    pub closed spec fn wf(&self) -> bool {
        &&& self.outcomes@.len() <= self.count
        &&& self.followed matches Some(i) ==> i < self.count
    }

    /// The followed source failed, which ends the whole run.
    pub open spec fn follow_failed(&self) -> bool {
        self.followed_source() matches Some(i) && i < self.recorded().len()
            && self.recorded()[i as int] != SourceOutcome::Emitted
    }

    /// A run over `names` (as `source_names` gives them), following the
    /// source that `follow_index` picks where `follow` is set.
    pub fn new(names: &Vec<String>, follow: bool) -> (f: FanOut)
        ensures
            f.wf(),
            f.source_count() == names@.len(),
            f.recorded() == Seq::<SourceOutcome>::empty(),
            f.followed_source() is Some <==> follow && names@.len() > 0 && !is_stdin_name(
                names@[0]@,
            ),
            f.followed_source() matches Some(i) ==> i == 0,
    {
        FanOut { count: names.len(), followed: follow_index(names, follow), outcomes: Vec::new() }
    }

    /// The next step: each source in turn, the followed one by
    /// `StartFollow`; then following, where a source is followed and did
    /// not fail; the run ends at once when the followed source fails.
    pub fn next_step(&self) -> (s: Step)
        requires
            self.wf(),
        ensures
            s == planned_step(self.followed_source(), self.source_count(), self.recorded()),
    {
        let k = self.outcomes.len();
        if let Some(i) = self.followed {
            if i < k && self.outcomes[i] != SourceOutcome::Emitted {
                return Step::Done;
            }
        }
        if k < self.count {
            if self.followed == Some(k) {
                Step::StartFollow(k)
            } else {
                Step::Emit(k)
            }
        } else if self.followed.is_some() {
            Step::KeepFollowing
        } else {
            Step::Done
        }
    }

    /// Records what became of the source that `next_step` named.
    pub fn record(&mut self, outcome: SourceOutcome)
        requires
            old(self).wf(),
            old(self).recorded().len() < old(self).source_count(),
        ensures
            final(self).wf(),
            final(self).source_count() == old(self).source_count(),
            final(self).followed_source() == old(self).followed_source(),
            final(self).recorded() == old(self).recorded().push(outcome),
    {
        self.outcomes.push(outcome);
    }

    /// The result of the run: a failure where any source failed.
    pub fn result(&self) -> (r: Result<(), Error>)
        ensures
            r is Err <==> any_failed(self.recorded()),
            r matches Err(e) ==> e.code == 1 && e.message.is_none(),
    {
        overall_result(&self.outcomes)
    }
}

} // verus!
