//! Facts about the last lines of a source that hold whichever reader finds
//! them. `tail_bytes`, `tail_forward`, `tail_reverse` and `ForwardReader::flush`
//! all return `last_n(lines_of(source), n)`, so each fact below is a fact
//! about their output.
use vstd::prelude::*;

use crate::tail::{any_failed, planned_step, SourceOutcome, Step};
use crate::lines::{
    closed_lines, has_newline, last_n, lemma_segments_concat, lemma_segments_len, lines_of,
    segments, NEWLINE,
};

verus! {

/// A source with at most `n` lines is emitted whole, in its order.
pub proof fn short_source_emitted_whole(s: Seq<u8>, n: nat)
    requires
        n > 0,
        lines_of(s).len() <= n,
    ensures
        last_n(lines_of(s), n) == lines_of(s),
{
}

/// A source with more than `n` lines gives exactly its last `n` lines,
/// oldest first.
pub proof fn long_source_gives_last_lines(s: Seq<u8>, n: nat)
    requires
        n > 0,
        lines_of(s).len() > n,
    ensures
        last_n(lines_of(s), n).len() == n,
        forall|i: int|
            0 <= i < n ==> #[trigger] last_n(lines_of(s), n)[i] == lines_of(s)[lines_of(s).len()
                - n + i],
{
}

/// Reading an unchanged source a second time gives the same lines: the
/// result depends on the bytes and `n` alone.
pub proof fn rerun_gives_same_output(first: Seq<u8>, second: Seq<u8>, n: nat)
    requires
        first == second,
    ensures
        last_n(lines_of(first), n) == last_n(lines_of(second), n),
{
}

/// Without following, no failure stops a run: after any outcomes so far,
/// good or bad, the next source is emitted, and once every source is
/// handled the run ends; it fails exactly where some source failed.
pub proof fn failures_do_not_stop_later_sources(count: nat, recorded: Seq<SourceOutcome>)
    requires
        count <= usize::MAX,
        recorded.len() <= count,
    ensures
        recorded.len() < count ==> planned_step(None, count, recorded) == Step::Emit(
            recorded.len() as usize,
        ),
        recorded.len() == count ==> planned_step(None, count, recorded) == Step::Done,
        any_failed(recorded) <==> exists|i: int|
            0 <= i < recorded.len() && (recorded[i] == SourceOutcome::OpenFailed || recorded[i]
                == SourceOutcome::ReadFailed || recorded[i] == SourceOutcome::WatchFailed),
{
}

/// An empty source has no lines, so nothing is emitted for it.
pub proof fn empty_source_emits_nothing(n: nat)
    ensures
        lines_of(Seq::<u8>::empty()) == Seq::<Seq<u8>>::empty(),
        last_n(lines_of(Seq::<u8>::empty()), n) == Seq::<Seq<u8>>::empty(),
{
    assert(segments(Seq::<u8>::empty()) == seq![Seq::<u8>::empty()]);
    assert(lines_of(Seq::<u8>::empty()) =~= Seq::<Seq<u8>>::empty());
}

/// A last line without a terminator is one line, the final one: the lines
/// of `a + b` are those of `a` followed by `b` exactly once, where `a` is
/// empty or ends with a newline and `b` is a non-empty piece without one.
pub proof fn unterminated_last_line_kept_once(a: Seq<u8>, b: Seq<u8>)
    requires
        a.len() == 0 || a.last() == NEWLINE,
        b.len() > 0,
        !has_newline(b),
    ensures
        lines_of(a + b) == lines_of(a).push(b),
{
    lemma_no_newline_one_segment(b);
    lemma_segments_concat(a, b);
    lemma_segments_len(a);
    let sa = segments(a);
    assert(sa.last().len() == 0) by {
        if a.len() > 0 {
            assert(sa == segments(a.drop_last()).push(Seq::<u8>::empty()));
        }
    }
    assert(sa.last() + b =~= b);
    assert(segments(b).drop_first() =~= Seq::<Seq<u8>>::empty());
    assert(segments(a + b) =~= sa.drop_last().push(b));
    assert(segments(a + b).drop_last() =~= sa.drop_last());
    assert(lines_of(a) == closed_lines(sa.drop_last()));
    assert(lines_of(a + b) == closed_lines(sa.drop_last()).push(b));
}

proof fn lemma_no_newline_one_segment(b: Seq<u8>)
    requires
        !has_newline(b),
    ensures
        segments(b) == seq![b],
    decreases b.len(),
{
    if b.len() > 0 {
        let b0 = b.drop_last();
        assert(!has_newline(b0)) by {
            if has_newline(b0) {
                let i = choose|i: int| 0 <= i < b0.len() && b0[i] == NEWLINE;
                assert(b[i] == NEWLINE);
            }
        }
        lemma_no_newline_one_segment(b0);
        assert(b.last() != NEWLINE) by {
            if b.last() == NEWLINE {
                assert(b[b.len() - 1] == NEWLINE);
            }
        }
        assert(b0.push(b.last()) =~= b);
        assert(b.drop_last() =~= b0);
        assert(segments(b) =~= seq![b]);
    } else {
        assert(b =~= Seq::<u8>::empty());
    }
}

} // verus!
