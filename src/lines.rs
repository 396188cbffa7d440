//! The mathematical model of a text source: a byte sequence cut into lines
//! at each newline (a carriage return before it belongs to the terminator),
//! and the window of its last `n` lines.
use vstd::prelude::*;

verus! {

/// The line terminator.
pub const NEWLINE: u8 = 10;

/// A carriage return: before a newline, it is part of the terminator.
pub const CARRIAGE_RETURN: u8 = 13;

/// The pieces of `t` between newline bytes, in order. There is always at
/// least one piece: the last one is what follows the final newline.
pub open spec fn segments(t: Seq<u8>) -> Seq<Seq<u8>>
    decreases t.len(),
{
    if t.len() == 0 {
        seq![Seq::<u8>::empty()]
    } else {
        let prev = segments(t.drop_last());
        if t.last() == NEWLINE {
            prev.push(Seq::<u8>::empty())
        } else {
            prev.update(prev.len() - 1, prev.last().push(t.last()))
        }
    }
}

/// A line closed by a newline, without the carriage return that a CRLF
/// terminator puts before the newline.
pub open spec fn strip_cr(l: Seq<u8>) -> Seq<u8> {
    if l.len() > 0 && l.last() == CARRIAGE_RETURN {
        l.drop_last()
    } else {
        l
    }
}

/// Segments closed by a newline, as lines.
pub open spec fn closed_lines(sg: Seq<Seq<u8>>) -> Seq<Seq<u8>> {
    sg.map_values(|l: Seq<u8>| strip_cr(l))
}

pub proof fn lemma_closed_lines_push(sg: Seq<Seq<u8>>, x: Seq<u8>)
    ensures
        closed_lines(sg.push(x)) == closed_lines(sg).push(strip_cr(x)),
{
    assert(closed_lines(sg.push(x)) =~= closed_lines(sg).push(strip_cr(x)));
}

/// The lines that a run of segments stands for: every segment but the last
/// was closed by a newline and loses a carriage return before it; the last
/// is a line where it is not empty.
pub open spec fn lines_from_segments(sg: Seq<Seq<u8>>) -> Seq<Seq<u8>> {
    let closed = closed_lines(sg.drop_last());
    if sg.len() == 0 || sg.last().len() == 0 {
        closed
    } else {
        closed.push(sg.last())
    }
}

/// The lines of a source. A line ends at a newline or a CRLF pair, neither
/// of which belongs to it; a last line without a terminator is still a
/// line, kept as it is.
pub open spec fn lines_of(s: Seq<u8>) -> Seq<Seq<u8>> {
    lines_from_segments(segments(s))
}

/// The lines of `s` that a terminator has already closed.
pub open spec fn complete_lines(s: Seq<u8>) -> Seq<Seq<u8>> {
    closed_lines(segments(s).drop_last())
}

/// What follows the last newline of `s`: a line still being written.
pub open spec fn partial_line(s: Seq<u8>) -> Seq<u8> {
    segments(s).last()
}

/// The last `n` elements of `s`, or all of them where there are fewer.
pub open spec fn last_n<A>(s: Seq<A>, n: nat) -> Seq<A> {
    if s.len() > n {
        s.skip(s.len() - n)
    } else {
        s
    }
}

/// `w` after one more line `x` arrives in a window of `cap` lines.
pub open spec fn window_push<A>(w: Seq<A>, x: A, cap: nat) -> Seq<A> {
    if w.len() + 1 > cap {
        w.push(x).drop_first()
    } else {
        w.push(x)
    }
}

/// The views of a sequence of byte vectors.
pub open spec fn views(s: Seq<Vec<u8>>) -> Seq<Seq<u8>> {
    s.map_values(|v: Vec<u8>| v@)
}

pub open spec fn has_newline(s: Seq<u8>) -> bool {
    exists|i: int| 0 <= i < s.len() && s[i] == NEWLINE
}

pub proof fn lemma_segments_len(t: Seq<u8>)
    ensures
        segments(t).len() >= 1,
    decreases t.len(),
{
    if t.len() > 0 {
        lemma_segments_len(t.drop_last());
    }
}

/// Cutting a concatenation: the last piece of `a` and the first piece of `b`
/// join into one.
pub proof fn lemma_segments_concat(a: Seq<u8>, b: Seq<u8>)
    ensures
        segments(a + b) == segments(a).drop_last() + seq![segments(a).last() + segments(b)[0]]
            + segments(b).drop_first(),
    decreases b.len(),
{
    lemma_segments_len(a);
    lemma_segments_len(b);
    let sa = segments(a);
    if b.len() == 0 {
        assert(a + b =~= a);
        assert(sa.last() + Seq::<u8>::empty() =~= sa.last());
        assert(sa.drop_last() + seq![sa.last()] =~= sa);
        assert(segments(b).drop_first() =~= Seq::<Seq<u8>>::empty());
        assert(sa.drop_last() + seq![sa.last() + segments(b)[0]] + segments(b).drop_first()
            =~= sa);
    } else {
        let b0 = b.drop_last();
        let x = b.last();
        lemma_segments_concat(a, b0);
        lemma_segments_len(b0);
        assert((a + b).drop_last() =~= a + b0);
        assert((a + b).last() == x);
        let sb0 = segments(b0);
        let sb = segments(b);
        let prev = segments(a + b0);
        assert(prev == sa.drop_last() + seq![sa.last() + sb0[0]] + sb0.drop_first());
        if x == NEWLINE {
            assert(sb == sb0.push(Seq::<u8>::empty()));
            assert(sb[0] == sb0[0]);
            assert(sb.drop_first() =~= sb0.drop_first().push(Seq::<u8>::empty()));
            assert(segments(a + b) == prev.push(Seq::<u8>::empty()));
            assert(prev.push(Seq::<u8>::empty()) =~= sa.drop_last() + seq![sa.last() + sb[0]]
                + sb.drop_first());
        } else {
            assert(sb == sb0.update(sb0.len() - 1, sb0.last().push(x)));
            assert(segments(a + b) == prev.update(prev.len() - 1, prev.last().push(x)));
            if sb0.len() == 1 {
                assert(sb[0] == sb0[0].push(x));
                assert((sa.last() + sb0[0]).push(x) =~= sa.last() + sb0[0].push(x));
                assert(sb.drop_first() =~= Seq::<Seq<u8>>::empty());
                assert(sb0.drop_first() =~= Seq::<Seq<u8>>::empty());
                assert(prev.update(prev.len() - 1, prev.last().push(x)) =~= sa.drop_last()
                    + seq![sa.last() + sb[0]] + sb.drop_first());
            } else {
                assert(sb[0] == sb0[0]);
                assert(sb.drop_first() =~= sb0.drop_first().update(
                    sb0.len() - 2,
                    sb0.last().push(x),
                ));
                assert(prev.update(prev.len() - 1, prev.last().push(x)) =~= sa.drop_last()
                    + seq![sa.last() + sb[0]] + sb.drop_first());
            }
        }
    }
}

/// Cutting a source one byte longer at its front.
pub proof fn lemma_segments_prepend(b: u8, t: Seq<u8>)
    ensures
        segments(seq![b] + t) == (if b == NEWLINE {
            seq![Seq::<u8>::empty()] + segments(t)
        } else {
            seq![seq![b] + segments(t)[0]] + segments(t).drop_first()
        }),
{
    lemma_segments_concat(seq![b], t);
    lemma_segments_len(t);
    let s1 = seq![b];
    assert(s1.drop_last() =~= Seq::<u8>::empty());
    assert(segments(Seq::<u8>::empty()) == seq![Seq::<u8>::empty()]);
    if b == NEWLINE {
        assert(segments(s1) =~= seq![Seq::<u8>::empty(), Seq::<u8>::empty()]);
        assert(Seq::<u8>::empty() + segments(t)[0] =~= segments(t)[0]);
        assert(seq![Seq::<u8>::empty()] + seq![segments(t)[0]] + segments(t).drop_first()
            =~= seq![Seq::<u8>::empty()] + segments(t));
    } else {
        assert(segments(s1) =~= seq![seq![b]]);
        assert(segments(s1).drop_last() =~= Seq::<Seq<u8>>::empty());
        assert(Seq::<Seq<u8>>::empty() + seq![seq![b] + segments(t)[0]]
            + segments(t).drop_first() =~= seq![seq![b] + segments(t)[0]]
            + segments(t).drop_first());
    }
}

/// A window that receives every element of `s` in order holds `last_n(s, n)`.
pub proof fn lemma_last_n_push<A>(s: Seq<A>, x: A, n: nat)
    requires
        n > 0,
    ensures
        last_n(s.push(x), n) == window_push(last_n(s, n), x, n),
        last_n(s, n).len() <= n,
{
    if s.len() >= n {
        assert(last_n(s, n).len() == n);
        assert(s.push(x).skip(s.len() + 1 - n) =~= last_n(s, n).push(x).drop_first());
    } else {
        assert(last_n(s.push(x), n) =~= s.push(x));
    }
}

/// Only the last `n` elements count once the tail alone has `n` of them.
pub proof fn lemma_last_n_suffix<A>(a: Seq<A>, b: Seq<A>, n: nat)
    requires
        b.len() >= n,
    ensures
        last_n(a + b, n) == last_n(b, n),
{
    if b.len() > n {
        assert((a + b).skip((a + b).len() - n) =~= b.skip(b.len() - n));
    } else {
        if a.len() > 0 {
            assert((a + b).skip((a + b).len() - n) =~= b);
        } else {
            assert(a + b =~= b);
        }
    }
}

/// Segments that end with `k` pieces give the lines of those pieces,
/// after the closed lines of the pieces before them.
pub proof fn lemma_lines_from_segments_concat(x: Seq<Seq<u8>>, k: Seq<Seq<u8>>)
    requires
        k.len() > 0,
    ensures
        lines_from_segments(x + k) == closed_lines(x) + lines_from_segments(k),
{
    assert((x + k).drop_last() =~= x + k.drop_last());
    assert((x + k).last() == k.last());
    assert(closed_lines(x + k.drop_last()) =~= closed_lines(x) + closed_lines(k.drop_last()));
    if k.last().len() != 0 {
        assert(closed_lines(x) + closed_lines(k.drop_last()).push(k.last()) =~= closed_lines(x)
            + (closed_lines(k.drop_last()).push(k.last())));
    }
}

pub proof fn lemma_views_push(s: Seq<Vec<u8>>, v: Vec<u8>)
    ensures
        views(s.push(v)) == views(s).push(v@),
{
    assert(views(s.push(v)) =~= views(s).push(v@));
}

} // verus!
