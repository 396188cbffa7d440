//! The forward streaming reader: bytes in source order, cut into lines and
//! kept in a bounded window.
use vstd::prelude::*;

use crate::lines::{
    complete_lines, last_n, lemma_last_n_push, lemma_segments_len, lines_of, partial_line,
    segments, closed_lines, lemma_closed_lines_push, views, NEWLINE,
};
use crate::bytes::{slice_range, strip_cr_vec};
use crate::window::Window;

verus! {

/// A cursor over a byte stream. It remembers the line in progress across
/// calls, so a source can be read in pieces as its bytes arrive.
pub struct ForwardReader {
    partial: Vec<u8>,
    window: Window,
    pending: Ghost<Seq<u8>>,
}

impl ForwardReader {
    /// The bytes fed since the reader was made or last flushed.
    pub closed spec fn pending(&self) -> Seq<u8> {
        self.pending@
    }

    pub closed spec fn cap(&self) -> nat {
        self.window.cap()
    }

    pub closed spec fn wf(&self) -> bool {
        &&& self.window.wf()
        &&& self.window.cap() > 0
        &&& self.partial@ == partial_line(self.pending@)
        &&& self.window.contents() == last_n(complete_lines(self.pending@), self.window.cap())
    }

    pub fn new(capacity: usize) -> (r: ForwardReader)
        requires
            capacity > 0,
        ensures
            r.wf(),
            r.cap() == capacity,
            r.pending() == Seq::<u8>::empty(),
    {
        let r = ForwardReader {
            partial: Vec::new(),
            window: Window::new(capacity),
            pending: Ghost(Seq::empty()),
        };
        assert(complete_lines(Seq::<u8>::empty()) =~= Seq::<Seq<u8>>::empty());
        assert(r.partial@ =~= partial_line(Seq::<u8>::empty()));
        r
    }

    /// Consumes one piece of the stream.
    pub fn feed(&mut self, chunk: &[u8])
        requires
            old(self).wf(),
        ensures
            final(self).wf(),
            final(self).cap() == old(self).cap(),
            final(self).pending() == old(self).pending() + chunk@,
    {
        let mut i: usize = 0;
        while i < chunk.len()
            invariant
                self.wf(),
                self.cap() == old(self).cap(),
                i <= chunk.len(),
                self.pending() == old(self).pending() + chunk@.take(i as int),
            decreases chunk.len() - i,
        {
            let b = chunk[i];
            let ghost p = self.pending@;
            let ghost q = p.push(b);
            proof {
                lemma_segments_len(p);
                assert(q.drop_last() =~= p);
                assert(q.last() == b);
            }
            if b == NEWLINE {
                let mut raw: Vec<u8> = Vec::new();
                std::mem::swap(&mut raw, &mut self.partial);
                let line = strip_cr_vec(raw);
                proof {
                    lemma_last_n_push(complete_lines(p), line@, self.window.cap());
                    assert(segments(q) == segments(p).push(Seq::<u8>::empty()));
                    assert(segments(p) =~= segments(p).drop_last().push(raw@));
                    lemma_closed_lines_push(segments(p).drop_last(), raw@);
                    assert(segments(q).drop_last() =~= segments(p));
                    assert(complete_lines(q) == closed_lines(segments(p)));
                    assert(complete_lines(q) == complete_lines(p).push(line@));
                }
                self.window.push(line);
                self.pending = Ghost(q);
                assert(self.partial@ =~= partial_line(q));
            } else {
                self.partial.push(b);
                self.pending = Ghost(q);
                assert(segments(q).drop_last() =~= segments(p).drop_last());
                assert(complete_lines(q) =~= complete_lines(p));
            }
            i = i + 1;
            assert(old(self).pending() + chunk@.take(i as int) =~= q);
        }
        assert(chunk@.take(chunk.len() as int) =~= chunk@);
    }

    /// Ends the current stretch of input: the line in progress, if any, counts
    /// as the last line. Returns the last lines of what was fed since the
    /// previous flush, oldest first, and starts afresh.
    pub fn flush(&mut self) -> (out: Vec<Vec<u8>>)
        requires
            old(self).wf(),
        ensures
            final(self).wf(),
            final(self).cap() == old(self).cap(),
            final(self).pending() == Seq::<u8>::empty(),
            views(out@) == last_n(lines_of(old(self).pending()), old(self).cap()),
    {
        let ghost p = self.pending@;
        proof {
            lemma_segments_len(p);
        }
        if self.partial.len() > 0 {
            let mut line: Vec<u8> = Vec::new();
            std::mem::swap(&mut line, &mut self.partial);
            proof {
                lemma_last_n_push(complete_lines(p), line@, self.window.cap());
                assert(lines_of(p) =~= complete_lines(p).push(line@));
            }
            self.window.push(line);
        } else {
            assert(lines_of(p) =~= complete_lines(p));
        }
        let out = self.window.drain();
        self.pending = Ghost(Seq::empty());
        assert(self.window.contents() =~= Seq::<Seq<u8>>::empty());
        assert(complete_lines(Seq::<u8>::empty()) =~= Seq::<Seq<u8>>::empty());
        assert(self.partial@ =~= partial_line(Seq::<u8>::empty()));
        out
    }

    /// Gives up on the stream after a read error: the lines already closed by
    /// a newline are returned, the line in progress is dropped.
    pub fn abandon(&mut self) -> (out: Vec<Vec<u8>>)
        requires
            old(self).wf(),
        ensures
            final(self).wf(),
            final(self).cap() == old(self).cap(),
            final(self).pending() == Seq::<u8>::empty(),
            views(out@) == last_n(complete_lines(old(self).pending()), old(self).cap()),
    {
        self.partial.clear();
        let out = self.window.drain();
        self.pending = Ghost(Seq::empty());
        assert(self.window.contents() =~= Seq::<Seq<u8>>::empty());
        assert(complete_lines(Seq::<u8>::empty()) =~= Seq::<Seq<u8>>::empty());
        assert(self.partial@ =~= partial_line(Seq::<u8>::empty()));
        out
    }
}

/// The last `n` lines of `source`, read front to back in pieces of
/// `chunk_size` bytes.
pub fn tail_forward(source: &[u8], n: usize, chunk_size: usize) -> (out: Vec<Vec<u8>>)
    requires
        n > 0,
        chunk_size > 0,
    ensures
        views(out@) == last_n(lines_of(source@), n as nat),
{
    let mut reader = ForwardReader::new(n);
    let mut start: usize = 0;
    while start < source.len()
        invariant
            reader.wf(),
            reader.cap() == n,
            start <= source.len(),
            chunk_size > 0,
            reader.pending() == source@.take(start as int),
        decreases source.len() - start,
    {
        let end = if source.len() - start > chunk_size {
            start + chunk_size
        } else {
            source.len()
        };
        let chunk = slice_range(source, start, end);
        reader.feed(chunk);
        assert(source@.take(start as int) + source@.subrange(start as int, end as int)
            =~= source@.take(end as int));
        start = end;
    }
    assert(source@.take(source.len() as int) =~= source@);
    reader.flush()
}

} // verus!
