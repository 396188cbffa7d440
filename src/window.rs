//! The sliding window: the most recent lines of a source, oldest first.
use std::collections::VecDeque;
use vstd::prelude::*;

use crate::lines::{last_n, lemma_last_n_push, lemma_views_push, views, window_push};

verus! {

/// A queue of at most `capacity` lines that drops its oldest line when a new
/// one would overflow it.
pub struct Window {
    lines: VecDeque<Vec<u8>>,
    capacity: usize,
}

impl Window {
    /// The lines held, oldest first.
    pub closed spec fn contents(&self) -> Seq<Seq<u8>> {
        views(self.lines@)
    }

    pub closed spec fn cap(&self) -> nat {
        self.capacity as nat
    }

    pub closed spec fn wf(&self) -> bool {
        self.capacity > 0 && self.lines@.len() <= self.capacity
    }

    pub fn new(capacity: usize) -> (w: Window)
        requires
            capacity > 0,
        ensures
            w.wf(),
            w.cap() == capacity,
            w.contents() == Seq::<Seq<u8>>::empty(),
    {
        let w = Window { lines: VecDeque::new(), capacity };
        assert(w.contents() =~= Seq::<Seq<u8>>::empty());
        w
    }

    /// The capacity; positive for a well-formed window.
    pub fn capacity(&self) -> (c: usize)
        requires
            self.wf(),
        ensures
            c == self.cap(),
            c > 0,
    {
        self.capacity
    }

    /// How many lines are held; never more than the capacity.
    pub fn len(&self) -> (n: usize)
        requires
            self.wf(),
        ensures
            n == self.contents().len(),
            n <= self.cap(),
    {
        self.lines.len()
    }

    /// Appends `line` at the back, evicting the front line on overflow.
    pub fn push(&mut self, line: Vec<u8>)
        requires
            old(self).wf(),
        ensures
            final(self).wf(),
            final(self).cap() == old(self).cap(),
            final(self).contents() == window_push(old(self).contents(), line@, old(self).cap()),
    {
        let ghost before = self.lines@;
        let ghost v = line@;
        self.lines.push_back(line);
        proof {
            lemma_views_push(before, self.lines@.last());
        }
        if self.lines.len() > self.capacity {
            let _ = self.lines.pop_front();
            assert(views(self.lines@) =~= views(before).push(v).drop_first());
        }
    }

    /// Pushes every line of `src` in order.
    pub fn push_all(&mut self, src: Vec<Vec<u8>>)
        requires
            old(self).wf(),
            old(self).contents().len() == 0,
        ensures
            final(self).wf(),
            final(self).cap() == old(self).cap(),
            final(self).contents() == last_n(views(src@), old(self).cap()),
    {
        let ghost all = views(src@);
        let ghost orig = src@;
        let mut src = src;
        let mut rev: Vec<Vec<u8>> = Vec::new();
        while src.len() > 0
            invariant
                src@.len() + rev@.len() == orig.len(),
                src@ == orig.take(src@.len() as int),
                forall|i: int| 0 <= i < rev@.len() ==> #[trigger] rev@[i] == orig[orig.len() - 1 - i],
            decreases src@.len(),
        {
            let line = src.pop().unwrap();
            rev.push(line);
            assert(src@ =~= orig.take(src@.len() as int));
        }
        let ghost rv = rev@;
        let mut k: usize = 0;
        let total = rev.len();
        assert(last_n(all.take(0), self.cap()) =~= self.contents());
        while k < total
            invariant
                self.wf(),
                self.cap() == old(self).cap(),
                total == rv.len(),
                all.len() == total,
                orig.len() == total,
                all == views(orig),
                rev@ == rv.take(total - k),
                forall|i: int| 0 <= i < total ==> #[trigger] rv[i] == orig[total - 1 - i],
                k <= total,
                self.contents() == last_n(all.take(k as int), self.cap()),
            decreases total - k,
        {
            let line = rev.pop().unwrap();
            assert(line == rv[total - 1 - k]);
            assert(line@ == all[k as int]);
            proof {
                lemma_last_n_push(all.take(k as int), line@, self.cap());
                assert(all.take(k as int).push(line@) =~= all.take(k + 1));
            }
            self.push(line);
            k = k + 1;
            assert(rev@ =~= rv.take(total - k));
        }
        assert(all.take(total as int) =~= all);
    }

    /// Takes every line out, oldest first, leaving the window empty.
    pub fn drain(&mut self) -> (out: Vec<Vec<u8>>)
        requires
            old(self).wf(),
        ensures
            final(self).wf(),
            final(self).cap() == old(self).cap(),
            final(self).contents().len() == 0,
            views(out@) == old(self).contents(),
    {
        let ghost start = self.lines@;
        let mut out: Vec<Vec<u8>> = Vec::new();
        while self.lines.len() > 0
            invariant
                self.wf(),
                self.cap() == old(self).cap(),
                out@ + self.lines@ == start,
            decreases self.lines@.len(),
        {
            let ghost rest = self.lines@;
            let line = self.lines.pop_front().unwrap();
            let ghost o = out@;
            out.push(line);
            assert(out@ + self.lines@ =~= o + rest);
        }
        assert(out@ =~= start);
        assert(self.contents() =~= Seq::<Seq<u8>>::empty());
        out
    }
}

/// The last `capacity` lines of `src`, oldest first.
pub fn window_of(src: Vec<Vec<u8>>, capacity: usize) -> (out: Vec<Vec<u8>>)
    requires
        capacity > 0,
    ensures
        views(out@) == last_n(views(src@), capacity as nat),
{
    let mut w = Window::new(capacity);
    w.push_all(src);
    w.drain()
}

} // verus!
