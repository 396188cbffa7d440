//! The reverse scan reader: the last lines of a seekable source, found by
//! reading fixed-size chunks backward from its end.
use vstd::prelude::*;

use crate::bytes::{copy_range, slice_range, strip_cr_vec};
use crate::lines::{
    closed_lines, last_n, lemma_closed_lines_push, lemma_last_n_suffix,
    lemma_lines_from_segments_concat, lemma_segments_concat, lemma_segments_len,
    lemma_segments_prepend, lemma_views_push, lines_from_segments, lines_of, segments, views,
    NEWLINE,
};
use crate::window::window_of;

verus! {

/// The state of a backward scan. The caller reads the chunk that
/// `next_read` asks for and hands it to `feed`, until `next_read` says the
/// scan is done; `finish` then gives the lines.
pub struct ReverseScan {
    pos: u64,
    chunk_size: usize,
    wanted: usize,
    residual: Vec<u8>,
    found: Vec<Vec<u8>>,
    tail: Ghost<Seq<u8>>,
    source_len: Ghost<nat>,
}

impl ReverseScan {
    /// How many bytes at the front of the source are still unread.
    pub closed spec fn pos(&self) -> nat {
        self.pos as nat
    }

    /// The bytes read so far: the source from `pos()` to its end.
    pub closed spec fn tail(&self) -> Seq<u8> {
        self.tail@
    }

    pub closed spec fn source_len(&self) -> nat {
        self.source_len@
    }

    pub closed spec fn wanted(&self) -> nat {
        self.wanted as nat
    }

    pub closed spec fn chunk_size(&self) -> nat {
        self.chunk_size as nat
    }

    pub closed spec fn enough(&self) -> bool {
        self.found@.len() > self.wanted || (self.found@.len() == self.wanted
            && self.found@.len() > 0 && self.found@[0]@.len() > 0)
    }

    /// No more chunk is needed: the front of the source is reached, or enough
    /// lines are known.
    pub closed spec fn done(&self) -> bool {
        self.pos == 0 || self.enough()
    }

    pub closed spec fn wf(&self) -> bool {
        &&& self.wanted > 0
        &&& self.chunk_size > 0
        &&& self.tail@.len() + self.pos == self.source_len@
        &&& segments(self.tail@) == seq![self.residual@] + views(self.found@).reverse()
    }

    /// Starts a scan of a source of `source_len` bytes for its last `wanted`
    /// lines.
    pub fn new(source_len: u64, wanted: usize, chunk_size: usize) -> (s: ReverseScan)
        requires
            wanted > 0,
            chunk_size > 0,
        ensures
            s.wf(),
            s.pos() == source_len,
            s.source_len() == source_len,
            s.tail() == Seq::<u8>::empty(),
            s.wanted() == wanted,
            s.chunk_size() == chunk_size,
    {
        let s = ReverseScan {
            pos: source_len,
            chunk_size,
            wanted,
            residual: Vec::new(),
            found: Vec::new(),
            tail: Ghost(Seq::empty()),
            source_len: Ghost(source_len as nat),
        };
        assert(seq![s.residual@] + views(s.found@).reverse() =~= seq![Seq::<u8>::empty()]);
        s
    }

    fn is_enough(&self) -> (r: bool)
        ensures
            r == self.enough(),
    {
        self.found.len() > self.wanted || (self.found.len() == self.wanted && self.found.len() > 0
            && self.found[0].len() > 0)
    }

    /// The next chunk to read, as an offset and a length, or `None` once the
    /// scan is done. The chunk ends where the unread front of the source ends.
    pub fn next_read(&self) -> (r: Option<(u64, usize)>)
        requires
            self.wf(),
        ensures
            r is None <==> self.done(),
            r matches Some((off, n)) ==> {
                &&& n as nat == (if self.pos() < self.chunk_size() {
                    self.pos()
                } else {
                    self.chunk_size()
                })
                &&& off + n == self.pos()
                &&& n > 0
            },
    {
        if self.pos == 0 || self.is_enough() {
            return None;
        }
        let n: usize = if self.pos < self.chunk_size as u64 {
            self.pos as usize
        } else {
            self.chunk_size
        };
        Some((self.pos - n as u64, n))
    }

    /// Takes in the chunk that `next_read` asked for: the `chunk.len()` bytes
    /// of the source that end at `pos()`. The scan may stop inside the chunk
    /// once it knows enough lines; the bytes before that point stay unread.
    pub fn feed(&mut self, chunk: &[u8])
        requires
            old(self).wf(),
            !old(self).done(),
            chunk@.len() == (if old(self).pos() < old(self).chunk_size() {
                old(self).pos()
            } else {
                old(self).chunk_size()
            }),
        ensures
            final(self).wf(),
            final(self).source_len() == old(self).source_len(),
            final(self).wanted() == old(self).wanted(),
            final(self).chunk_size() == old(self).chunk_size(),
            old(self).pos() - chunk@.len() <= final(self).pos() < old(self).pos(),
            final(self).tail() == chunk@.subrange(
                final(self).pos() - (old(self).pos() - chunk@.len()),
                chunk@.len() as int,
            ) + old(self).tail(),
    {
        let clen = chunk.len();
        let ghost t0 = self.tail@;
        let start: u64 = self.pos - clen as u64;
        let mut j: usize = clen;
        let mut cur_end: usize = clen;
        let mut stop = false;
        while j > 0 && !stop
            invariant
                self.wanted > 0,
                self.chunk_size > 0,
                self.wanted == old(self).wanted,
                self.chunk_size == old(self).chunk_size,
                self.pos == old(self).pos,
                self.tail == old(self).tail,
                self.source_len == old(self).source_len,
                clen == chunk@.len(),
                clen > 0,
                j <= cur_end <= clen,
                stop ==> j < clen,
                stop ==> self.enough(),
                segments(chunk@.subrange(j as int, clen as int) + t0) == seq![
                    chunk@.subrange(j as int, cur_end as int) + self.residual@,
                ] + views(self.found@).reverse(),
            decreases j,
        {
            let b = chunk[j - 1];
            let ghost rest = chunk@.subrange(j as int, clen as int) + t0;
            let ghost piece = chunk@.subrange(j as int, cur_end as int) + self.residual@;
            let ghost fv = views(self.found@);
            proof {
                lemma_segments_prepend(b, rest);
                assert(seq![b] + rest =~= chunk@.subrange(j - 1, clen as int) + t0);
                assert(segments(rest)[0] == piece);
                assert(segments(rest).drop_first() =~= fv.reverse());
            }
            if b == NEWLINE {
                let mut line = copy_range(chunk, j, cur_end);
                let mut carried: Vec<u8> = Vec::new();
                std::mem::swap(&mut carried, &mut self.residual);
                line.append(&mut carried);
                assert(line@ == piece);
                self.found.push(line);
                assert(views(self.found@) =~= fv.push(piece));
                assert(views(self.found@).reverse() =~= seq![piece] + fv.reverse());
                cur_end = j - 1;
                j = j - 1;
                assert(chunk@.subrange(j as int, cur_end as int) + self.residual@
                    =~= Seq::<u8>::empty());
                assert(seq![Seq::<u8>::empty()] + (seq![piece] + fv.reverse()) =~= seq![
                    chunk@.subrange(j as int, cur_end as int) + self.residual@,
                ] + views(self.found@).reverse());
            } else {
                j = j - 1;
                assert(seq![b] + piece =~= chunk@.subrange(j as int, cur_end as int)
                    + self.residual@);
            }
            if self.is_enough() {
                stop = true;
            }
        }
        let mut front = copy_range(chunk, j, cur_end);
        front.append(&mut self.residual);
        self.residual = front;
        self.pos = start + j as u64;
        self.tail = Ghost(chunk@.subrange(j as int, clen as int) + t0);
    }

    /// The last `wanted()` lines of any source that ends with the bytes read,
    /// oldest first.
    pub fn finish(&mut self) -> (out: Vec<Vec<u8>>)
        requires
            old(self).wf(),
            old(self).done(),
        ensures
            forall|p: Seq<u8>|
                p.len() == old(self).pos() ==> views(out@) == last_n(
                    #[trigger] lines_of(p + old(self).tail()),
                    old(self).wanted(),
                ),
    {
        let ghost t = self.tail@;
        let ghost fv = views(self.found@);
        let ghost res = self.residual@;
        let mut all: Vec<Vec<u8>> = Vec::new();
        let ghost first_part: Seq<Seq<u8>> = Seq::empty();
        if self.pos == 0 {
            let mut r: Vec<u8> = Vec::new();
            std::mem::swap(&mut r, &mut self.residual);
            all.push(r);
            proof {
                first_part = seq![res];
            }
        }
        assert(views(all@) =~= first_part);
        let ghost total = self.found@.len();
        while self.found.len() > 0
            invariant
                self.wanted == old(self).wanted,
                self.wanted > 0,
                self.pos == old(self).pos,
                self.found@.len() <= total,
                total == fv.len(),
                forall|i: int| 0 <= i < self.found@.len() ==> #[trigger] self.found@[i]@ == fv[i],
                views(all@) == first_part + fv.reverse().take(total - self.found@.len()),
            decreases self.found@.len(),
        {
            let ghost k = self.found@.len();
            let line = self.found.pop().unwrap();
            assert(line@ == fv[k - 1]);
            let ghost before = all@;
            all.push(line);
            assert(views(all@) =~= views(before).push(line@));
            assert(fv.reverse().take(total - k + 1) =~= fv.reverse().take(total - k).push(
                fv[k - 1],
            ));
        }
        assert(fv.reverse().take(total as int) =~= fv.reverse());
        let ghost full = views(all@);
        proof {
            lemma_finish_lines(t, res, fv, full, old(self).pos(), old(self).wanted());
        }
        window_of(segments_to_lines(all), self.wanted)
    }
}

/// The lines that `segs` stand for (see `lines_from_segments`).
fn segments_to_lines(segs: Vec<Vec<u8>>) -> (out: Vec<Vec<u8>>)
    requires
        segs@.len() > 0,
    ensures
        views(out@) == lines_from_segments(views(segs@)),
{
    let ghost sv = views(segs@);
    let mut segs = segs;
    let last = segs.pop().unwrap();
    let ghost body = segs@;
    assert(views(body) =~= sv.drop_last());
    let mut rev: Vec<Vec<u8>> = Vec::new();
    while segs.len() > 0
        invariant
            segs@.len() + rev@.len() == body.len(),
            segs@ == body.take(segs@.len() as int),
            forall|i: int| 0 <= i < rev@.len() ==> #[trigger] rev@[i] == body[body.len() - 1 - i],
        decreases segs@.len(),
    {
        let x = segs.pop().unwrap();
        rev.push(x);
        assert(segs@ =~= body.take(segs@.len() as int));
    }
    let ghost rv = rev@;
    let total = rev.len();
    let mut out: Vec<Vec<u8>> = Vec::new();
    while rev.len() > 0
        invariant
            total == rv.len(),
            total == body.len(),
            rev@.len() <= total,
            rev@ == rv.take(rev@.len() as int),
            forall|i: int| 0 <= i < total ==> #[trigger] rv[i] == body[total - 1 - i],
            views(out@) == closed_lines(views(body).take(total - rev@.len())),
        decreases rev@.len(),
    {
        let ghost k = total - rev@.len();
        let x = rev.pop().unwrap();
        assert(0 <= k < total);
        assert(x == rv[total - 1 - k]);
        assert(x == body[k]);
        let line = strip_cr_vec(x);
        let ghost before = out@;
        out.push(line);
        proof {
            lemma_views_push(before, line);
            assert(views(body).take(k + 1) =~= views(body).take(k).push(x@));
            lemma_closed_lines_push(views(body).take(k), x@);
        }
        assert(rev@ =~= rv.take(rev@.len() as int));
    }
    assert(views(body).take(total as int) =~= views(body));
    if last.len() > 0 {
        let ghost before = out@;
        out.push(last);
        proof {
            lemma_views_push(before, last);
        }
    }
    out
}

/// What `finish` returns: with the read bytes cut as `[res] + rev(fv)`, the
/// last lines of any source ending with them are the last lines that `full`
/// stands for.
proof fn lemma_finish_lines(
    t: Seq<u8>,
    res: Seq<u8>,
    fv: Seq<Seq<u8>>,
    full: Seq<Seq<u8>>,
    pos: nat,
    wanted: nat,
)
    requires
        wanted > 0,
        segments(t) == seq![res] + fv.reverse(),
        pos == 0 ==> full == seq![res] + fv.reverse(),
        pos != 0 ==> full == fv.reverse(),
        pos != 0 ==> fv.len() > wanted || (fv.len() == wanted && fv.len() > 0 && fv[0].len()
            > 0),
    ensures
        full.len() > 0,
        forall|p: Seq<u8>|
            p.len() == pos ==> last_n(#[trigger] lines_of(p + t), wanted) == last_n(
                lines_from_segments(full),
                wanted,
            ),
{
    lemma_segments_len(t);
    assert forall|p: Seq<u8>| p.len() == pos implies last_n(
        #[trigger] lines_of(p + t),
        wanted,
    ) == last_n(lines_from_segments(full), wanted) by {
        lemma_segments_concat(p, t);
        lemma_segments_len(p);
        let sp = segments(p);
        let st = segments(t);
        assert(st[0] == res);
        assert(st.drop_first() =~= fv.reverse());
        let x = sp.drop_last() + seq![sp.last() + res];
        assert(segments(p + t) == x + fv.reverse());
        if pos == 0 {
            assert(p =~= Seq::<u8>::empty());
            assert(p + t =~= t);
            assert(full == st);
        } else {
            lemma_lines_from_segments_concat(x, full);
            assert(full.last() == fv[0]);
            assert(lines_from_segments(full).len() >= wanted);
            lemma_last_n_suffix(closed_lines(x), lines_from_segments(full), wanted);
        }
    }
}

/// The last `n` lines of `source`, found by scanning it backward in chunks of
/// `chunk_size` bytes.
pub fn tail_reverse(source: &[u8], n: usize, chunk_size: usize) -> (out: Vec<Vec<u8>>)
    requires
        n > 0,
        chunk_size > 0,
    ensures
        views(out@) == last_n(lines_of(source@), n as nat),
{
    let slen: usize = source.len();
    let total = slen as u64;
    let mut scan = ReverseScan::new(total, n, chunk_size);
    assert(source@.subrange(total as int, total as int) =~= Seq::<u8>::empty());
    loop
        invariant
            scan.wf(),
            scan.source_len() == source@.len(),
            scan.wanted() == n,
            scan.chunk_size() == chunk_size,
            scan.pos() <= source@.len(),
            scan.tail() == source@.subrange(scan.pos() as int, source@.len() as int),
            slen == source@.len(),
        ensures
            scan.wf(),
            scan.done(),
            scan.wanted() == n,
            scan.pos() <= source@.len(),
            scan.tail() == source@.subrange(scan.pos() as int, source@.len() as int),
        decreases scan.pos(),
    {
        match scan.next_read() {
            None => break,
            Some((off, k)) => {
                assert(off + k <= source@.len());
                let lo = off as usize;
                let chunk = slice_range(source, lo, lo + k);
                scan.feed(chunk);
                assert(chunk@.subrange(scan.pos() - off, k as int) =~= source@.subrange(
                    scan.pos() as int,
                    off + k,
                ));
                assert(scan.tail() =~= source@.subrange(
                    scan.pos() as int,
                    source@.len() as int,
                ));
            },
        }
    }
    let ghost front = source@.subrange(0, scan.pos() as int);
    assert(front + scan.tail() =~= source@);
    let out = scan.finish();
    assert(lines_of(front + source@.subrange(front.len() as int, source@.len() as int))
        == lines_of(source@));
    out
}

} // verus!
