//! Small operations on byte slices.
use vstd::prelude::*;

use crate::lines::{strip_cr, CARRIAGE_RETURN};

verus! {

/// The bytes of `s` from `start` up to `end`.
pub fn slice_range(s: &[u8], start: usize, end: usize) -> (r: &[u8])
    requires
        start <= end <= s@.len(),
    ensures
        r@ == s@.subrange(start as int, end as int),
{
    let (front, _) = s.split_at(end);
    let (_, piece) = front.split_at(start);
    assert(piece@ =~= s@.subrange(start as int, end as int));
    piece
}

/// A fresh vector holding the bytes of `s` from `start` up to `end`.
pub fn copy_range(s: &[u8], start: usize, end: usize) -> (r: Vec<u8>)
    requires
        start <= end <= s@.len(),
    ensures
        r@ == s@.subrange(start as int, end as int),
{
    let mut r: Vec<u8> = Vec::new();
    let mut k: usize = start;
    while k < end
        invariant
            start <= k <= end,
            end <= s@.len(),
            r@ == s@.subrange(start as int, k as int),
        decreases end - k,
    {
        r.push(s[k]);
        k = k + 1;
        assert(r@ =~= s@.subrange(start as int, k as int));
    }
    r
}

/// `line` without a final carriage return.
pub fn strip_cr_vec(line: Vec<u8>) -> (r: Vec<u8>)
    ensures
        r@ == strip_cr(line@),
{
    let mut line = line;
    let n = line.len();
    if n > 0 && line[n - 1] == CARRIAGE_RETURN {
        let _ = line.pop();
    }
    line
}

} // verus!
