//! df: block counts in the unit asked for, and how full a filesystem is.
use vstd::prelude::*;

verus! {

/// `count` blocks of `from_size` bytes, as whole blocks of `to_size` bytes.
pub fn scale_blocks(count: u64, from_size: u64, to_size: u64) -> (r: u128)
    requires
        to_size > 0,
    ensures
        r == (count as int * from_size as int) / to_size as int,
{
    let c = count as u128;
    let f = from_size as u128;
    assert(c * f <= 0xffff_ffff_ffff_ffffu128 * 0xffff_ffff_ffff_ffffu128) by (nonlinear_arith)
        requires
            c <= 0xffff_ffff_ffff_ffffu128,
            f <= 0xffff_ffff_ffff_ffffu128,
    ;
    (c * f) / (to_size as u128)
}

/// The capacity column, in percent: the used share of the blocks, plus one
/// wherever the division leaves a remainder; 100 where the filesystem
/// reports no total or no free blocks. Where it reports more free blocks
/// than it has, the used share is negative and the division rounds toward
/// zero.
pub open spec fn capacity(total: int, free: int) -> int {
    if total > 0 && free > 0 {
        if free <= total {
            (100 * (total - free)) / total + if (total - free) % total != 0 {
                1int
            } else {
                0int
            }
        } else {
            -((100 * (free - total)) / total) + if (free - total) % total != 0 {
                1int
            } else {
                0int
            }
        }
    } else {
        100
    }
}

pub fn capacity_percent(blocks_total: u64, blocks_free: u64) -> (r: i128)
    ensures
        r == capacity(blocks_total as int, blocks_free as int),
{
    if blocks_total > 0 && blocks_free > 0 {
        let total = blocks_total as u128;
        if blocks_free <= blocks_total {
            let used = (blocks_total - blocks_free) as u128;
            let q = (100 * used) / total;
            assert(q as int <= 100 * used as int) by (nonlinear_arith)
                requires
                    q as int == (100 * used as int) / total as int,
                    total as int > 0,
                    100 * used as int >= 0,
            ;
            let extra: i128 = if used % total != 0 {
                1
            } else {
                0
            };
            q as i128 + extra
        } else {
            let over = (blocks_free - blocks_total) as u128;
            let q = (100 * over) / total;
            assert(q as int <= 100 * over as int) by (nonlinear_arith)
                requires
                    q as int == (100 * over as int) / total as int,
                    total as int > 0,
                    100 * over as int >= 0,
            ;
            let extra: i128 = if over % total != 0 {
                1
            } else {
                0
            };
            extra - q as i128
        }
    } else {
        100
    }
}

} // verus!
