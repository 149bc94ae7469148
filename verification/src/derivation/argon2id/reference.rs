use vstd::prelude::*;

use vstd::arithmetic::div_mod::{lemma_div_multiples_vanish, lemma_mod_bound};
use vstd::arithmetic::power2::{lemma2_to64, lemma2_to64_rest, pow2};
use vstd::bits::lemma_u64_shr_is_div;

use crate::derivation::argon2id::memory::{layout_wf, MemoryLayout};

verus! {

/// The lane the reference block is read from: the block's own lane while no
/// cross-lane material exists (first slice of the first pass), else drawn
/// from `j2`.
pub open spec fn phi_ref_lane(pass: int, slice: int, lane: int, j2: int, lanes: int) -> int {
    if pass == 0 && slice == 0 {
        lane
    } else {
        j2 % lanes
    }
}

/// The eligible window within the reference lane: its start position and its
/// size. In the first pass only already-written positions are eligible; in
/// later passes the window spans the three completed slices, starting right
/// after the slice being overwritten. The block just before the current one
/// is excluded, and on a foreign lane the window additionally shrinks by one
/// at segment boundaries.
pub open spec fn phi_window(
    pass: int,
    slice: int,
    lane: int,
    index: int,
    segment_len: int,
    lane_len: int,
    ref_lane: int,
) -> (int, int) {
    let index_in_segment = index % segment_len;
    if pass == 0 {
        if slice == 0 {
            (0, if index == 0 {
                0
            } else {
                index - 1
            })
        } else if ref_lane == lane {
            (
                0,
                slice * segment_len + (if index_in_segment == 0 {
                    0
                } else {
                    index_in_segment - 1
                }),
            )
        } else {
            let size = slice * segment_len;
            if index_in_segment == 0 && size > 0 {
                (0, size - 1)
            } else {
                (0, size)
            }
        }
    } else {
        let start = ((slice + 1) % 4) * segment_len;
        if ref_lane == lane {
            (
                start,
                lane_len - segment_len + (if index_in_segment == 0 {
                    0
                } else {
                    index_in_segment - 1
                }),
            )
        } else {
            let size = lane_len - segment_len;
            if index_in_segment == 0 && size > 0 {
                (start, size - 1)
            } else {
                (start, size)
            }
        }
    }
}

/// The offset into the window drawn from `j1`: `x = j1^2 / 2^32` is a
/// squared uniform variable, so `z = (w - 1) - (w * x) / 2^32` is skewed
/// towards `w - 1`, favoring recent blocks.
pub open spec fn phi_zz(j1: int, w: int) -> int {
    let x = (j1 * j1) / 0x1_0000_0000;
    let y = (w * x) / 0x1_0000_0000;
    (w - 1) - y
}

/// The index within the reference lane: the window start alone when the
/// window is empty, else the start plus the skewed offset, wrapped at the
/// lane length.
pub open spec fn phi_index(
    pass: int,
    slice: int,
    lane: int,
    index: int,
    j1: int,
    segment_len: int,
    lane_len: int,
    ref_lane: int,
) -> int {
    let win = phi_window(pass, slice, lane, index, segment_len, lane_len, ref_lane);
    if win.1 == 0 {
        win.0 % lane_len
    } else {
        (win.0 + phi_zz(j1, win.1)) % lane_len
    }
}

/// Resolves the pseudorandom pair `(j1, j2)` at a position to the concrete
/// block `(lane, index)` that the mixing step reads.
#[verifier::rlimit(100)]
pub fn compute_reference_position(
    pass: u32,
    slice: u32,
    lane: u32,
    index: u32,
    layout: &MemoryLayout,
    j1: u32,
    j2: u32,
) -> (r: (u32, u32))
    requires
        layout_wf(*layout),
        slice < 4,
        lane < layout.lanes,
        index < layout.lane_len,
    ensures
        r.0 as int == phi_ref_lane(pass as int, slice as int, lane as int, j2 as int, layout.lanes as int),
        r.1 as int == phi_index(
            pass as int,
            slice as int,
            lane as int,
            index as int,
            j1 as int,
            layout.segment_len as int,
            layout.lane_len as int,
            r.0 as int,
        ),
        r.0 < layout.lanes,
        r.1 < layout.lane_len,
{
    let ghost seg = layout.segment_len as int;
    let segment_len = layout.lane_len / 4;
    proof {
        lemma_div_multiples_vanish(seg, 4);
    }
    assert(segment_len == layout.segment_len);
    let index_in_segment = index % segment_len;

    let ref_lane = if pass == 0 && slice == 0 {
        lane
    } else {
        j2 % layout.lanes
    };

    proof {
        assert((slice as int) * seg <= 3 * seg) by (nonlinear_arith)
            requires
                slice <= 3,
                seg >= 0,
        ;
        assert(((slice as int + 1) % 4) * seg <= 3 * seg) by (nonlinear_arith)
            requires
                0 <= (slice as int + 1) % 4 <= 3,
                seg >= 0,
        ;
    }
    let (start_pos, w_size): (u32, u32) = if pass == 0 {
        if slice == 0 {
            (0, if index == 0 { 0 } else { index - 1 })
        } else if ref_lane == lane {
            (
                0,
                slice * segment_len + (if index_in_segment == 0 {
                    0
                } else {
                    index_in_segment - 1
                }),
            )
        } else {
            let size = slice * segment_len;
            if index_in_segment == 0 && size > 0 {
                (0, size - 1)
            } else {
                (0, size)
            }
        }
    } else {
        let start = ((slice + 1) % 4) * segment_len;
        if ref_lane == lane {
            (
                start,
                layout.lane_len - segment_len + (if index_in_segment == 0 {
                    0
                } else {
                    index_in_segment - 1
                }),
            )
        } else {
            let size = layout.lane_len - segment_len;
            if index_in_segment == 0 && size > 0 {
                (start, size - 1)
            } else {
                (start, size)
            }
        }
    };

    if w_size == 0 {
        return (ref_lane, start_pos % layout.lane_len);
    }

    let w = w_size as u64;
    proof {
        assert((j1 as u64) * (j1 as u64) <= 0xFFFF_FFFFu64 * 0xFFFF_FFFFu64) by (nonlinear_arith)
            requires
                j1 <= 0xFFFF_FFFFu32,
        ;
    }
    let xsq = (j1 as u64) * (j1 as u64);
    let x = xsq >> 32;
    proof {
        lemma_u64_shr_is_div(xsq, 32);
        lemma2_to64();
        lemma2_to64_rest();
        assert(pow2(32) == 0x1_0000_0000);
        assert(x == xsq as int / 0x1_0000_0000);
        assert(x < 0x1_0000_0000u64) by (bit_vector)
            requires
                x == xsq >> 32u64,
        ;
    }
    proof {
        assert((w as int) * (x as int) <= 0xFFFF_FFFF * 0xFFFF_FFFF) by (nonlinear_arith)
            requires
                0 <= w <= 0xFFFF_FFFF,
                0 <= x <= 0xFFFF_FFFF,
        ;
    }
    let wx = w * x;
    let y = wx >> 32;
    proof {
        lemma_u64_shr_is_div(wx, 32);
        assert(y == wx as int / 0x1_0000_0000);
        assert(y < w) by (nonlinear_arith)
            requires
                y == wx as int / 0x1_0000_0000,
                wx == w * x,
                0 <= x < 0x1_0000_0000,
                1 <= w,
        ;
    }
    let zz = (w - 1) - y;
    let ref_index = (((start_pos as u64) + zz) % (layout.lane_len as u64)) as u32;
    proof {
        lemma_mod_bound((start_pos + zz) as int, layout.lane_len as int);
    }
    (ref_lane, ref_index)
}

} // verus!
