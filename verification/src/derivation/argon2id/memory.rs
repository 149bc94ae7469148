use vstd::prelude::*;

use vstd::arithmetic::div_mod::{
    lemma_div_is_ordered, lemma_div_multiples_vanish, lemma_fundamental_div_mod,
};

use crate::derivation::argon2id::block::{
    addr_block, compress_blocks, word32, xor_words, zero_block, Block,
};
use crate::derivation::argon2id::params::Argon2Params;
use crate::derivation::argon2id::reference::{
    compute_reference_position, phi_index, phi_ref_lane,
};

verus! {

/// The lane/pass/slice geometry of the memory array: `lanes` lanes of
/// `lane_len` blocks each, four segments of `segment_len` blocks per lane.
#[derive(Clone, Copy, Debug)]
pub struct MemoryLayout {
    pub lanes: u32,
    pub lane_len: u32,
    pub segment_len: u32,
    pub total_blocks: u32,
}

/// Geometry invariant: at least one lane, segments of at least two blocks,
/// four segments per lane, and a flat array of exactly `lanes * lane_len`
/// blocks.
pub open spec fn layout_wf(l: MemoryLayout) -> bool {
    &&& l.lanes >= 1
    &&& l.segment_len >= 2
    &&& l.lane_len == 4 * (l.segment_len as int)
    &&& l.total_blocks == (l.lanes as int) * (l.lane_len as int)
}

/// The word contents of every block of `m`.
pub open spec fn deep(m: Seq<Block>) -> Seq<Seq<u64>> {
    Seq::new(m.len(), |i: int| m[i]@)
}

/// Every block of `m` holds exactly 128 words.
pub open spec fn blocks_wf(m: Seq<Block>) -> bool {
    forall|i: int| 0 <= i < m.len() ==> (#[trigger] m[i]).wf()
}

impl MemoryLayout {
    /// Derives the geometry from validated parameters: the block count is
    /// the memory size rounded down to a multiple of four blocks per lane.
    pub fn new(params: &Argon2Params) -> (l: Self)
        requires
            params.lanes >= 1,
            params.mem_kib >= 8 * (params.lanes as int),
        ensures
            layout_wf(l),
            l.lanes == params.lanes,
            l.total_blocks as int == ((params.mem_kib as int) / (4 * (params.lanes as int))) * (4
                * (params.lanes as int)),
            l.lane_len as int == l.total_blocks as int / (params.lanes as int),
            l.segment_len as int == l.lane_len as int / 4,
    {
        let lanes = params.lanes;
        let ghost ll = lanes as int;
        let ghost m = params.mem_kib as int;
        let fourl: u64 = 4 * (lanes as u64);
        let q64: u64 = (params.mem_kib as u64) / fourl;
        let ghost q = m / (4 * ll);
        assert(q64 == q);
        proof {
            lemma_fundamental_div_mod(m, 4 * ll);
            assert((4 * ll) * q <= m);
            // q >= 2 because mem_kib >= 8 * lanes
            assert(8 * ll == 2 * (4 * ll));
            lemma_div_is_ordered(2 * (4 * ll), m, 4 * ll);
            lemma_div_multiples_vanish(2, 4 * ll);
        }
        let total64: u64 = q64 * fourl;
        proof {
            assert(q * (4 * ll) == (4 * ll) * q) by (nonlinear_arith);
        }
        assert(total64 <= params.mem_kib);
        let total_blocks: u32 = total64 as u32;
        let lane_len: u32 = total_blocks / lanes;
        let segment_len: u32 = lane_len / 4;
        proof {
            // total = q * 4 * lanes, so lane_len = 4 * q and segment_len = q
            assert(q * (4 * ll) == ll * (4 * q)) by (nonlinear_arith);
            lemma_div_multiples_vanish(4 * q, ll);
            lemma_div_multiples_vanish(q, 4);
            assert(lane_len as int == 4 * q);
            assert(segment_len as int == q);
            assert((lanes as int) * (lane_len as int) == q * (4 * (lanes as int)))
                by (nonlinear_arith)
                requires
                    lane_len as int == 4 * q,
            ;
        }
        Self { lanes, lane_len, segment_len, total_blocks }
    }

    /// The flat position of block `index_in_lane` of `lane`.
    pub fn index(&self, lane: u32, index_in_lane: u32) -> (r: usize)
        requires
            layout_wf(*self),
            lane < self.lanes,
            index_in_lane < self.lane_len,
        ensures
            r == (lane as int) * (self.lane_len as int) + index_in_lane,
            r < self.total_blocks,
    {
        proof {
            assert((lane as int) * (self.lane_len as int) + (index_in_lane as int) < (self.lanes
                as int) * (self.lane_len as int)) by (nonlinear_arith)
                requires
                    lane < self.lanes,
                    index_in_lane < self.lane_len,
            ;
        }
        ((lane as u64) * (self.lane_len as u64) + (index_in_lane as u64)) as usize
    }
}


/// Whether addressing at `(pass, slice)` is data-independent: only the first
/// two slices of the first pass draw their pairs from address blocks.
pub open spec fn data_independent(pass: u32, slice: u32) -> bool {
    pass == 0 && slice < 2
}

/// The first position of a segment that the fill computes: the first two
/// blocks of each lane are pre-seeded at the very start.
pub open spec fn seg_start(pass: u32, slice: u32) -> int {
    if pass == 0 && slice == 0 {
        2
    } else {
        0
    }
}

/// The counter offset of a segment: in the very first segment the address
/// block starts out as the zero block and the first regeneration (counter
/// one) happens at position 128; every other data-independent segment
/// generates its address block up front with counter one.
pub open spec fn counter_base(pass: u32, slice: u32) -> int {
    if pass == 0 && slice == 0 {
        0
    } else {
        1
    }
}

/// The address block in effect at position `i` of a segment.
pub open spec fn addr_for(
    l: MemoryLayout,
    time: u32,
    pass: u32,
    slice: u32,
    lane: u32,
    i: int,
) -> Seq<u64> {
    if pass == 0 && slice == 0 && i < 128 {
        zero_block()
    } else {
        addr_block(
            pass,
            lane,
            slice,
            l.total_blocks,
            time,
            (i / 128 + counter_base(pass, slice)) as u32,
        )
    }
}

/// One position of the fill: draw the pseudorandom pair (from the address
/// block or from the previous block), resolve it to a reference block, mix
/// the previous and the reference block, and overwrite (first pass) or
/// XOR-accumulate (later passes) the current block.
pub open spec fn fill_step(
    mem: Seq<Seq<u64>>,
    l: MemoryLayout,
    time: u32,
    pass: u32,
    slice: u32,
    lane: u32,
    i: int,
) -> Seq<Seq<u64>> {
    let seg = l.segment_len as int;
    let lane_len = l.lane_len as int;
    let idx = (slice as int) * seg + i;
    let prev = if idx == 0 {
        lane_len - 1
    } else {
        idx - 1
    };
    let prev_flat = (lane as int) * lane_len + prev;
    let pair = if data_independent(pass, slice) {
        let ab = addr_for(l, time, pass, slice, lane, i);
        (word32(ab, 2 * (i % 128)), word32(ab, 2 * (i % 128) + 1))
    } else {
        (word32(mem[prev_flat], 0), word32(mem[prev_flat], 1))
    };
    let rl = phi_ref_lane(pass as int, slice as int, lane as int, pair.1 as int, l.lanes as int);
    let ri = phi_index(
        pass as int,
        slice as int,
        lane as int,
        idx,
        pair.0 as int,
        seg,
        lane_len,
        rl,
    );
    let c = compress_blocks(mem[prev_flat], mem[rl * lane_len + ri]);
    let cur = (lane as int) * lane_len + idx;
    mem.update(
        cur,
        if pass == 0 {
            c
        } else {
            xor_words(mem[cur], c)
        },
    )
}

/// The memory after the first `n` positions of one segment.
pub open spec fn fill_seg(
    mem: Seq<Seq<u64>>,
    l: MemoryLayout,
    time: u32,
    pass: u32,
    slice: u32,
    lane: u32,
    n: int,
) -> Seq<Seq<u64>>
    decreases n,
{
    if n <= seg_start(pass, slice) {
        mem
    } else {
        fill_step(fill_seg(mem, l, time, pass, slice, lane, n - 1), l, time, pass, slice, lane, n - 1)
    }
}

/// The memory after the segments of the first `k` lanes of one slice.
pub open spec fn fill_lanes(
    mem: Seq<Seq<u64>>,
    l: MemoryLayout,
    time: u32,
    pass: u32,
    slice: u32,
    k: int,
) -> Seq<Seq<u64>>
    decreases k,
{
    if k <= 0 {
        mem
    } else {
        fill_seg(
            fill_lanes(mem, l, time, pass, slice, k - 1),
            l,
            time,
            pass,
            slice,
            (k - 1) as u32,
            l.segment_len as int,
        )
    }
}

/// The memory after the first `k` slices of one pass.
pub open spec fn fill_slices(
    mem: Seq<Seq<u64>>,
    l: MemoryLayout,
    time: u32,
    pass: u32,
    k: int,
) -> Seq<Seq<u64>>
    decreases k,
{
    if k <= 0 {
        mem
    } else {
        fill_lanes(fill_slices(mem, l, time, pass, k - 1), l, time, pass, (k - 1) as u32, l.lanes as int)
    }
}

/// The memory after the first `k` passes.
pub open spec fn fill_passes(mem: Seq<Seq<u64>>, l: MemoryLayout, time: u32, k: int) -> Seq<
    Seq<u64>,
>
    decreases k,
{
    if k <= 0 {
        mem
    } else {
        fill_slices(fill_passes(mem, l, time, k - 1), l, time, (k - 1) as u32, 4)
    }
}

impl MemoryLayout {
    /// Fills the memory: for each pass, slice and lane in order, every
    /// position of the segment is computed from its predecessor and a
    /// pseudorandomly referenced earlier block.
    #[verifier::loop_isolation(false)]
    #[verifier::rlimit(100)]
    pub fn fill(&self, memory: &mut Vec<Block>, time: u32)
        requires
            layout_wf(*self),
            old(memory)@.len() == self.total_blocks,
            blocks_wf(old(memory)@),
        ensures
            final(memory)@.len() == old(memory)@.len(),
            blocks_wf(final(memory)@),
            deep(final(memory)@) == fill_passes(deep(old(memory)@), *self, time, time as int),
    {
        let ghost l = *self;
        let ghost d0 = deep(old(memory)@);
        let mut pass: u32 = 0;
        while pass < time
            invariant
                pass <= time,
                memory@.len() == l.total_blocks,
                blocks_wf(memory@),
                deep(memory@) == fill_passes(d0, l, time, pass as int),
            decreases time - pass,
        {
            let ghost dp = deep(memory@);
            let mut slice: u32 = 0;
            while slice < 4
                invariant
                    slice <= 4,
                    memory@.len() == l.total_blocks,
                    blocks_wf(memory@),
                    deep(memory@) == fill_slices(dp, l, time, pass, slice as int),
                decreases 4 - slice,
            {
                let ghost ds = deep(memory@);
                let mut lane: u32 = 0;
                while lane < self.lanes
                    invariant
                        lane <= l.lanes,
                        slice < 4,
                        memory@.len() == l.total_blocks,
                        blocks_wf(memory@),
                        deep(memory@) == fill_lanes(ds, l, time, pass, slice, lane as int),
                    decreases l.lanes - lane,
                {
                    let ghost dl = deep(memory@);
                    let data_ind = pass == 0 && slice < 2;
                    let mut addr = Block::zero();
                    let mut address_counter: u32 = 1;
                    let start_idx: u32 = if pass == 0 && slice == 0 {
                        2
                    } else {
                        0
                    };
                    let mut i: u32 = start_idx;
                    while i < self.segment_len
                        invariant
                            start_idx <= i <= l.segment_len,
                            lane < l.lanes,
                            slice < 4,
                            addr.wf(),
                            memory@.len() == l.total_blocks,
                            blocks_wf(memory@),
                            deep(memory@) == fill_seg(dl, l, time, pass, slice, lane, i as int),
                            data_ind ==> address_counter as int == i as int / 128 + (
                            if i as int % 128 == 0 {
                                0int
                            } else {
                                1int
                            }) + counter_base(pass, slice),
                            data_ind && i as int % 128 != 0 ==> addr@ == addr_for(
                                l,
                                time,
                                pass,
                                slice,
                                lane,
                                i as int,
                            ),
                        decreases l.segment_len - i,
                    {
                        let ghost dpre = deep(memory@);
                        proof {
                            assert((slice as int) * (l.segment_len as int) <= 3 * (l.segment_len
                                as int)) by (nonlinear_arith)
                                requires
                                    slice <= 3,
                                    l.segment_len >= 0,
                            ;
                        }
                        let index_in_lane = slice * self.segment_len + i;
                        let prev_idx = if index_in_lane == 0 {
                            self.lane_len - 1
                        } else {
                            index_in_lane - 1
                        };

                        let (j1, j2): (u32, u32) = if data_ind {
                            if i % 128 == 0 {
                                addr = Block::generate_address(
                                    pass,
                                    lane,
                                    slice,
                                    self.total_blocks,
                                    time,
                                    address_counter,
                                );
                                proof {
                                    assert(i as int / 128 <= i as int);
                                    assert(addr@ == addr_for(l, time, pass, slice, lane, i as int));
                                }
                                address_counter = address_counter + 1;
                            }
                            let pair_idx = (i % 128) as usize;
                            let a = addr.u32_at(2 * pair_idx);
                            let b = addr.u32_at(2 * pair_idx + 1);
                            proof {
                                assert(addr@ == addr_for(l, time, pass, slice, lane, i as int));
                                assert(2 * pair_idx as int == 2 * (i as int % 128));
                            }
                            (a, b)
                        } else {
                            let p = self.index(lane, prev_idx);
                            let a = memory[p].u32_at(0);
                            let b = memory[p].u32_at(1);
                            (a, b)
                        };

                        let rr = compute_reference_position(
                            pass,
                            slice,
                            lane,
                            index_in_lane,
                            self,
                            j1,
                            j2,
                        );
                        let ref_lane = rr.0;
                        let ref_idx = rr.1;

                        let cur = self.index(lane, index_in_lane);
                        let prev = self.index(lane, prev_idx);
                        let reference = self.index(ref_lane, ref_idx);

                        let compressed = Block::compress(&memory[prev], &memory[reference]);
                        let newb = if pass == 0 {
                            compressed
                        } else {
                            memory[cur].xor_with(&compressed)
                        };
                        memory[cur] = newb;

                        proof {
                            assert(deep(memory@) =~= dpre.update(cur as int, memory@[cur as int]@));
                            assert(deep(memory@) == fill_step(dpre, l, time, pass, slice, lane, i as int));
                            assert(fill_seg(dl, l, time, pass, slice, lane, i as int + 1)
                                == fill_step(dpre, l, time, pass, slice, lane, i as int));
                            // counter and address-block bookkeeping for the next position
                            vstd::arithmetic::div_mod::lemma_fundamental_div_mod(i as int, 128);
                            if i as int % 128 == 127 {
                                vstd::arithmetic::div_mod::lemma_fundamental_div_mod_converse(
                                    i as int + 1,
                                    128,
                                    i as int / 128 + 1,
                                    0,
                                );
                            } else {
                                vstd::arithmetic::div_mod::lemma_fundamental_div_mod_converse(
                                    i as int + 1,
                                    128,
                                    i as int / 128,
                                    i as int % 128 + 1,
                                );
                            }
                        }
                        i = i + 1;
                    }
                    proof {
                        assert(l.segment_len >= 2);
                        assert(i == l.segment_len);
                        assert(fill_lanes(ds, l, time, pass, slice, lane as int + 1) == fill_seg(
                            fill_lanes(ds, l, time, pass, slice, lane as int),
                            l,
                            time,
                            pass,
                            slice,
                            lane,
                            l.segment_len as int,
                        ));
                    }
                    lane = lane + 1;
                }
                proof {
                    assert(fill_slices(dp, l, time, pass, slice as int + 1) == fill_lanes(
                        fill_slices(dp, l, time, pass, slice as int),
                        l,
                        time,
                        pass,
                        slice,
                        l.lanes as int,
                    ));
                }
                slice = slice + 1;
            }
            proof {
                assert(fill_passes(d0, l, time, pass as int + 1) == fill_slices(
                    fill_passes(d0, l, time, pass as int),
                    l,
                    time,
                    pass,
                    4,
                ));
            }
            pass = pass + 1;
        }
    }
}

} // verus!
