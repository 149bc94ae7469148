use vstd::prelude::*;

use vstd::arithmetic::div_mod::{
    lemma_div_is_ordered, lemma_div_multiples_vanish, lemma_fundamental_div_mod,
};

use crate::derivation::argon2id::blake2b::le4;
use crate::derivation::argon2id::block::{block_words, pad1024, zero_block, Block};
use crate::derivation::argon2id::boundary::{final_tag, finalize, h0_spec, init};
use crate::derivation::argon2id::memory::{
    blocks_wf, deep, fill_passes, layout_wf, MemoryLayout,
};
use crate::derivation::argon2id::params::{
    params_error, params_valid, Argon2ParamError, Argon2Params,
};
use crate::hash::blake2b::consts::blake2b_digest;

verus! {

/// Why a derivation was refused: the cost parameters are invalid, or the
/// salt is shorter than eight bytes.
#[derive(Clone, Copy, Debug, PartialEq, Eq, Structural)]
pub enum Argon2Error {
    InvalidParams(Argon2ParamError),
    InvalidSalt,
}

/// The normalized memory size: `mem_kib` rounded down to a multiple of four
/// blocks (one per synchronization slice) per lane.
pub open spec fn m_prime_of(p: Argon2Params) -> int {
    ((p.mem_kib as int) / (4 * (p.lanes as int))) * (4 * (p.lanes as int))
}

/// The geometry derived from the normalized memory size.
pub open spec fn spec_layout(p: Argon2Params) -> MemoryLayout {
    let m = m_prime_of(p);
    let lanes = p.lanes as int;
    MemoryLayout {
        lanes: p.lanes,
        lane_len: (m / lanes) as u32,
        segment_len: ((m / lanes) / 4) as u32,
        total_blocks: m as u32,
    }
}

/// A memory of `n` zero blocks.
pub open spec fn zero_mem(n: int) -> Seq<Seq<u64>> {
    Seq::new(n as nat, |i: int| zero_block())
}

/// The first block of lane `i`: the padded digest of the seed digest and the
/// lane index. Lane block one is deliberately left as the zero block.
pub open spec fn seed_block(h0: Seq<u8>, i: int) -> Seq<u64> {
    block_words(pad1024(blake2b_digest(64, h0 + le4(i as u32))))
}

/// The memory after seeding block zero of the first `k` lanes.
pub open spec fn seeded(mem: Seq<Seq<u64>>, h0: Seq<u8>, lane_len: int, k: int) -> Seq<Seq<u64>>
    decreases k,
{
    if k <= 0 {
        mem
    } else {
        seeded(mem, h0, lane_len, k - 1).update((k - 1) * lane_len, seed_block(h0, k - 1))
    }
}

/// The tag that the derivation produces on valid inputs: zeroed memory is
/// seeded from the initial digest, filled for `time` passes, and reduced to
/// `tag_len` bytes.
pub open spec fn argon2id_spec(pw: Seq<u8>, salt: Seq<u8>, p: Argon2Params) -> Seq<u8> {
    let l = spec_layout(p);
    let h0 = h0_spec(pw, salt, p.tag_len as u32, m_prime_of(p) as u32, p.time);
    let m0 = seeded(zero_mem(l.total_blocks as int), h0, l.lane_len as int, p.lanes as int);
    let filled = fill_passes(m0, l, p.time, p.time as int);
    final_tag(filled, p.tag_len as int)
}

/// Rounding to a multiple of four blocks per lane is a fixed point: the
/// normalized memory size normalizes to itself, so a layout derived from an
/// already-normalized size is identical.
pub proof fn lemma_normalization_fixed_point(p: Argon2Params, p2: Argon2Params)
    requires
        p.lanes >= 1,
        p2.lanes == p.lanes,
        p2.mem_kib as int == m_prime_of(p),
    ensures
        m_prime_of(p2) == m_prime_of(p),
        spec_layout(p2) == spec_layout(p),
{
    let ll = p.lanes as int;
    let q = (p.mem_kib as int) / (4 * ll);
    assert(q * (4 * ll) == (4 * ll) * q) by (nonlinear_arith);
    lemma_div_multiples_vanish(q, 4 * ll);
}

/// Any two derivations on the same password, salt and parameters produce the
/// same tag: the result is a function of the inputs alone.
pub proof fn lemma_argon2id_deterministic(
    pw: Seq<u8>,
    salt: Seq<u8>,
    p: Argon2Params,
    t1: Seq<u8>,
    t2: Seq<u8>,
)
    requires
        t1 == argon2id_spec(pw, salt, p),
        t2 == argon2id_spec(pw, salt, p),
    ensures
        t1 == t2,
{
}

/// On valid parameters with a tag length of at most 64 bytes, the derived
/// tag has exactly the requested length.
pub proof fn lemma_argon2id_tag_len(pw: Seq<u8>, salt: Seq<u8>, p: Argon2Params)
    requires
        params_valid(p),
        p.tag_len <= 64,
    ensures
        argon2id_spec(pw, salt, p).len() == p.tag_len,
{
}

/// Overwrites every block of the memory with zeros, so that the backing
/// storage holds no derived material when it is released.
#[verifier::loop_isolation(false)]
pub fn wipe(memory: &mut Vec<Block>)
    requires
        blocks_wf(old(memory)@),
    ensures
        final(memory)@.len() == old(memory)@.len(),
        forall|k: int| 0 <= k < final(memory)@.len() ==> final(memory)@[k]@ == zero_block(),
{
    let mut k: usize = 0;
    while k < memory.len()
        invariant
            k <= memory@.len(),
            memory@.len() == old(memory)@.len(),
            blocks_wf(memory@),
            forall|j: int| 0 <= j < k ==> memory@[j]@ == zero_block(),
        decreases memory@.len() - k,
    {
        memory[k].zeroize();
        k += 1;
    }
}

/// Derives `tag_len` bytes of key material from `password` and `salt` under
/// the cost parameters `params`.
///
/// Invalid parameters are reported before anything else, a salt shorter than
/// eight bytes right after; on success the tag equals `argon2id_spec`. The
/// memory array is overwritten with zeros before it is released. The tag is
/// cut from a single 64-byte digest, so lengths in `(64, 1024]` — although
/// validation accepts them — cannot be produced and are excluded up front.
#[verifier::loop_isolation(false)]
#[verifier::rlimit(100)]
pub fn argon2id(password: &[u8], salt: &[u8], params: &Argon2Params) -> (r: Result<
    Vec<u8>,
    Argon2Error,
>)
    requires
        !(64 < params.tag_len <= 1024),
        password@.len() <= u32::MAX,
        salt@.len() <= u32::MAX,
        password@.len() + salt@.len() + 48 <= usize::MAX,
    ensures
        r is Ok <==> params_valid(*params) && salt@.len() >= 8,
        r is Ok ==> r->Ok_0@ == argon2id_spec(password@, salt@, *params) && r->Ok_0@.len()
            == params.tag_len,
        !params_valid(*params) ==> r == Result::<Vec<u8>, Argon2Error>::Err(
            Argon2Error::InvalidParams(params_error(*params)),
        ),
        params_valid(*params) && salt@.len() < 8 ==> r == Result::<Vec<u8>, Argon2Error>::Err(
            Argon2Error::InvalidSalt,
        ),
{
    match params.validate() {
        Err(e) => {
            return Err(Argon2Error::InvalidParams(e));
        },
        Ok(()) => {},
    }
    if salt.len() < 8 {
        return Err(Argon2Error::InvalidSalt);
    }

    let lanes = params.lanes;
    let ghost ll = lanes as int;
    let m_min: u32 = 8 * lanes;
    let m_rounded: u32 = if params.mem_kib > m_min {
        params.mem_kib
    } else {
        m_min
    };
    assert(m_rounded == params.mem_kib);
    let sync_lanes: u32 = 4 * lanes;
    let q: u32 = m_rounded / sync_lanes;
    proof {
        lemma_fundamental_div_mod(m_rounded as int, 4 * ll);
        assert((4 * ll) * (q as int) <= m_rounded);
        assert((q as int) * (4 * ll) == (4 * ll) * (q as int)) by (nonlinear_arith);
    }
    let m_prime: u32 = q * sync_lanes;
    assert(m_prime as int == m_prime_of(*params));

    let mut params2 = params.clone();
    params2.mem_kib = m_prime;

    proof {
        // the normalized size still grants eight blocks per lane
        assert(8 * ll == 2 * (4 * ll));
        lemma_div_is_ordered(2 * (4 * ll), m_rounded as int, 4 * ll);
        lemma_div_multiples_vanish(2, 4 * ll);
        assert(q >= 2);
        assert((q as int) * (4 * ll) >= 2 * (4 * ll)) by (nonlinear_arith)
            requires
                q >= 2,
                ll >= 1,
        ;
    }
    let layout = MemoryLayout::new(&params2);
    proof {
        lemma_normalization_fixed_point(*params, params2);
        assert(layout == spec_layout(*params));
    }

    let total = layout.total_blocks;
    let mut memory: Vec<Block> = Vec::new();
    let mut k: usize = 0;
    while k < total as usize
        invariant
            k <= total,
            memory@.len() == k,
            blocks_wf(memory@),
            forall|j: int| 0 <= j < k ==> memory@[j]@ == zero_block(),
        decreases total - k,
    {
        let z = Block::zero();
        memory.push(z);
        k += 1;
    }
    assert(deep(memory@) =~= zero_mem(total as int));

    let h0 = init(password, salt, params, m_prime);
    let ghost h0v = h0@;
    let ghost mem0 = deep(memory@);

    let mut i: u32 = 0;
    while i < lanes
        invariant
            i <= lanes,
            memory@.len() == layout.total_blocks,
            blocks_wf(memory@),
            h0@.len() == 64,
            deep(memory@) == seeded(mem0, h0v, layout.lane_len as int, i as int),
        decreases lanes - i,
    {
        let ghost dpre = deep(memory@);
        let mut input: Vec<u8> = Vec::new();
        let mut j: usize = 0;
        while j < 64
            invariant
                j <= 64,
                h0@.len() == 64,
                input@ == h0@.subrange(0, j as int),
            decreases 64 - j,
        {
            let b = h0[j];
            input.push(b);
            proof {
                assert(h0@.subrange(0, j + 1) =~= h0@.subrange(0, j as int).push(b));
            }
            j += 1;
        }
        assert(input@ =~= h0v);
        crate::derivation::argon2id::blake2b::push_le4(&mut input, i);

        let hash = crate::derivation::argon2id::blake2b::blake2b_512(input.as_slice());
        let mut padded = hash;
        let ghost digest = padded@;
        let mut j: usize = 0;
        while j < 960
            invariant
                j <= 960,
                padded@ == digest + Seq::new(j as nat, |t: int| 0u8),
            decreases 960 - j,
        {
            padded.push(0u8);
            proof {
                assert(digest + Seq::new((j + 1) as nat, |t: int| 0u8) =~= (digest + Seq::new(
                    j as nat,
                    |t: int| 0u8,
                )).push(0u8));
            }
            j += 1;
        }
        assert(padded@ =~= pad1024(digest));

        let blk = Block::from_bytes(&padded);
        let pos = layout.index(i, 0);
        memory[pos] = blk;
        proof {
            assert(blk@ == seed_block(h0v, i as int));
            assert(deep(memory@) =~= dpre.update((i as int) * (layout.lane_len as int), blk@));
        }
        i += 1;
    }

    layout.fill(&mut memory, params2.time);

    let tag = finalize(&memory, params.tag_len);

    wipe(&mut memory);

    Ok(tag)
}


} // verus!
