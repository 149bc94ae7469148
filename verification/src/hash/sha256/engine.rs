use vstd::prelude::*;

use vstd::arithmetic::div_mod::{lemma_fundamental_div_mod, lemma_fundamental_div_mod_converse};

use crate::hash::sha256::computations::{all_rounds, expand_w, rounds256, w_spec, wadd32};
use crate::primitives::u256::U256;

verus! {

/// The 32-bit word stored big-endian at byte offset `i` of `s`.
pub open spec fn be32_at(s: Seq<u8>, i: int) -> u32 {
    ((s[i] as u32) << 24) | ((s[i + 1] as u32) << 16) | ((s[i + 2] as u32) << 8) | (s[i + 3]
        as u32)
}

/// The 16 big-endian words of one 64-byte block.
pub open spec fn words32_be(s: Seq<u8>) -> Seq<u32> {
    Seq::new(16, |i: int| be32_at(s, 4 * i))
}

/// The full 64-word message schedule of one block.
pub open spec fn sched(block: Seq<u8>) -> Seq<u32> {
    Seq::new(64, |i: int| w_spec(words32_be(block), i))
}

/// The SHA-256 compression function: 64 rounds, then the feed-forward
/// addition of the incoming state.
pub open spec fn compress256(st: Seq<u32>, block: Seq<u8>) -> Seq<u32> {
    let r = rounds256(st, sched(block), 64);
    Seq::new(8, |i: int| wadd32(st[i], r[i]))
}

/// The SHA-256 initial state.
pub open spec fn h256_init() -> Seq<u32> {
    seq![
        0x6a09e667u32,
        0xbb67ae85u32,
        0x3c6ef372u32,
        0xa54ff53au32,
        0x510e527fu32,
        0x9b05688cu32,
        0x1f83d9abu32,
        0x5be0cd19u32,
    ]
}

/// The state after compressing the first `n` 64-byte blocks of `msg`.
pub open spec fn sha_blocks(st: Seq<u32>, msg: Seq<u8>, n: int) -> Seq<u32>
    decreases n,
{
    if n <= 0 {
        st
    } else {
        compress256(sha_blocks(st, msg, n - 1), msg.subrange(64 * (n - 1), 64 * n))
    }
}

/// `n` zero bytes.
pub open spec fn zeros(n: int) -> Seq<u8> {
    Seq::new(n as nat, |i: int| 0u8)
}

/// The eight big-endian bytes of `x`.
pub open spec fn be8_bytes(x: u64) -> Seq<u8> {
    Seq::new(8, |k: int| (x >> ((8 * (7 - k)) as u64)) as u8)
}

/// The final SHA-256 state of a whole message: all full blocks, then the
/// padded remainder (a set bit, zeros, and the bit length in the last eight
/// bytes, spilling into an extra block when fewer than nine bytes are free).
pub open spec fn sha256_state(msg: Seq<u8>) -> Seq<u32> {
    let nb = msg.len() as int / 64;
    let st = sha_blocks(h256_init(), msg, nb);
    let rem = msg.len() as int % 64;
    let tail = msg.subrange(64 * nb, msg.len() as int);
    let bitlen = (msg.len() as u64) << 3u64;
    if rem > 55 {
        let st2 = compress256(st, tail + seq![0x80u8] + zeros(63 - rem));
        compress256(st2, zeros(56) + be8_bytes(bitlen))
    } else {
        compress256(st, tail + seq![0x80u8] + zeros(55 - rem) + be8_bytes(bitlen))
    }
}

/// The 32 big-endian bytes of the final state.
pub open spec fn sha256_bytes(msg: Seq<u8>) -> Seq<u8> {
    Seq::new(32, |j: int| (sha256_state(msg)[j / 4] >> ((8 * (3 - (j % 4))) as u32)) as u8)
}

/// Compresses one 64-byte block into the state.
#[verifier::loop_isolation(false)]
pub fn compress(block: &Vec<u8>, state: &mut Vec<u32>)
    requires
        block@.len() == 64,
        old(state)@.len() == 8,
    ensures
        final(state)@ == compress256(old(state)@, block@),
        final(state)@.len() == 8,
{
    let mut w: Vec<u32> = Vec::new();
    let mut i: usize = 0;
    while i < 16
        invariant
            i <= 16,
            w@.len() == i,
            forall|k: int| 0 <= k < i ==> w@[k] == be32_at(block@, 4 * k),
        decreases 16 - i,
    {
        let b0 = block[4 * i];
        let b1 = block[4 * i + 1];
        let b2 = block[4 * i + 2];
        let b3 = block[4 * i + 3];
        let word = ((b0 as u32) << 24) | ((b1 as u32) << 16) | ((b2 as u32) << 8) | (b3 as u32);
        w.push(word);
        i += 1;
    }
    assert(w@ =~= words32_be(block@));
    let ghost m = w@;

    let mut i: usize = 16;
    while i < 64
        invariant
            16 <= i <= 64,
            w@.len() == i,
            w@.subrange(0, 16) == m,
        decreases 64 - i,
    {
        w.push(0u32);
        proof {
            assert(w@.subrange(0, 16) =~= m);
        }
        i += 1;
    }
    expand_w(&mut w);
    proof {
        assert(w@ =~= sched(block@));
    }

    let rotated = all_rounds(state, &w);

    let ghost st0 = state@;
    let mut i: usize = 0;
    while i < 8
        invariant
            i <= 8,
            state@.len() == 8,
            rotated@.len() == 8,
            forall|k: int| 0 <= k < i ==> state@[k] == wadd32(st0[k], rotated@[k]),
            forall|k: int| i <= k < 8 ==> state@[k] == st0[k],
        decreases 8 - i,
    {
        let v = state[i].wrapping_add(rotated[i]);
        state[i] = v;
        i += 1;
    }
    assert(state@ =~= compress256(st0, block@));
}

/// Hashes an arbitrary-length message: every full block is compressed, then
/// the padded remainder, and the state is serialized big-endian.
#[verifier::loop_isolation(false)]
#[verifier::rlimit(100)]
pub fn sha256(input: &[u8]) -> (out: U256)
    ensures
        out.0@ == sha256_bytes(input@),
{
    let mut state: Vec<u32> = Vec::new();
    state.push(0x6a09e667u32);
    state.push(0xbb67ae85u32);
    state.push(0x3c6ef372u32);
    state.push(0xa54ff53au32);
    state.push(0x510e527fu32);
    state.push(0x9b05688cu32);
    state.push(0x1f83d9abu32);
    state.push(0x5be0cd19u32);
    assert(state@ =~= h256_init());

    let len = input.len();
    let nb = len / 64;
    proof {
        lemma_fundamental_div_mod(len as int, 64);
    }

    let mut done: usize = 0;
    while done < nb
        invariant
            done <= nb,
            state@.len() == 8,
            state@ == sha_blocks(h256_init(), input@, done as int),
        decreases nb - done,
    {
        proof {
            assert((done as int + 1) * 64 <= (nb as int) * 64 <= len) by (nonlinear_arith)
                requires
                    done < nb,
                    nb == len as int / 64,
                    len as int == 64 * (len as int / 64) + (len as int % 64),
                    0 <= len as int % 64,
            ;
        }
        let base = done * 64;
        let mut block: Vec<u8> = Vec::new();
        let mut j: usize = 0;
        while j < 64
            invariant
                j <= 64,
                base == done * 64,
                base + 64 <= len,
                block@ == input@.subrange(base as int, base as int + j),
            decreases 64 - j,
        {
            let b = input[base + j];
            block.push(b);
            proof {
                assert(input@.subrange(base as int, base as int + j + 1) =~= input@.subrange(
                    base as int,
                    base as int + j,
                ).push(b));
            }
            j += 1;
        }
        compress(&block, &mut state);
        done += 1;
    }

    let base = nb * 64;
    let rem = len - base;
    assert(rem == len as int % 64);

    let mut block: Vec<u8> = Vec::new();
    let mut j: usize = 0;
    while j < rem
        invariant
            j <= rem,
            base + rem == len,
            block@ == input@.subrange(base as int, base as int + j),
        decreases rem - j,
    {
        let b = input[base + j];
        block.push(b);
        proof {
            assert(input@.subrange(base as int, base as int + j + 1) =~= input@.subrange(
                base as int,
                base as int + j,
            ).push(b));
        }
        j += 1;
    }
    let ghost tail = input@.subrange(base as int, len as int);
    block.push(0x80u8);

    let bitlen = (len as u64) << 3;

    if rem > 55 {
        let ghost before = block@;
        let mut j: usize = 0;
        while j < 63 - rem
            invariant
                rem > 55,
                j <= 63 - rem,
                block@ == before + zeros(j as int),
            decreases 63 - rem - j,
        {
            block.push(0u8);
            proof {
                assert(before + zeros(j as int + 1) =~= (before + zeros(j as int)).push(0u8));
            }
            j += 1;
        }
        assert(block@ =~= tail + seq![0x80u8] + zeros(63 - rem));
        compress(&block, &mut state);

        let mut last: Vec<u8> = Vec::new();
        let mut j: usize = 0;
        while j < 56
            invariant
                j <= 56,
                last@ == zeros(j as int),
            decreases 56 - j,
        {
            last.push(0u8);
            proof {
                assert(zeros(j as int + 1) =~= zeros(j as int).push(0u8));
            }
            j += 1;
        }
        last.push((bitlen >> 56) as u8);
        last.push((bitlen >> 48) as u8);
        last.push((bitlen >> 40) as u8);
        last.push((bitlen >> 32) as u8);
        last.push((bitlen >> 24) as u8);
        last.push((bitlen >> 16) as u8);
        last.push((bitlen >> 8) as u8);
        last.push((bitlen >> 0) as u8);
        assert(last@ =~= zeros(56) + be8_bytes(bitlen));
        compress(&last, &mut state);
    } else {
        let ghost before = block@;
        let mut j: usize = 0;
        while j < 55 - rem
            invariant
                rem <= 55,
                j <= 55 - rem,
                block@ == before + zeros(j as int),
            decreases 55 - rem - j,
        {
            block.push(0u8);
            proof {
                assert(before + zeros(j as int + 1) =~= (before + zeros(j as int)).push(0u8));
            }
            j += 1;
        }
        block.push((bitlen >> 56) as u8);
        block.push((bitlen >> 48) as u8);
        block.push((bitlen >> 40) as u8);
        block.push((bitlen >> 32) as u8);
        block.push((bitlen >> 24) as u8);
        block.push((bitlen >> 16) as u8);
        block.push((bitlen >> 8) as u8);
        block.push((bitlen >> 0) as u8);
        assert(block@ =~= tail + seq![0x80u8] + zeros(55 - rem) + be8_bytes(bitlen));
        compress(&block, &mut state);
    }
    assert(state@ == sha256_state(input@));

    let s0 = state[0];
    let s1 = state[1];
    let s2 = state[2];
    let s3 = state[3];
    let s4 = state[4];
    let s5 = state[5];
    let s6 = state[6];
    let s7 = state[7];
    let bytes: [u8; 32] = [
        (s0 >> 24) as u8,
        (s0 >> 16) as u8,
        (s0 >> 8) as u8,
        (s0 >> 0) as u8,
        (s1 >> 24) as u8,
        (s1 >> 16) as u8,
        (s1 >> 8) as u8,
        (s1 >> 0) as u8,
        (s2 >> 24) as u8,
        (s2 >> 16) as u8,
        (s2 >> 8) as u8,
        (s2 >> 0) as u8,
        (s3 >> 24) as u8,
        (s3 >> 16) as u8,
        (s3 >> 8) as u8,
        (s3 >> 0) as u8,
        (s4 >> 24) as u8,
        (s4 >> 16) as u8,
        (s4 >> 8) as u8,
        (s4 >> 0) as u8,
        (s5 >> 24) as u8,
        (s5 >> 16) as u8,
        (s5 >> 8) as u8,
        (s5 >> 0) as u8,
        (s6 >> 24) as u8,
        (s6 >> 16) as u8,
        (s6 >> 8) as u8,
        (s6 >> 0) as u8,
        (s7 >> 24) as u8,
        (s7 >> 16) as u8,
        (s7 >> 8) as u8,
        (s7 >> 0) as u8,
    ];
    let out = U256(bytes);
    assert(out.0@ =~= sha256_bytes(input@));
    out
}

} // verus!
