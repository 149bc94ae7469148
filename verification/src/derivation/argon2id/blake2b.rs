use vstd::prelude::*;

use vstd::arithmetic::div_mod::{lemma_fundamental_div_mod, lemma_fundamental_div_mod_converse};

use crate::hash::blake2b::consts::blake2b_digest;
use crate::hash::blake2b::engine::blake2b;

verus! {

/// Byte `k` (little-endian) of the 32-bit word `x`.
pub open spec fn le_byte32(x: u32, k: int) -> u8 {
    (x >> ((8 * k) as u32)) as u8
}

/// The four little-endian bytes of `x`.
pub open spec fn le4(x: u32) -> Seq<u8> {
    Seq::new(4, |k: int| le_byte32(x, k))
}

/// The hash input of the extendable-output construction: the requested
/// length as four little-endian bytes, then the message itself.
pub open spec fn xof_prefixed(out_len: int, input: Seq<u8>) -> Seq<u8> {
    le4(out_len as u32) + input
}

/// The `k`-th 64-byte state of the long-output chain: state zero hashes the
/// prefixed input, and every later state hashes its predecessor.
pub open spec fn xof_chain(out_len: int, input: Seq<u8>, k: int) -> Seq<u8>
    decreases k,
{
    if k <= 0 {
        blake2b_digest(64, xof_prefixed(out_len, input))
    } else {
        blake2b_digest(64, xof_chain(out_len, input, k - 1))
    }
}

/// The bytes emitted by the first `k` chain states: 32 bytes from each.
pub open spec fn xof_emitted(out_len: int, input: Seq<u8>, k: int) -> Seq<u8>
    decreases k,
{
    if k <= 0 {
        Seq::<u8>::empty()
    } else {
        xof_emitted(out_len, input, k - 1) + xof_chain(out_len, input, k - 1).subrange(0, 32)
    }
}

/// The extendable-output hash of `input` with output length `out_len`
/// (at least 4): up to 64 bytes it is a truncated fixed-length digest;
/// beyond that, `ceil(out_len / 32) - 2` states each emit 32 bytes and the
/// final state is hashed once more to the remaining length.
pub open spec fn xof(out_len: int, input: Seq<u8>) -> Seq<u8> {
    if out_len <= 64 {
        blake2b_digest(out_len, xof_prefixed(out_len, input)).subrange(0, out_len)
    } else {
        let r = (out_len - 1) / 32 - 1;
        let last_len = out_len - 32 * r;
        xof_emitted(out_len, input, r) + blake2b_digest(
            last_len,
            xof_chain(out_len, input, r),
        ).subrange(0, last_len)
    }
}

/// Each chain state emits exactly 32 bytes.
pub proof fn lemma_xof_emitted_len(out_len: int, input: Seq<u8>, k: int)
    requires
        k >= 0,
    ensures
        xof_emitted(out_len, input, k).len() == 32 * k,
    decreases k,
{
    if k > 0 {
        lemma_xof_emitted_len(out_len, input, k - 1);
    }
}

/// For lengths up to 64 the extendable-output hash is the first `out_len`
/// bytes of the fixed-length digest of the length-prefixed input.
pub proof fn lemma_xof_short(out_len: int, input: Seq<u8>)
    requires
        4 <= out_len <= 64,
    ensures
        xof(out_len, input) == blake2b_digest(out_len, xof_prefixed(out_len, input)).subrange(
            0,
            out_len,
        ),
{
}

/// For lengths beyond 64 the first 32 output bytes are the first 32 bytes of
/// the fixed-length digest of the length-prefixed input.
pub proof fn lemma_xof_long_prefix(out_len: int, input: Seq<u8>)
    requires
        64 < out_len,
    ensures
        xof(out_len, input).subrange(0, 32) == blake2b_digest(
            64,
            xof_prefixed(out_len, input),
        ).subrange(0, 32),
{
    let r = (out_len - 1) / 32 - 1;
    lemma_fundamental_div_mod(out_len - 1, 32);
    lemma_xof_emitted_prefix(out_len, input, r);
    lemma_xof_emitted_len(out_len, input, r);
    assert(xof(out_len, input).subrange(0, 32) =~= xof_emitted(out_len, input, r).subrange(0, 32));
}

/// Every emitted stream with at least one state starts with the first 32
/// bytes of state zero.
proof fn lemma_xof_emitted_prefix(out_len: int, input: Seq<u8>, k: int)
    requires
        k >= 1,
    ensures
        xof_emitted(out_len, input, k).subrange(0, 32) == xof_chain(out_len, input, 0).subrange(
            0,
            32,
        ),
    decreases k,
{
    lemma_xof_emitted_len(out_len, input, k);
    if k == 1 {
        assert(xof_emitted(out_len, input, 1) =~= xof_chain(out_len, input, 0).subrange(0, 32));
    } else {
        lemma_xof_emitted_prefix(out_len, input, k - 1);
        lemma_xof_emitted_len(out_len, input, k - 1);
        assert(xof_emitted(out_len, input, k).subrange(0, 32) =~= xof_emitted(
            out_len,
            input,
            k - 1,
        ).subrange(0, 32));
    }
}

/// Appends the four little-endian bytes of `x` to `out`.
pub fn push_le4(out: &mut Vec<u8>, x: u32)
    ensures
        final(out)@ == old(out)@ + le4(x),
{
    out.push((x >> 0) as u8);
    out.push((x >> 8) as u8);
    out.push((x >> 16) as u8);
    out.push((x >> 24) as u8);
    assert(out@ =~= old(out)@ + le4(x));
}

/// The 64-byte BLAKE2b digest of `input`.
pub fn blake2b_512(input: &[u8]) -> (out: Vec<u8>)
    ensures
        out@ == blake2b_digest(64, input@),
        out@.len() == 64,
{
    blake2b(64, input)
}

/// The extendable-output hash: exactly `out_len` bytes derived from `input`
/// through the chain of fixed-length digests described by `xof`.
#[verifier::loop_isolation(false)]
pub fn blake2b_long(out_len: usize, input: &[u8]) -> (out: Vec<u8>)
    requires
        4 <= out_len <= u32::MAX,
        input@.len() + 4 <= usize::MAX,
    ensures
        out@ == xof(out_len as int, input@),
        out@.len() == out_len,
{
    let ghost ol = out_len as int;
    let mut x: Vec<u8> = Vec::new();
    push_le4(&mut x, out_len as u32);
    let mut pos: usize = 0;
    while pos < input.len()
        invariant
            pos <= input@.len(),
            x@ == le4(out_len as u32) + input@.subrange(0, pos as int),
        decreases input@.len() - pos,
    {
        let b = input[pos];
        x.push(b);
        proof {
            assert(le4(out_len as u32) + input@.subrange(0, pos + 1) =~= (le4(out_len as u32)
                + input@.subrange(0, pos as int)).push(b));
        }
        pos += 1;
    }
    assert(x@ =~= xof_prefixed(ol, input@));

    if out_len <= 64 {
        let h = blake2b(out_len, x.as_slice());
        let mut out: Vec<u8> = Vec::new();
        let mut j: usize = 0;
        while j < out_len
            invariant
                j <= out_len,
                out@ == h@.subrange(0, j as int),
            decreases out_len - j,
        {
            let b = h[j];
            out.push(b);
            proof {
                assert(h@.subrange(0, j + 1) =~= h@.subrange(0, j as int).push(b));
            }
            j += 1;
        }
        return out;
    }

    let r: usize = (out_len - 1) / 32 - 1;
    proof {
        lemma_fundamental_div_mod(ol - 1, 32);
    }
    let mut vprev = blake2b_512(x.as_slice());
    let mut out: Vec<u8> = Vec::new();
    let mut k: usize = 0;
    while k < r
        invariant
            k <= r,
            out@.len() == 32 * k,
            out@ == xof_emitted(ol, input@, k as int),
            vprev@ == xof_chain(ol, input@, k as int),
            vprev@.len() == 64,
        decreases r - k,
    {
        let mut j: usize = 0;
        let ghost out0 = out@;
        while j < 32
            invariant
                j <= 32,
                vprev@.len() == 64,
                out@ == out0 + vprev@.subrange(0, j as int),
            decreases 32 - j,
        {
            let b = vprev[j];
            out.push(b);
            proof {
                assert(out0 + vprev@.subrange(0, j + 1) =~= (out0 + vprev@.subrange(
                    0,
                    j as int,
                )).push(b));
            }
            j += 1;
        }
        vprev = blake2b_512(vprev.as_slice());
        k += 1;
    }

    let last_len: usize = out_len - 32 * r;
    assert(33 <= last_len <= 64);
    let vlast = blake2b(last_len, vprev.as_slice());
    let ghost out0 = out@;
    let mut j: usize = 0;
    while j < last_len
        invariant
            j <= last_len,
            out@ == out0 + vlast@.subrange(0, j as int),
        decreases last_len - j,
    {
        let b = vlast[j];
        out.push(b);
        proof {
            assert(out0 + vlast@.subrange(0, j + 1) =~= (out0 + vlast@.subrange(0, j as int)).push(
                b,
            ));
        }
        j += 1;
    }
    proof {
        lemma_xof_emitted_len(ol, input@, r as int);
    }
    out
}

} // verus!
