use vstd::prelude::*;

use crate::derivation::argon2id::blake2b::{blake2b_512, le4, push_le4};
use crate::derivation::argon2id::block::{block_bytes, xor_words, zero_block, Block};
use crate::derivation::argon2id::memory::{blocks_wf, deep};
use crate::derivation::argon2id::params::Argon2Params;
use crate::hash::blake2b::consts::blake2b_digest;

verus! {

/// The seed digest input: length-prefixed password and salt, then the five
/// parameter fields (tag length, normalized memory, passes, the algorithm
/// identifier and the version identifier), with the five-field group
/// repeated twice in a row.
pub open spec fn seed_input(
    pw: Seq<u8>,
    salt: Seq<u8>,
    tag_len: u32,
    m_prime: u32,
    time: u32,
) -> Seq<u8> {
    let fields = le4(tag_len) + le4(m_prime) + le4(time) + le4(0x13) + le4(2);
    le4(pw.len() as u32) + pw + le4(salt.len() as u32) + salt + fields + fields
}

/// The 64-byte seed digest derived from the inputs and cost parameters.
pub open spec fn h0_spec(
    pw: Seq<u8>,
    salt: Seq<u8>,
    tag_len: u32,
    m_prime: u32,
    time: u32,
) -> Seq<u8> {
    blake2b_digest(64, seed_input(pw, salt, tag_len, m_prime, time))
}

/// The XOR of the first `n` blocks of the memory.
pub open spec fn xor_fold(mem: Seq<Seq<u64>>, n: int) -> Seq<u64>
    decreases n,
{
    if n <= 0 {
        zero_block()
    } else {
        xor_words(xor_fold(mem, n - 1), mem[n - 1])
    }
}

/// The output tag: the first `tag_len` bytes of the digest of the XOR of
/// every block.
pub open spec fn final_tag(mem: Seq<Seq<u64>>, tag_len: int) -> Seq<u8> {
    blake2b_digest(64, block_bytes(xor_fold(mem, mem.len() as int))).subrange(0, tag_len)
}

/// Computes the seed digest over the password, the salt and the cost
/// parameters (with the normalized memory size).
#[verifier::loop_isolation(false)]
pub fn init(password: &[u8], salt: &[u8], params: &Argon2Params, mem_kib_rounded: u32) -> (out:
    Vec<u8>)
    requires
        password@.len() <= u32::MAX,
        salt@.len() <= u32::MAX,
        params.tag_len <= u32::MAX,
        password@.len() + salt@.len() + 48 <= usize::MAX,
    ensures
        out@ == h0_spec(
            password@,
            salt@,
            params.tag_len as u32,
            mem_kib_rounded,
            params.time,
        ),
        out@.len() == 64,
{
    let mut buf: Vec<u8> = Vec::new();

    push_le4(&mut buf, password.len() as u32);
    let ghost base = buf@;
    let mut pos: usize = 0;
    while pos < password.len()
        invariant
            pos <= password@.len(),
            buf@ == base + password@.subrange(0, pos as int),
        decreases password@.len() - pos,
    {
        let b = password[pos];
        buf.push(b);
        proof {
            assert(base + password@.subrange(0, pos + 1) =~= (base + password@.subrange(
                0,
                pos as int,
            )).push(b));
        }
        pos += 1;
    }
    assert(buf@ =~= base + password@);

    push_le4(&mut buf, salt.len() as u32);
    let ghost base2 = buf@;
    let mut pos: usize = 0;
    while pos < salt.len()
        invariant
            pos <= salt@.len(),
            buf@ == base2 + salt@.subrange(0, pos as int),
        decreases salt@.len() - pos,
    {
        let b = salt[pos];
        buf.push(b);
        proof {
            assert(base2 + salt@.subrange(0, pos + 1) =~= (base2 + salt@.subrange(
                0,
                pos as int,
            )).push(b));
        }
        pos += 1;
    }
    assert(buf@ =~= base2 + salt@);

    push_le4(&mut buf, params.tag_len as u32);
    push_le4(&mut buf, mem_kib_rounded);
    push_le4(&mut buf, params.time);
    push_le4(&mut buf, 0x13u32);
    push_le4(&mut buf, 2u32);

    push_le4(&mut buf, params.tag_len as u32);
    push_le4(&mut buf, mem_kib_rounded);
    push_le4(&mut buf, params.time);
    push_le4(&mut buf, 0x13u32);
    push_le4(&mut buf, 2u32);

    assert(buf@ =~= seed_input(
        password@,
        salt@,
        params.tag_len as u32,
        mem_kib_rounded,
        params.time,
    ));

    blake2b_512(buf.as_slice())
}

/// Reduces the memory to the output tag: every block is XORed into an
/// accumulator whose digest is truncated to `tag_len` bytes.
#[verifier::loop_isolation(false)]
pub fn finalize(memory: &Vec<Block>, tag_len: usize) -> (out: Vec<u8>)
    requires
        blocks_wf(memory@),
        tag_len <= 64,
    ensures
        out@ == final_tag(deep(memory@), tag_len as int),
        out@.len() == tag_len,
{
    let mut final_block = Block::zero();
    let mut k: usize = 0;
    while k < memory.len()
        invariant
            k <= memory@.len(),
            final_block.wf(),
            final_block@ == xor_fold(deep(memory@), k as int),
        decreases memory@.len() - k,
    {
        final_block.in_place_xor(&memory[k]);
        k += 1;
    }

    let bytes = final_block.to_bytes();
    let final_hash = blake2b_512(bytes.as_slice());

    let mut out: Vec<u8> = Vec::new();
    let mut j: usize = 0;
    while j < tag_len
        invariant
            j <= tag_len,
            out@ == final_hash@.subrange(0, j as int),
        decreases tag_len - j,
    {
        let b = final_hash[j];
        out.push(b);
        proof {
            assert(final_hash@.subrange(0, j + 1) =~= final_hash@.subrange(0, j as int).push(b));
        }
        j += 1;
    }
    out
}

} // verus!
