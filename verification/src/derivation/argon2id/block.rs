use vstd::prelude::*;

use vstd::arithmetic::div_mod::lemma_fundamental_div_mod_converse;

use crate::derivation::argon2id::blake2b::{blake2b_512, blake2b_long, le4, push_le4, xof};
use crate::hash::blake2b::consts::{blake2b_digest, le64_at, le_byte, le_bytes_of_words, words_of};
use crate::hash::blake2b::utils::{load_u64_le, store_u64_le};

verus! {

/// The all-zero block.
pub open spec fn zero_block() -> Seq<u64> {
    Seq::new(128, |i: int| 0u64)
}

/// Word-wise XOR of two 128-word blocks.
pub open spec fn xor_words(a: Seq<u64>, b: Seq<u64>) -> Seq<u64> {
    Seq::new(128, |i: int| a[i] ^ b[i])
}

/// The 1024-byte little-endian serialization of a block.
pub open spec fn block_bytes(b: Seq<u64>) -> Seq<u8> {
    le_bytes_of_words(b)
}

/// The 128 words of a 1024-byte string.
pub open spec fn block_words(s: Seq<u8>) -> Seq<u64> {
    words_of(s, 128)
}

/// The `i`-th 32-bit word of a block: the low or high half of word `i / 2`.
pub open spec fn word32(b: Seq<u64>, i: int) -> u32 {
    if i % 2 == 0 {
        (b[i / 2] & 0xFFFF_FFFFu64) as u32
    } else {
        (b[i / 2] >> 32) as u32
    }
}

/// The block mixing primitive: both inputs serialized, concatenated into a
/// 2048-byte buffer and run through the extendable-output hash back to block
/// size.
#[verifier::opaque]
pub open spec fn compress_blocks(x: Seq<u64>, y: Seq<u64>) -> Seq<u64> {
    block_words(xof(1024, block_bytes(x) + block_bytes(y)))
}

/// A 64-byte digest zero-padded to block size.
pub open spec fn pad1024(h: Seq<u8>) -> Seq<u8> {
    h + Seq::new((1024 - h.len()) as nat, |k: int| 0u8)
}

/// The input of an address block: pass, lane, slice, total block count, pass
/// count, the variant and algorithm identifiers and the counter, each as four
/// little-endian bytes, zero-padded to 72 bytes.
pub open spec fn addr_input(
    pass: u32,
    lane: u32,
    slice: u32,
    total: u32,
    time: u32,
    counter: u32,
) -> Seq<u8> {
    le4(pass) + le4(lane) + le4(slice) + le4(total) + le4(time) + le4(2) + le4(0x13) + le4(counter)
        + Seq::new(40, |k: int| 0u8)
}

/// The address block for a position and counter: the 64-byte digest of the
/// positional encoding, zero-padded and read as a block.
#[verifier::opaque]
pub open spec fn addr_block(
    pass: u32,
    lane: u32,
    slice: u32,
    total: u32,
    time: u32,
    counter: u32,
) -> Seq<u64> {
    block_words(pad1024(blake2b_digest(64, addr_input(pass, lane, slice, total, time, counter))))
}

/// A 1024-byte memory cell, stored as 128 little-endian 64-bit words.
pub struct Block {
    words: Vec<u64>,
}

impl View for Block {
    type V = Seq<u64>;

    closed spec fn view(&self) -> Seq<u64> {
        self.words@
    }
}

impl Block {
    /// A block holds exactly 128 words.
    pub open spec fn wf(&self) -> bool {
        self@.len() == 128
    }

    /// The all-zero block.
    #[verifier::loop_isolation(false)]
    pub fn zero() -> (b: Block)
        ensures
            b@ == zero_block(),
            b.wf(),
    {
        let mut words: Vec<u64> = Vec::new();
        let mut i: usize = 0;
        while i < 128
            invariant
                i <= 128,
                words@.len() == i,
                forall|k: int| 0 <= k < i ==> words@[k] == 0u64,
            decreases 128 - i,
        {
            words.push(0u64);
            i += 1;
        }
        let b = Block { words };
        assert(b@ =~= zero_block());
        b
    }

    /// XORs `other` into this block, word by word.
    #[verifier::loop_isolation(false)]
    pub fn in_place_xor(&mut self, other: &Block)
        requires
            old(self).wf(),
            other.wf(),
        ensures
            final(self)@ == xor_words(old(self)@, other@),
            final(self).wf(),
    {
        let mut i: usize = 0;
        while i < 128
            invariant
                i <= 128,
                self.words@.len() == 128,
                other@.len() == 128,
                forall|k: int| 0 <= k < i ==> self.words@[k] == (old(self)@[k] ^ other@[k]),
                forall|k: int| i <= k < 128 ==> self.words@[k] == old(self)@[k],
            decreases 128 - i,
        {
            let w = self.words[i] ^ other.words[i];
            self.words[i] = w;
            i += 1;
        }
        assert(self@ =~= xor_words(old(self)@, other@));
    }

    /// Reconstructs a block from its 1024-byte serialization.
    #[verifier::loop_isolation(false)]
    pub fn from_bytes(bytes: &Vec<u8>) -> (b: Block)
        requires
            bytes@.len() == 1024,
        ensures
            b@ == block_words(bytes@),
            b.wf(),
    {
        let mut words: Vec<u64> = Vec::new();
        let mut i: usize = 0;
        while i < 128
            invariant
                i <= 128,
                words@.len() == i,
                forall|k: int| 0 <= k < i ==> words@[k] == le64_at(bytes@, 8 * k),
            decreases 128 - i,
        {
            let w = load_u64_le(bytes, 8 * i);
            words.push(w);
            i += 1;
        }
        let b = Block { words };
        assert(b@ =~= block_words(bytes@));
        b
    }

    /// Serializes the block into 1024 little-endian bytes.
    #[verifier::loop_isolation(false)]
    pub fn to_bytes(&self) -> (out: Vec<u8>)
        requires
            self.wf(),
        ensures
            out@ == block_bytes(self@),
            out@.len() == 1024,
    {
        let mut out: Vec<u8> = Vec::new();
        let mut i: usize = 0;
        while i < 128
            invariant
                i <= 128,
                self.wf(),
                out@.len() == 8 * i,
                forall|j: int| 0 <= j < 8 * i ==> out@[j] == le_byte(self@[j / 8], j % 8),
            decreases 128 - i,
        {
            let w = self.words[i];
            store_u64_le(&mut out, w);
            proof {
                assert forall|j: int| 8 * i <= j < 8 * (i + 1) implies out@[j] == le_byte(
                    self@[j / 8],
                    j % 8,
                ) by {
                    lemma_fundamental_div_mod_converse(j, 8, i as int, j - 8 * i);
                }
            }
            i += 1;
        }
        assert(out@ =~= block_bytes(self@));
        out
    }

    /// The `i`-th 32-bit word, extracted by shift and mask.
    pub fn u32_at(&self, i: usize) -> (r: u32)
        requires
            self.wf(),
            i < 256,
        ensures
            r == word32(self@, i as int),
    {
        let w = self.words[i / 2];
        if i % 2 == 0 {
            (w & 0xFFFF_FFFFu64) as u32
        } else {
            (w >> 32) as u32
        }
    }

    /// The mixing primitive: hashes the concatenated serializations of `x`
    /// and `y` back to block size.
    pub fn compress(x: &Block, y: &Block) -> (b: Block)
        requires
            x.wf(),
            y.wf(),
        ensures
            b@ == compress_blocks(x@, y@),
            b.wf(),
    {
        proof {
            reveal(compress_blocks);
        }
        let mut input = x.to_bytes();
        let mut yb = y.to_bytes();
        input.append(&mut yb);
        let hash = blake2b_long(1024, input.as_slice());
        Block::from_bytes(&hash)
    }

    /// The XOR of this block with `other`, as a new block.
    #[verifier::loop_isolation(false)]
    pub fn xor_with(&self, other: &Block) -> (b: Block)
        requires
            self.wf(),
            other.wf(),
        ensures
            b@ == xor_words(self@, other@),
            b.wf(),
    {
        let mut words: Vec<u64> = Vec::new();
        let mut i: usize = 0;
        while i < 128
            invariant
                i <= 128,
                self.wf(),
                other.wf(),
                words@.len() == i,
                forall|k: int| 0 <= k < i ==> words@[k] == (self@[k] ^ other@[k]),
            decreases 128 - i,
        {
            let w = self.words[i] ^ other.words[i];
            words.push(w);
            i += 1;
        }
        let b = Block { words };
        assert(b@ =~= xor_words(self@, other@));
        b
    }

    /// Builds the address block for data-independent indexing from the
    /// position counters alone.
    #[verifier::loop_isolation(false)]
    pub fn generate_address(
        pass: u32,
        lane: u32,
        slice: u32,
        total_blocks: u32,
        time: u32,
        counter: u32,
    ) -> (b: Block)
        ensures
            b@ == addr_block(pass, lane, slice, total_blocks, time, counter),
            b.wf(),
    {
        proof {
            reveal(addr_block);
        }
        let mut input: Vec<u8> = Vec::new();
        push_le4(&mut input, pass);
        push_le4(&mut input, lane);
        push_le4(&mut input, slice);
        push_le4(&mut input, total_blocks);
        push_le4(&mut input, time);
        push_le4(&mut input, 2u32);
        push_le4(&mut input, 0x13u32);
        push_le4(&mut input, counter);
        let ghost filled = input@;
        let mut i: usize = 0;
        while i < 40
            invariant
                i <= 40,
                input@ == filled + Seq::new(i as nat, |k: int| 0u8),
            decreases 40 - i,
        {
            input.push(0u8);
            proof {
                assert(filled + Seq::new((i + 1) as nat, |k: int| 0u8) =~= (filled + Seq::new(
                    i as nat,
                    |k: int| 0u8,
                )).push(0u8));
            }
            i += 1;
        }
        assert(input@ =~= addr_input(pass, lane, slice, total_blocks, time, counter));

        let hash = blake2b_512(input.as_slice());
        let mut padded = hash;
        let ghost digest = padded@;
        let mut i: usize = 0;
        while i < 960
            invariant
                i <= 960,
                padded@ == digest + Seq::new(i as nat, |k: int| 0u8),
            decreases 960 - i,
        {
            padded.push(0u8);
            proof {
                assert(digest + Seq::new((i + 1) as nat, |k: int| 0u8) =~= (digest + Seq::new(
                    i as nat,
                    |k: int| 0u8,
                )).push(0u8));
            }
            i += 1;
        }
        assert(padded@ =~= pad1024(digest));
        Block::from_bytes(&padded)
    }

    /// Overwrites every word of the block with zero.
    #[verifier::loop_isolation(false)]
    pub fn zeroize(&mut self)
        requires
            old(self).wf(),
        ensures
            final(self)@ == zero_block(),
            final(self).wf(),
    {
        let mut i: usize = 0;
        while i < 128
            invariant
                i <= 128,
                self.words@.len() == 128,
                forall|k: int| 0 <= k < i ==> self.words@[k] == 0u64,
            decreases 128 - i,
        {
            self.words[i] = 0u64;
            i += 1;
        }
        assert(self@ =~= zero_block());
    }
}

} // verus!
