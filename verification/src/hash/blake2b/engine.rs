use vstd::prelude::*;

use vstd::arithmetic::div_mod::{lemma_fundamental_div_mod, lemma_fundamental_div_mod_converse};

use crate::hash::blake2b::consts::{
    absorb_blocks, blake2b_digest, compress_spec, digest_state, h_init, init_v, le64_at, le_byte,
    le_bytes_of_words, lemma_absorb_blocks_prefix, pad128, param_word, rounds_spec, t_high, t_low,
    words16,
};
use crate::hash::blake2b::utils::{do_round, load_u64_le, store_u64_le};

verus! {

/// A vector of `n` zero bytes.
fn zero_bytes(n: usize) -> (out: Vec<u8>)
    ensures
        out@.len() == n,
        forall|k: int| 0 <= k < n ==> out@[k] == 0u8,
{
    let mut out: Vec<u8> = Vec::new();
    let mut i: usize = 0;
    while i < n
        invariant
            i <= n,
            out@.len() == i,
            forall|k: int| 0 <= k < i ==> out@[k] == 0u8,
        decreases n - i,
    {
        out.push(0u8);
        i += 1;
    }
    out
}

/// Incremental BLAKE2b hashing state.
///
/// The state absorbs bytes in 128-byte blocks: full blocks are compressed as
/// soon as they are complete, and the trailing partial block is buffered. The
/// `absorbed` ghost stream records every byte fed in so far, and `wf` ties
/// the concrete fields to it.
pub struct Blake2b {
    /// Chaining value (eight 64-bit words).
    h: Vec<u64>,
    /// Bytes compressed so far.
    t: u128,
    /// Buffer for the current partial block.
    buf: Vec<u8>,
    /// Number of bytes currently buffered.
    buflen: usize,
    /// The parameter word this state was created with.
    param: Ghost<u64>,
    /// Every byte absorbed so far (the padded key block counts as the first
    /// 128 bytes when a key is used).
    absorbed: Ghost<Seq<u8>>,
}

impl Blake2b {
    /// The parameter word this state was initialized with.
    pub closed spec fn param(&self) -> u64 {
        self.param@
    }

    /// The bytes absorbed so far.
    pub closed spec fn bytes(&self) -> Seq<u8> {
        self.absorbed@
    }

    /// Internal consistency: the chaining value reflects every full block of
    /// the absorbed stream, and the buffer holds exactly the remainder.
    pub closed spec fn wf(&self) -> bool {
        let msg = self.absorbed@;
        &&& self.h@.len() == 8
        &&& self.buf@.len() == 128
        &&& msg.len() <= u128::MAX
        &&& self.buflen as int == msg.len() as int % 128
        &&& self.t as int == msg.len() - self.buflen
        &&& self.h@ == absorb_blocks(h_init(self.param@), msg, msg.len() as int / 128)
        &&& self.buf@.subrange(0, self.buflen as int) == msg.subrange(
            msg.len() - self.buflen,
            msg.len() as int,
        )
    }

    /// Creates a hashing state for digest length `out_len`, optionally keyed:
    /// a non-empty key is absorbed as a first, zero-padded block.
    pub fn new(out_len: usize, key: &[u8]) -> (st: Blake2b)
        requires
            1 <= out_len <= 64,
            key@.len() <= 64,
        ensures
            st.wf(),
            st.param() == param_word(key@.len() as int, out_len as int),
            st.bytes() == if key@.len() == 0 {
                Seq::<u8>::empty()
            } else {
                pad128(key@)
            },
    {
        let param: u64 = 0x0101_0000u64 ^ ((key.len() as u64) << 8) ^ (out_len as u64);
        let mut h: Vec<u64> = Vec::new();
        h.push(0x6A09E667F3BCC908u64);
        h.push(0xBB67AE8584CAA73Bu64);
        h.push(0x3C6EF372FE94F82Bu64);
        h.push(0xA54FF53A5F1D36F1u64);
        h.push(0x510E527FADE682D1u64);
        h.push(0x9B05688C2B3E6C1Fu64);
        h.push(0x1F83D9ABFB41BD6Bu64);
        h.push(0x5BE0CD19137E2179u64);
        let first = h[0] ^ param;
        h[0] = first;
        assert(h@ =~= h_init(param_word(key@.len() as int, out_len as int)));

        let mut buf = zero_bytes(128);

        if key.len() == 0 {
            let st = Blake2b {
                h,
                t: 0,
                buf,
                buflen: 0,
                param: Ghost(param),
                absorbed: Ghost(Seq::<u8>::empty()),
            };
            assert(st.buf@.subrange(0, 0) =~= st.absorbed@.subrange(0, 0));
            st
        } else {
            let mut j: usize = 0;
            while j < key.len()
                invariant
                    j <= key@.len() <= 64,
                    buf@.len() == 128,
                    forall|k: int| 0 <= k < j ==> buf@[k] == key@[k],
                    forall|k: int| j <= k < 128 ==> buf@[k] == 0u8,
                decreases key@.len() - j,
            {
                let x = key[j];
                buf[j] = x;
                j += 1;
            }
            assert(buf@ =~= pad128(key@));
            let mut st = Blake2b {
                h,
                t: 0,
                buf,
                buflen: 128,
                param: Ghost(param),
                absorbed: Ghost(pad128(key@)),
            };
            st.compress(false);
            st.buf = zero_bytes(128);
            proof {
                let msg = st.absorbed@;
                assert(msg.len() == 128);
                assert(msg.subrange(0, 128) =~= msg);
                assert(absorb_blocks(h_init(param), msg, 1) == compress_spec(
                    absorb_blocks(h_init(param), msg, 0),
                    words16(msg.subrange(0, 128)),
                    128,
                    false,
                ));
                assert(st.buf@.subrange(0, 0) =~= msg.subrange(128, 128));
            }
            st
        }
    }

    /// Compresses the buffered block into the chaining value, counting its
    /// `buflen` bytes; `is_last` marks the final block of the message.
    #[verifier::loop_isolation(false)]
    #[verifier::rlimit(100)]
    fn compress(&mut self, is_last: bool)
        requires
            old(self).h@.len() == 8,
            old(self).buf@.len() == 128,
            old(self).buflen <= 128,
            old(self).t as int + old(self).buflen as int <= u128::MAX,
        ensures
            final(self).h@ == compress_spec(
                old(self).h@,
                words16(old(self).buf@),
                old(self).t as int + old(self).buflen as int,
                is_last,
            ),
            final(self).t as int == old(self).t as int + old(self).buflen as int,
            final(self).buflen == 0,
            final(self).buf@ == old(self).buf@,
            final(self).param == old(self).param,
            final(self).absorbed == old(self).absorbed,
    {
        self.t = self.t + (self.buflen as u128);

        let mut m: Vec<u64> = Vec::new();
        let mut i: usize = 0;
        while i < 16
            invariant
                i <= 16,
                m@.len() == i,
                forall|k: int| 0 <= k < i ==> m@[k] == le64_at(self.buf@, 8 * k),
            decreases 16 - i,
        {
            let w = load_u64_le(&self.buf, 8 * i);
            m.push(w);
            i += 1;
        }
        assert(m@ =~= words16(self.buf@));

        let mut v: Vec<u64> = Vec::new();
        let mut i: usize = 0;
        while i < 8
            invariant
                i <= 8,
                v@.len() == i,
                forall|k: int| 0 <= k < i ==> v@[k] == self.h@[k],
            decreases 8 - i,
        {
            let w = self.h[i];
            v.push(w);
            i += 1;
        }
        v.push(0x6A09E667F3BCC908u64);
        v.push(0xBB67AE8584CAA73Bu64);
        v.push(0x3C6EF372FE94F82Bu64);
        v.push(0xA54FF53A5F1D36F1u64);
        v.push(0x510E527FADE682D1u64);
        v.push(0x9B05688C2B3E6C1Fu64);
        v.push(0x1F83D9ABFB41BD6Bu64);
        v.push(0x5BE0CD19137E2179u64);

        let t0 = self.t as u64;
        let t1 = (self.t >> 64) as u64;
        proof {
            let tc = self.t;
            assert(tc as u64 == (tc % 0x1_0000_0000_0000_0000) as u64) by (bit_vector);
            assert((tc >> 64) as u64 == (tc / 0x1_0000_0000_0000_0000) as u64) by (bit_vector);
            assert(tc / 0x1_0000_0000_0000_0000 < 0x1_0000_0000_0000_0000u128) by (bit_vector);
            assert(t0 == t_low(tc as int));
            assert(t1 == t_high(tc as int));
        }
        let w12 = v[12] ^ t0;
        v[12] = w12;
        let w13 = v[13] ^ t1;
        v[13] = w13;
        if is_last {
            let w14 = v[14] ^ 0xFFFF_FFFF_FFFF_FFFFu64;
            v[14] = w14;
        }
        assert(v@ =~= init_v(self.h@, self.t as int, is_last));

        let ghost v0 = init_v(self.h@, self.t as int, is_last);
        let mut r: usize = 0;
        while r < 12
            invariant
                r <= 12,
                v@.len() == 16,
                v@ == rounds_spec(v0, m@, r as int),
            decreases 12 - r,
        {
            do_round(&mut v, &m, r);
            r += 1;
        }

        let ghost h0 = self.h@;
        let ghost snap = *self;
        let mut i: usize = 0;
        while i < 8
            invariant
                i <= 8,
                self.h@.len() == 8,
                forall|k: int| 0 <= k < i ==> self.h@[k] == (h0[k] ^ v@[k] ^ v@[k + 8]),
                forall|k: int| i <= k < 8 ==> self.h@[k] == h0[k],
                self.buf == snap.buf,
                self.t == snap.t,
                self.buflen == snap.buflen,
                self.param == snap.param,
                self.absorbed == snap.absorbed,
            decreases 8 - i,
        {
            let w = self.h[i] ^ v[i] ^ v[i + 8];
            self.h[i] = w;
            i += 1;
        }
        assert(self.h@ =~= compress_spec(
            h0,
            words16(self.buf@),
            self.t as int,
            is_last,
        ));

        self.buflen = 0;
    }

    /// Absorbs one byte: it is buffered, and a completed block is compressed.
    #[verifier::rlimit(100)]
    fn absorb_byte(&mut self, x: u8)
        requires
            old(self).wf(),
            old(self).bytes().len() + 1 <= u128::MAX,
        ensures
            final(self).wf(),
            final(self).bytes() == old(self).bytes().push(x),
            final(self).param() == old(self).param(),
    {
        proof {
            lemma_fundamental_div_mod(old(self).absorbed@.len() as int, 128);
        }
        let ghost msg0 = self.absorbed@;
        let ghost q = msg0.len() as int / 128;
        let ghost b0 = self.buflen as int;

        self.buf[self.buflen] = x;
        self.buflen = self.buflen + 1;
        self.absorbed = Ghost(self.absorbed@.push(x));
        let ghost msg = self.absorbed@;

        proof {
            assert(msg0.len() == 128 * q + b0);
            assert(msg0.subrange(0, 128 * q) =~= msg.subrange(0, 128 * q));
            lemma_absorb_blocks_prefix(h_init(self.param@), msg0, msg, q);
            assert forall|k: int| 0 <= k < b0 implies #[trigger] self.buf@[k] == msg0[msg0.len()
                - b0 + k] by {
                assert(self.buf@[k] == old(self).buf@.subrange(0, b0)[k]);
                assert(old(self).buf@.subrange(0, b0)[k] == msg0.subrange(
                    msg0.len() - b0,
                    msg0.len() as int,
                )[k]);
            }
        }
        if self.buflen == 128 {
            proof {
                lemma_fundamental_div_mod_converse(msg.len() as int, 128, q + 1, 0);
                assert(b0 == 127);
                assert forall|k: int| 0 <= k < 128 implies #[trigger] self.buf@[k] == msg.subrange(
                    128 * q,
                    128 * (q + 1),
                )[k] by {
                    if k < 127 {
                        assert(self.buf@[k] == msg0[msg0.len() - 127 + k]);
                        assert(msg[128 * q + k] == msg0[128 * q + k]);
                    } else {
                        assert(msg[128 * q + k] == x);
                    }
                }
                assert(self.buf@ =~= msg.subrange(128 * q, 128 * (q + 1)));
            }
            self.compress(false);
            proof {
                assert(absorb_blocks(h_init(self.param@), msg, q + 1) == compress_spec(
                    absorb_blocks(h_init(self.param@), msg, q),
                    words16(msg.subrange(128 * q, 128 * (q + 1))),
                    128 * (q + 1),
                    false,
                ));
                assert(self.h@ == absorb_blocks(h_init(self.param@), msg, q + 1));
                assert(self.buf@.subrange(0, 0) =~= msg.subrange(
                    msg.len() as int,
                    msg.len() as int,
                ));
            }
        } else {
            proof {
                lemma_fundamental_div_mod_converse(msg.len() as int, 128, q, b0 + 1);
                assert forall|k: int| 0 <= k < b0 + 1 implies #[trigger] self.buf@[k]
                    == msg.subrange(msg.len() - (b0 + 1), msg.len() as int)[k] by {
                    if k < b0 {
                        assert(self.buf@[k] == msg0[msg0.len() - b0 + k]);
                        assert(msg[msg.len() - (b0 + 1) + k] == msg0[msg0.len() - b0 + k]);
                    } else {
                        assert(msg[msg.len() - 1] == x);
                    }
                }
                assert(self.buf@.subrange(0, b0 + 1) =~= msg.subrange(
                    msg.len() - (b0 + 1),
                    msg.len() as int,
                ));
            }
        }
    }

    /// Absorbs `input`; may be called repeatedly with arbitrary pieces.
    #[verifier::loop_isolation(false)]
    pub fn update(&mut self, input: &[u8])
        requires
            old(self).wf(),
            old(self).bytes().len() + input@.len() <= u128::MAX,
        ensures
            final(self).wf(),
            final(self).bytes() == old(self).bytes() + input@,
            final(self).param() == old(self).param(),
    {
        let mut pos: usize = 0;
        while pos < input.len()
            invariant
                pos <= input@.len(),
                self.wf(),
                self.bytes() == old(self).bytes() + input@.subrange(0, pos as int),
                self.param() == old(self).param(),
            decreases input@.len() - pos,
        {
            let x = input[pos];
            self.absorb_byte(x);
            proof {
                assert(old(self).bytes() + input@.subrange(0, pos as int + 1) =~= (old(self).bytes()
                    + input@.subrange(0, pos as int)).push(x));
            }
            pos += 1;
        }
        assert(old(self).bytes() + input@.subrange(0, input@.len() as int) =~= old(self).bytes()
            + input@);
    }

    /// Pads the buffered remainder with zeros, compresses it as the last
    /// block, and serializes the chaining value into the 64-byte digest.
    #[verifier::loop_isolation(false)]
    #[verifier::rlimit(100)]
    pub fn finalize(self) -> (out: Vec<u8>)
        requires
            self.wf(),
        ensures
            out@ == le_bytes_of_words(digest_state(self.param(), self.bytes())),
            out@.len() == 64,
    {
        let ghost orig = self;
        let mut st = self;
        let ghost msg = st.absorbed@;
        let ghost nb = msg.len() as int / 128;
        let ghost b0 = st.buflen as int;

        let mut i: usize = st.buflen;
        while i < 128
            invariant
                st.buflen as int == b0,
                b0 <= i <= 128,
                st.buf@.len() == 128,
                forall|k: int| 0 <= k < b0 ==> st.buf@[k] == orig.buf@[k],
                forall|k: int| b0 <= k < i ==> st.buf@[k] == 0u8,
                st.h == orig.h,
                st.t == orig.t,
                st.absorbed == orig.absorbed,
                st.param == orig.param,
            decreases 128 - i,
        {
            st.buf[i] = 0u8;
            i += 1;
        }
        proof {
            lemma_fundamental_div_mod(msg.len() as int, 128);
            assert(st.buf@ =~= pad128(msg.subrange(128 * nb, msg.len() as int))) by {
                assert(msg.subrange(128 * nb, msg.len() as int).len() == b0);
                assert(forall|k: int| 0 <= k < b0 ==> st.buf@[k] == #[trigger] msg.subrange(
                    msg.len() - b0,
                    msg.len() as int,
                )[k]);
            }
        }
        st.compress(true);

        let mut out: Vec<u8> = Vec::new();
        let mut i: usize = 0;
        while i < 8
            invariant
                i <= 8,
                out@.len() == 8 * i,
                st.h@.len() == 8,
                forall|j: int| 0 <= j < 8 * i ==> out@[j] == le_byte(st.h@[j / 8], j % 8),
            decreases 8 - i,
        {
            let w = st.h[i];
            store_u64_le(&mut out, w);
            proof {
                assert forall|j: int| 8 * i <= j < 8 * (i + 1) implies out@[j] == le_byte(
                    st.h@[j / 8],
                    j % 8,
                ) by {
                    lemma_fundamental_div_mod_converse(j, 8, i as int, j - 8 * i);
                }
            }
            i += 1;
        }
        assert(out@ =~= le_bytes_of_words(st.h@));
        out
    }
}

/// One-shot unkeyed BLAKE2b: the full 64-byte digest of `input`, computed
/// with digest length `out_len` in the parameter word.
pub fn blake2b(out_len: usize, input: &[u8]) -> (out: Vec<u8>)
    requires
        1 <= out_len <= 64,
    ensures
        out@ == blake2b_digest(out_len as int, input@),
        out@.len() == 64,
{
    // binding the length shows the byte count fits the 128-bit counter
    let input_len: usize = input.len();
    assert(input@.len() == input_len);
    let nokey: Vec<u8> = Vec::new();
    let mut st = Blake2b::new(out_len, nokey.as_slice());
    st.update(input);
    proof {
        assert(Seq::<u8>::empty() + input@ =~= input@);
    }
    st.finalize()
}

} // verus!
