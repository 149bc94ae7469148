use vstd::prelude::*;

verus! {

/// The BLAKE2b initialization vector (RFC 7693, section 2.6).
pub open spec fn iv() -> Seq<u64> {
    seq![
        0x6A09E667F3BCC908u64,
        0xBB67AE8584CAA73Bu64,
        0x3C6EF372FE94F82Bu64,
        0xA54FF53A5F1D36F1u64,
        0x510E527FADE682D1u64,
        0x9B05688C2B3E6C1Fu64,
        0x1F83D9ABFB41BD6Bu64,
        0x5BE0CD19137E2179u64,
    ]
}

/// 64-bit addition that wraps around, as the machine add does.
pub open spec fn wadd(x: u64, y: u64) -> u64 {
    if x + y > u64::MAX {
        (x + y - 0x1_0000_0000_0000_0000) as u64
    } else {
        (x + y) as u64
    }
}

/// Right rotation of a 64-bit word by `n` bits, for `0 < n < 64`.
pub open spec fn rotr(x: u64, n: u64) -> u64 {
    (x >> n) | (x << ((64 - n) as u64))
}

/// The BLAKE2b quarter-round `G` over a 16-word working vector: words at
/// positions `a`, `b`, `c`, `d` are mixed with the message words `x` and `y`.
pub open spec fn g_spec(v: Seq<u64>, a: int, b: int, c: int, d: int, x: u64, y: u64) -> Seq<u64> {
    let va1 = wadd(wadd(v[a], v[b]), x);
    let vd1 = rotr(v[d] ^ va1, 32);
    let vc1 = wadd(v[c], vd1);
    let vb1 = rotr(v[b] ^ vc1, 24);
    let va2 = wadd(wadd(va1, vb1), y);
    let vd2 = rotr(vd1 ^ va2, 16);
    let vc2 = wadd(vc1, vd2);
    let vb2 = rotr(vb1 ^ vc2, 63);
    v.update(a, va2).update(b, vb2).update(c, vc2).update(d, vd2)
}

/// One full round of the compression function: eight applications of `G`,
/// with message words drawn according to the word schedule of round `r`
/// (rounds ten and eleven reuse the schedules of rounds zero and one).
#[verifier::opaque]
pub open spec fn round_spec(v: Seq<u64>, m: Seq<u64>, r: int) -> Seq<u64> {
    if r == 0 {
        g_spec(g_spec(g_spec(g_spec(g_spec(g_spec(g_spec(g_spec(v, 0, 4, 8, 12, m[0], m[1]), 1, 5, 9, 13, m[2], m[3]), 2, 6, 10, 14, m[4], m[5]), 3, 7, 11, 15, m[6], m[7]), 0, 5, 10, 15, m[8], m[9]), 1, 6, 11, 12, m[10], m[11]), 2, 7, 8, 13, m[12], m[13]), 3, 4, 9, 14, m[14], m[15])
    } else if r == 1 {
        g_spec(g_spec(g_spec(g_spec(g_spec(g_spec(g_spec(g_spec(v, 0, 4, 8, 12, m[14], m[10]), 1, 5, 9, 13, m[4], m[8]), 2, 6, 10, 14, m[9], m[15]), 3, 7, 11, 15, m[13], m[6]), 0, 5, 10, 15, m[1], m[12]), 1, 6, 11, 12, m[0], m[2]), 2, 7, 8, 13, m[11], m[7]), 3, 4, 9, 14, m[5], m[3])
    } else if r == 2 {
        g_spec(g_spec(g_spec(g_spec(g_spec(g_spec(g_spec(g_spec(v, 0, 4, 8, 12, m[11], m[8]), 1, 5, 9, 13, m[12], m[0]), 2, 6, 10, 14, m[5], m[2]), 3, 7, 11, 15, m[15], m[13]), 0, 5, 10, 15, m[10], m[14]), 1, 6, 11, 12, m[3], m[6]), 2, 7, 8, 13, m[7], m[1]), 3, 4, 9, 14, m[9], m[4])
    } else if r == 3 {
        g_spec(g_spec(g_spec(g_spec(g_spec(g_spec(g_spec(g_spec(v, 0, 4, 8, 12, m[7], m[9]), 1, 5, 9, 13, m[3], m[1]), 2, 6, 10, 14, m[13], m[12]), 3, 7, 11, 15, m[11], m[14]), 0, 5, 10, 15, m[2], m[6]), 1, 6, 11, 12, m[5], m[10]), 2, 7, 8, 13, m[4], m[0]), 3, 4, 9, 14, m[15], m[8])
    } else if r == 4 {
        g_spec(g_spec(g_spec(g_spec(g_spec(g_spec(g_spec(g_spec(v, 0, 4, 8, 12, m[9], m[0]), 1, 5, 9, 13, m[5], m[7]), 2, 6, 10, 14, m[2], m[4]), 3, 7, 11, 15, m[10], m[15]), 0, 5, 10, 15, m[14], m[1]), 1, 6, 11, 12, m[11], m[12]), 2, 7, 8, 13, m[6], m[8]), 3, 4, 9, 14, m[3], m[13])
    } else if r == 5 {
        g_spec(g_spec(g_spec(g_spec(g_spec(g_spec(g_spec(g_spec(v, 0, 4, 8, 12, m[2], m[12]), 1, 5, 9, 13, m[6], m[10]), 2, 6, 10, 14, m[0], m[11]), 3, 7, 11, 15, m[8], m[3]), 0, 5, 10, 15, m[4], m[13]), 1, 6, 11, 12, m[7], m[5]), 2, 7, 8, 13, m[15], m[14]), 3, 4, 9, 14, m[1], m[9])
    } else if r == 6 {
        g_spec(g_spec(g_spec(g_spec(g_spec(g_spec(g_spec(g_spec(v, 0, 4, 8, 12, m[12], m[5]), 1, 5, 9, 13, m[1], m[15]), 2, 6, 10, 14, m[14], m[13]), 3, 7, 11, 15, m[4], m[10]), 0, 5, 10, 15, m[0], m[7]), 1, 6, 11, 12, m[6], m[3]), 2, 7, 8, 13, m[9], m[2]), 3, 4, 9, 14, m[8], m[11])
    } else if r == 7 {
        g_spec(g_spec(g_spec(g_spec(g_spec(g_spec(g_spec(g_spec(v, 0, 4, 8, 12, m[13], m[11]), 1, 5, 9, 13, m[7], m[14]), 2, 6, 10, 14, m[12], m[1]), 3, 7, 11, 15, m[3], m[9]), 0, 5, 10, 15, m[5], m[0]), 1, 6, 11, 12, m[15], m[4]), 2, 7, 8, 13, m[8], m[6]), 3, 4, 9, 14, m[2], m[10])
    } else if r == 8 {
        g_spec(g_spec(g_spec(g_spec(g_spec(g_spec(g_spec(g_spec(v, 0, 4, 8, 12, m[6], m[15]), 1, 5, 9, 13, m[14], m[9]), 2, 6, 10, 14, m[11], m[3]), 3, 7, 11, 15, m[0], m[8]), 0, 5, 10, 15, m[12], m[2]), 1, 6, 11, 12, m[13], m[7]), 2, 7, 8, 13, m[1], m[4]), 3, 4, 9, 14, m[10], m[5])
    } else if r == 9 {
        g_spec(g_spec(g_spec(g_spec(g_spec(g_spec(g_spec(g_spec(v, 0, 4, 8, 12, m[10], m[2]), 1, 5, 9, 13, m[8], m[4]), 2, 6, 10, 14, m[7], m[6]), 3, 7, 11, 15, m[1], m[5]), 0, 5, 10, 15, m[15], m[11]), 1, 6, 11, 12, m[9], m[14]), 2, 7, 8, 13, m[3], m[12]), 3, 4, 9, 14, m[13], m[0])
    } else if r == 10 {
        g_spec(g_spec(g_spec(g_spec(g_spec(g_spec(g_spec(g_spec(v, 0, 4, 8, 12, m[0], m[1]), 1, 5, 9, 13, m[2], m[3]), 2, 6, 10, 14, m[4], m[5]), 3, 7, 11, 15, m[6], m[7]), 0, 5, 10, 15, m[8], m[9]), 1, 6, 11, 12, m[10], m[11]), 2, 7, 8, 13, m[12], m[13]), 3, 4, 9, 14, m[14], m[15])
    } else {
        g_spec(g_spec(g_spec(g_spec(g_spec(g_spec(g_spec(g_spec(v, 0, 4, 8, 12, m[14], m[10]), 1, 5, 9, 13, m[4], m[8]), 2, 6, 10, 14, m[9], m[15]), 3, 7, 11, 15, m[13], m[6]), 0, 5, 10, 15, m[1], m[12]), 1, 6, 11, 12, m[0], m[2]), 2, 7, 8, 13, m[11], m[7]), 3, 4, 9, 14, m[5], m[3])
    }
}

/// The working vector after the first `n` rounds on message words `m`.
pub open spec fn rounds_spec(v: Seq<u64>, m: Seq<u64>, n: int) -> Seq<u64>
    decreases n,
{
    if n <= 0 {
        v
    } else {
        round_spec(rounds_spec(v, m, n - 1), m, n - 1)
    }
}

/// Low 64-bit half of the byte counter.
pub open spec fn t_low(t: int) -> u64 {
    (t % 0x1_0000_0000_0000_0000) as u64
}

/// High 64-bit half of the byte counter.
pub open spec fn t_high(t: int) -> u64 {
    ((t / 0x1_0000_0000_0000_0000) % 0x1_0000_0000_0000_0000) as u64
}

/// The initial working vector: the chaining value, then the initialization
/// vector with the byte counter and the last-block flag folded in.
pub open spec fn init_v(h: Seq<u64>, t: int, last: bool) -> Seq<u64> {
    Seq::new(
        16,
        |i: int|
            if i < 8 {
                h[i]
            } else if i == 12 {
                iv()[4] ^ t_low(t)
            } else if i == 13 {
                iv()[5] ^ t_high(t)
            } else if i == 14 {
                if last {
                    iv()[6] ^ 0xFFFF_FFFF_FFFF_FFFFu64
                } else {
                    iv()[6]
                }
            } else {
                iv()[i - 8]
            },
    )
}

/// The compression function `F`: mixes one 16-word message block `m` into the
/// chaining value `h`, with `t` bytes counted so far and `last` marking the
/// final block.
pub open spec fn compress_spec(h: Seq<u64>, m: Seq<u64>, t: int, last: bool) -> Seq<u64> {
    let vv = rounds_spec(init_v(h, t, last), m, 12);
    Seq::new(8, |i: int| h[i] ^ vv[i] ^ vv[i + 8])
}

/// The 64-bit word stored little-endian at byte offset `i` of `s`.
pub open spec fn le64_at(s: Seq<u8>, i: int) -> u64 {
    (s[i] as u64) | ((s[i + 1] as u64) << 8) | ((s[i + 2] as u64) << 16) | ((s[i + 3] as u64)
        << 24) | ((s[i + 4] as u64) << 32) | ((s[i + 5] as u64) << 40) | ((s[i + 6] as u64) << 48)
        | ((s[i + 7] as u64) << 56)
}

/// The first `n` little-endian 64-bit words of `s`.
pub open spec fn words_of(s: Seq<u8>, n: nat) -> Seq<u64> {
    Seq::new(n, |i: int| le64_at(s, 8 * i))
}

/// The 16 message words of one 128-byte block.
pub open spec fn words16(s: Seq<u8>) -> Seq<u64> {
    words_of(s, 16)
}

/// Byte `k` (little-endian) of the 64-bit word `w`.
pub open spec fn le_byte(w: u64, k: int) -> u8 {
    (w >> ((8 * k) as u64)) as u8
}

/// The little-endian serialization of a sequence of 64-bit words.
pub open spec fn le_bytes_of_words(ws: Seq<u64>) -> Seq<u8> {
    Seq::new(8 * ws.len(), |j: int| le_byte(ws[j / 8], j % 8))
}

/// The initial chaining value for parameter word `param`.
pub open spec fn h_init(param: u64) -> Seq<u64> {
    iv().update(0, iv()[0] ^ param)
}

/// The BLAKE2b parameter word for digest length `out_len` and key length
/// `key_len` (fanout and depth fixed at one).
pub open spec fn param_word(key_len: int, out_len: int) -> u64 {
    0x0101_0000u64 ^ ((key_len as u64) << 8) ^ (out_len as u64)
}

/// The chaining value after absorbing the first `n` 128-byte blocks of `msg`,
/// none of them marked last.
pub open spec fn absorb_blocks(h: Seq<u64>, msg: Seq<u8>, n: int) -> Seq<u64>
    decreases n,
{
    if n <= 0 {
        h
    } else {
        compress_spec(
            absorb_blocks(h, msg, n - 1),
            words16(msg.subrange(128 * (n - 1), 128 * n)),
            128 * n,
            false,
        )
    }
}

/// `s` (at most 128 bytes) zero-padded to a full 128-byte block.
pub open spec fn pad128(s: Seq<u8>) -> Seq<u8> {
    s + Seq::new((128 - s.len()) as nat, |j: int| 0u8)
}

/// The final chaining value over the whole message: all full blocks are
/// absorbed, then the zero-padded remainder is compressed with the last-block
/// flag and the total byte count.
pub open spec fn digest_state(param: u64, msg: Seq<u8>) -> Seq<u64> {
    let nb = msg.len() as int / 128;
    let h = absorb_blocks(h_init(param), msg, nb);
    compress_spec(
        h,
        words16(pad128(msg.subrange(128 * nb, msg.len() as int))),
        msg.len() as int,
        true,
    )
}

/// The full 64-byte unkeyed BLAKE2b digest of `msg`, computed with digest
/// length `out_len` in the parameter word.
pub open spec fn blake2b_digest(out_len: int, msg: Seq<u8>) -> Seq<u8> {
    le_bytes_of_words(digest_state(param_word(0, out_len), msg))
}

/// Absorbing reads only the first `128 * n` bytes: two messages that agree on
/// that prefix yield the same chaining value.
#[verifier::rlimit(100)]
pub proof fn lemma_absorb_blocks_prefix(h: Seq<u64>, m1: Seq<u8>, m2: Seq<u8>, n: int)
    requires
        0 <= 128 * n,
        128 * n <= m1.len(),
        128 * n <= m2.len(),
        m1.subrange(0, 128 * n) == m2.subrange(0, 128 * n),
    ensures
        absorb_blocks(h, m1, n) == absorb_blocks(h, m2, n),
    decreases n,
{
    if n > 0 {
        assert(m1.subrange(0, 128 * (n - 1)) =~= m1.subrange(0, 128 * n).subrange(
            0,
            128 * (n - 1),
        ));
        assert(m2.subrange(0, 128 * (n - 1)) =~= m2.subrange(0, 128 * n).subrange(
            0,
            128 * (n - 1),
        ));
        lemma_absorb_blocks_prefix(h, m1, m2, n - 1);
        assert(m1.subrange(128 * (n - 1), 128 * n) =~= m1.subrange(0, 128 * n).subrange(
            128 * (n - 1),
            128 * n,
        ));
        assert(m2.subrange(128 * (n - 1), 128 * n) =~= m2.subrange(0, 128 * n).subrange(
            128 * (n - 1),
            128 * n,
        ));
    }
}

} // verus!
