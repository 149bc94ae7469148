use vstd::prelude::*;

use crate::hash::blake2b::consts::{g_spec, le64_at, le_byte, rotr, round_spec, wadd};

verus! {

/// Right rotation of a 64-bit word by `n` bits.
pub fn rotr64(x: u64, n: u64) -> (r: u64)
    requires
        1 <= n < 64,
    ensures
        r == rotr(x, n),
{
    (x >> n) | (x << (64 - n))
}

/// 64-bit wrapping addition; the additive mixing step of `G`.
pub fn blamka(a: u64, b: u64) -> (r: u64)
    ensures
        r == wadd(a, b),
{
    a.wrapping_add(b)
}

/// Loads the little-endian 64-bit word at byte offset `off` of `b`.
pub fn load_u64_le(b: &Vec<u8>, off: usize) -> (r: u64)
    requires
        off + 8 <= b@.len(),
    ensures
        r == le64_at(b@, off as int),
{
    let n: usize = b.len();
    assert(off + 8 <= n);
    (b[off] as u64) | ((b[off + 1] as u64) << 8) | ((b[off + 2] as u64) << 16) | ((b[off + 3]
        as u64) << 24) | ((b[off + 4] as u64) << 32) | ((b[off + 5] as u64) << 40) | ((b[off + 6]
        as u64) << 48) | ((b[off + 7] as u64) << 56)
}

/// Appends the eight little-endian bytes of `v` to `out`.
pub fn store_u64_le(out: &mut Vec<u8>, v: u64)
    ensures
        final(out)@ == old(out)@ + Seq::new(8, |k: int| le_byte(v, k)),
{
    out.push((v >> 0) as u8);
    out.push((v >> 8) as u8);
    out.push((v >> 16) as u8);
    out.push((v >> 24) as u8);
    out.push((v >> 32) as u8);
    out.push((v >> 40) as u8);
    out.push((v >> 48) as u8);
    out.push((v >> 56) as u8);
    assert(out@ =~= old(out)@ + Seq::new(8, |k: int| le_byte(v, k)));
}

/// The quarter-round `G`: mixes the words of `v` at four distinct positions
/// with the message words `x` and `y`.
pub fn g(v: &mut Vec<u64>, a: usize, b: usize, c: usize, d: usize, x: u64, y: u64)
    requires
        old(v)@.len() == 16,
        a < 16,
        b < 16,
        c < 16,
        d < 16,
        a != b,
        a != c,
        a != d,
        b != c,
        b != d,
        c != d,
    ensures
        final(v)@ == g_spec(old(v)@, a as int, b as int, c as int, d as int, x, y),
{
    let va1 = blamka(v[a], v[b]).wrapping_add(x);
    let vd1 = rotr64(v[d] ^ va1, 32);
    let vc1 = blamka(v[c], vd1);
    let vb1 = rotr64(v[b] ^ vc1, 24);
    let va2 = blamka(va1, vb1).wrapping_add(y);
    let vd2 = rotr64(vd1 ^ va2, 16);
    let vc2 = blamka(vc1, vd2);
    let vb2 = rotr64(vb1 ^ vc2, 63);
    v[a] = va2;
    v[b] = vb2;
    v[c] = vc2;
    v[d] = vd2;
    assert(v@ =~= g_spec(old(v)@, a as int, b as int, c as int, d as int, x, y));
}

/// Applies round `r` of the message schedule to the working vector.
#[verifier::rlimit(30)]
pub fn do_round(v: &mut Vec<u64>, m: &Vec<u64>, r: usize)
    requires
        old(v)@.len() == 16,
        m@.len() == 16,
        r < 12,
    ensures
        final(v)@ == round_spec(old(v)@, m@, r as int),
        final(v)@.len() == 16,
{
    proof {
        reveal(round_spec);
    }
    if r == 0 {
        g(v, 0, 4, 8, 12, m[0], m[1]);
        g(v, 1, 5, 9, 13, m[2], m[3]);
        g(v, 2, 6, 10, 14, m[4], m[5]);
        g(v, 3, 7, 11, 15, m[6], m[7]);
        g(v, 0, 5, 10, 15, m[8], m[9]);
        g(v, 1, 6, 11, 12, m[10], m[11]);
        g(v, 2, 7, 8, 13, m[12], m[13]);
        g(v, 3, 4, 9, 14, m[14], m[15]);
    } else if r == 1 {
        g(v, 0, 4, 8, 12, m[14], m[10]);
        g(v, 1, 5, 9, 13, m[4], m[8]);
        g(v, 2, 6, 10, 14, m[9], m[15]);
        g(v, 3, 7, 11, 15, m[13], m[6]);
        g(v, 0, 5, 10, 15, m[1], m[12]);
        g(v, 1, 6, 11, 12, m[0], m[2]);
        g(v, 2, 7, 8, 13, m[11], m[7]);
        g(v, 3, 4, 9, 14, m[5], m[3]);
    } else if r == 2 {
        g(v, 0, 4, 8, 12, m[11], m[8]);
        g(v, 1, 5, 9, 13, m[12], m[0]);
        g(v, 2, 6, 10, 14, m[5], m[2]);
        g(v, 3, 7, 11, 15, m[15], m[13]);
        g(v, 0, 5, 10, 15, m[10], m[14]);
        g(v, 1, 6, 11, 12, m[3], m[6]);
        g(v, 2, 7, 8, 13, m[7], m[1]);
        g(v, 3, 4, 9, 14, m[9], m[4]);
    } else if r == 3 {
        g(v, 0, 4, 8, 12, m[7], m[9]);
        g(v, 1, 5, 9, 13, m[3], m[1]);
        g(v, 2, 6, 10, 14, m[13], m[12]);
        g(v, 3, 7, 11, 15, m[11], m[14]);
        g(v, 0, 5, 10, 15, m[2], m[6]);
        g(v, 1, 6, 11, 12, m[5], m[10]);
        g(v, 2, 7, 8, 13, m[4], m[0]);
        g(v, 3, 4, 9, 14, m[15], m[8]);
    } else if r == 4 {
        g(v, 0, 4, 8, 12, m[9], m[0]);
        g(v, 1, 5, 9, 13, m[5], m[7]);
        g(v, 2, 6, 10, 14, m[2], m[4]);
        g(v, 3, 7, 11, 15, m[10], m[15]);
        g(v, 0, 5, 10, 15, m[14], m[1]);
        g(v, 1, 6, 11, 12, m[11], m[12]);
        g(v, 2, 7, 8, 13, m[6], m[8]);
        g(v, 3, 4, 9, 14, m[3], m[13]);
    } else if r == 5 {
        g(v, 0, 4, 8, 12, m[2], m[12]);
        g(v, 1, 5, 9, 13, m[6], m[10]);
        g(v, 2, 6, 10, 14, m[0], m[11]);
        g(v, 3, 7, 11, 15, m[8], m[3]);
        g(v, 0, 5, 10, 15, m[4], m[13]);
        g(v, 1, 6, 11, 12, m[7], m[5]);
        g(v, 2, 7, 8, 13, m[15], m[14]);
        g(v, 3, 4, 9, 14, m[1], m[9]);
    } else if r == 6 {
        g(v, 0, 4, 8, 12, m[12], m[5]);
        g(v, 1, 5, 9, 13, m[1], m[15]);
        g(v, 2, 6, 10, 14, m[14], m[13]);
        g(v, 3, 7, 11, 15, m[4], m[10]);
        g(v, 0, 5, 10, 15, m[0], m[7]);
        g(v, 1, 6, 11, 12, m[6], m[3]);
        g(v, 2, 7, 8, 13, m[9], m[2]);
        g(v, 3, 4, 9, 14, m[8], m[11]);
    } else if r == 7 {
        g(v, 0, 4, 8, 12, m[13], m[11]);
        g(v, 1, 5, 9, 13, m[7], m[14]);
        g(v, 2, 6, 10, 14, m[12], m[1]);
        g(v, 3, 7, 11, 15, m[3], m[9]);
        g(v, 0, 5, 10, 15, m[5], m[0]);
        g(v, 1, 6, 11, 12, m[15], m[4]);
        g(v, 2, 7, 8, 13, m[8], m[6]);
        g(v, 3, 4, 9, 14, m[2], m[10]);
    } else if r == 8 {
        g(v, 0, 4, 8, 12, m[6], m[15]);
        g(v, 1, 5, 9, 13, m[14], m[9]);
        g(v, 2, 6, 10, 14, m[11], m[3]);
        g(v, 3, 7, 11, 15, m[0], m[8]);
        g(v, 0, 5, 10, 15, m[12], m[2]);
        g(v, 1, 6, 11, 12, m[13], m[7]);
        g(v, 2, 7, 8, 13, m[1], m[4]);
        g(v, 3, 4, 9, 14, m[10], m[5]);
    } else if r == 9 {
        g(v, 0, 4, 8, 12, m[10], m[2]);
        g(v, 1, 5, 9, 13, m[8], m[4]);
        g(v, 2, 6, 10, 14, m[7], m[6]);
        g(v, 3, 7, 11, 15, m[1], m[5]);
        g(v, 0, 5, 10, 15, m[15], m[11]);
        g(v, 1, 6, 11, 12, m[9], m[14]);
        g(v, 2, 7, 8, 13, m[3], m[12]);
        g(v, 3, 4, 9, 14, m[13], m[0]);
    } else if r == 10 {
        g(v, 0, 4, 8, 12, m[0], m[1]);
        g(v, 1, 5, 9, 13, m[2], m[3]);
        g(v, 2, 6, 10, 14, m[4], m[5]);
        g(v, 3, 7, 11, 15, m[6], m[7]);
        g(v, 0, 5, 10, 15, m[8], m[9]);
        g(v, 1, 6, 11, 12, m[10], m[11]);
        g(v, 2, 7, 8, 13, m[12], m[13]);
        g(v, 3, 4, 9, 14, m[14], m[15]);
    } else {
        g(v, 0, 4, 8, 12, m[14], m[10]);
        g(v, 1, 5, 9, 13, m[4], m[8]);
        g(v, 2, 6, 10, 14, m[9], m[15]);
        g(v, 3, 7, 11, 15, m[13], m[6]);
        g(v, 0, 5, 10, 15, m[1], m[12]);
        g(v, 1, 6, 11, 12, m[0], m[2]);
        g(v, 2, 7, 8, 13, m[11], m[7]);
        g(v, 3, 4, 9, 14, m[5], m[3]);
    }
}

} // verus!
