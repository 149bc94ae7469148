use vstd::prelude::*;

verus! {

/// Right rotation of a 32-bit word by `n` bits, for `0 < n < 32`.
pub open spec fn rotr32_spec(x: u32, n: u32) -> u32 {
    (x >> n) | (x << ((32 - n) as u32))
}

/// 32-bit addition that wraps around, as the machine add does.
pub open spec fn wadd32(x: u32, y: u32) -> u32 {
    if x + y > u32::MAX {
        (x + y - 0x1_0000_0000) as u32
    } else {
        (x + y) as u32
    }
}

/// The 64 SHA-256 round constants.
pub open spec fn k256_seq() -> Seq<u32> {
    seq![
        0x428a2f98u32,
        0x71374491u32,
        0xb5c0fbcfu32,
        0xe9b5dba5u32,
        0x3956c25bu32,
        0x59f111f1u32,
        0x923f82a4u32,
        0xab1c5ed5u32,
        0xd807aa98u32,
        0x12835b01u32,
        0x243185beu32,
        0x550c7dc3u32,
        0x72be5d74u32,
        0x80deb1feu32,
        0x9bdc06a7u32,
        0xc19bf174u32,
        0xe49b69c1u32,
        0xefbe4786u32,
        0x0fc19dc6u32,
        0x240ca1ccu32,
        0x2de92c6fu32,
        0x4a7484aau32,
        0x5cb0a9dcu32,
        0x76f988dau32,
        0x983e5152u32,
        0xa831c66du32,
        0xb00327c8u32,
        0xbf597fc7u32,
        0xc6e00bf3u32,
        0xd5a79147u32,
        0x06ca6351u32,
        0x14292967u32,
        0x27b70a85u32,
        0x2e1b2138u32,
        0x4d2c6dfcu32,
        0x53380d13u32,
        0x650a7354u32,
        0x766a0abbu32,
        0x81c2c92eu32,
        0x92722c85u32,
        0xa2bfe8a1u32,
        0xa81a664bu32,
        0xc24b8b70u32,
        0xc76c51a3u32,
        0xd192e819u32,
        0xd6990624u32,
        0xf40e3585u32,
        0x106aa070u32,
        0x19a4c116u32,
        0x1e376c08u32,
        0x2748774cu32,
        0x34b0bcb5u32,
        0x391c0cb3u32,
        0x4ed8aa4au32,
        0x5b9cca4fu32,
        0x682e6ff3u32,
        0x748f82eeu32,
        0x78a5636fu32,
        0x84c87814u32,
        0x8cc70208u32,
        0x90befffau32,
        0xa4506cebu32,
        0xbef9a3f7u32,
        0xc67178f2u32,
    ]
}

/// The message-schedule sigma functions and the compression sigma functions,
/// as spec-level counterparts of the executable ones.
pub open spec fn small_sigma0_spec(x: u32) -> u32 {
    rotr32_spec(x, 7) ^ rotr32_spec(x, 18) ^ (x >> 3)
}

pub open spec fn small_sigma1_spec(x: u32) -> u32 {
    rotr32_spec(x, 17) ^ rotr32_spec(x, 19) ^ (x >> 10)
}

pub open spec fn big_sigma0_spec(x: u32) -> u32 {
    rotr32_spec(x, 2) ^ rotr32_spec(x, 13) ^ rotr32_spec(x, 22)
}

pub open spec fn big_sigma1_spec(x: u32) -> u32 {
    rotr32_spec(x, 6) ^ rotr32_spec(x, 11) ^ rotr32_spec(x, 25)
}

pub open spec fn ch_spec(e: u32, f: u32, g: u32) -> u32 {
    (e & f) ^ ((!e) & g)
}

pub open spec fn maj_spec(a: u32, b: u32, c: u32) -> u32 {
    (a & b) ^ (a & c) ^ (b & c)
}

/// Word `i` of the message schedule over the 16 block words `m`.
pub open spec fn w_spec(m: Seq<u32>, i: int) -> u32
    decreases i,
{
    if i < 16 {
        m[i]
    } else {
        wadd32(
            wadd32(
                wadd32(w_spec(m, i - 16), small_sigma0_spec(w_spec(m, i - 15))),
                w_spec(m, i - 7),
            ),
            small_sigma1_spec(w_spec(m, i - 2)),
        )
    }
}

/// One compression round on the eight-word state.
pub open spec fn round256(st: Seq<u32>, w: u32, k: u32) -> Seq<u32> {
    let t1 = wadd32(
        wadd32(wadd32(wadd32(st[7], big_sigma1_spec(st[4])), ch_spec(st[4], st[5], st[6])), k),
        w,
    );
    let t2 = wadd32(big_sigma0_spec(st[0]), maj_spec(st[0], st[1], st[2]));
    seq![
        wadd32(t1, t2),
        st[0],
        st[1],
        st[2],
        wadd32(st[3], t1),
        st[4],
        st[5],
        st[6],
    ]
}

/// The state after the first `n` rounds over the schedule `w`.
pub open spec fn rounds256(st: Seq<u32>, w: Seq<u32>, n: int) -> Seq<u32>
    decreases n,
{
    if n <= 0 {
        st
    } else {
        round256(rounds256(st, w, n - 1), w[n - 1], k256_seq()[n - 1])
    }
}

/// Right rotation of a 32-bit word by `n` bits.
pub fn rotr32(x: u32, n: u32) -> (r: u32)
    requires
        1 <= n < 32,
    ensures
        r == rotr32_spec(x, n),
{
    (x >> n) | (x << (32 - n))
}

/// Round constant `i`.
pub fn k256(i: usize) -> (k: u32)
    requires
        i < 64,
    ensures
        k == k256_seq()[i as int],
{
    let k: u32 = match i {
        0 => 0x428a2f98,
        1 => 0x71374491,
        2 => 0xb5c0fbcf,
        3 => 0xe9b5dba5,
        4 => 0x3956c25b,
        5 => 0x59f111f1,
        6 => 0x923f82a4,
        7 => 0xab1c5ed5,
        8 => 0xd807aa98,
        9 => 0x12835b01,
        10 => 0x243185be,
        11 => 0x550c7dc3,
        12 => 0x72be5d74,
        13 => 0x80deb1fe,
        14 => 0x9bdc06a7,
        15 => 0xc19bf174,
        16 => 0xe49b69c1,
        17 => 0xefbe4786,
        18 => 0x0fc19dc6,
        19 => 0x240ca1cc,
        20 => 0x2de92c6f,
        21 => 0x4a7484aa,
        22 => 0x5cb0a9dc,
        23 => 0x76f988da,
        24 => 0x983e5152,
        25 => 0xa831c66d,
        26 => 0xb00327c8,
        27 => 0xbf597fc7,
        28 => 0xc6e00bf3,
        29 => 0xd5a79147,
        30 => 0x06ca6351,
        31 => 0x14292967,
        32 => 0x27b70a85,
        33 => 0x2e1b2138,
        34 => 0x4d2c6dfc,
        35 => 0x53380d13,
        36 => 0x650a7354,
        37 => 0x766a0abb,
        38 => 0x81c2c92e,
        39 => 0x92722c85,
        40 => 0xa2bfe8a1,
        41 => 0xa81a664b,
        42 => 0xc24b8b70,
        43 => 0xc76c51a3,
        44 => 0xd192e819,
        45 => 0xd6990624,
        46 => 0xf40e3585,
        47 => 0x106aa070,
        48 => 0x19a4c116,
        49 => 0x1e376c08,
        50 => 0x2748774c,
        51 => 0x34b0bcb5,
        52 => 0x391c0cb3,
        53 => 0x4ed8aa4a,
        54 => 0x5b9cca4f,
        55 => 0x682e6ff3,
        56 => 0x748f82ee,
        57 => 0x78a5636f,
        58 => 0x84c87814,
        59 => 0x8cc70208,
        60 => 0x90befffa,
        61 => 0xa4506ceb,
        62 => 0xbef9a3f7,
        63 => 0xc67178f2,
        _ => 0,
    };
    k
}

/// The first message-schedule sigma function.
pub fn small_sigma0(x: u32) -> (r: u32)
    ensures
        r == small_sigma0_spec(x),
{
    rotr32(x, 7) ^ rotr32(x, 18) ^ (x >> 3)
}

/// The second message-schedule sigma function.
pub fn small_sigma1(x: u32) -> (r: u32)
    ensures
        r == small_sigma1_spec(x),
{
    rotr32(x, 17) ^ rotr32(x, 19) ^ (x >> 10)
}

/// The first compression sigma function.
pub fn big_sigma0(x: u32) -> (r: u32)
    ensures
        r == big_sigma0_spec(x),
{
    rotr32(x, 2) ^ rotr32(x, 13) ^ rotr32(x, 22)
}

/// The second compression sigma function.
pub fn big_sigma1(x: u32) -> (r: u32)
    ensures
        r == big_sigma1_spec(x),
{
    rotr32(x, 6) ^ rotr32(x, 11) ^ rotr32(x, 25)
}

/// The choice function: bits of `f` where `e` is set, of `g` elsewhere.
pub fn ch(e: u32, f: u32, g: u32) -> (r: u32)
    ensures
        r == ch_spec(e, f, g),
{
    (e & f) ^ ((!e) & g)
}

/// The majority function: each bit is the majority vote of the three inputs.
pub fn maj(a: u32, b: u32, c: u32) -> (r: u32)
    ensures
        r == maj_spec(a, b, c),
{
    (a & b) ^ (a & c) ^ (b & c)
}

/// Expands the 16 block words in `w[0..16]` to the full 64-word schedule.
#[verifier::loop_isolation(false)]
pub fn expand_w(w: &mut Vec<u32>)
    requires
        old(w)@.len() == 64,
    ensures
        final(w)@.len() == 64,
        forall|i: int| 0 <= i < 64 ==> final(w)@[i] == w_spec(old(w)@.subrange(0, 16), i),
{
    let ghost m = old(w)@.subrange(0, 16);
    let mut i: usize = 16;
    while i < 64
        invariant
            16 <= i <= 64,
            w@.len() == 64,
            forall|k: int| 0 <= k < i ==> w@[k] == w_spec(m, k),
            forall|k: int| i <= k < 64 ==> w@[k] == old(w)@[k],
        decreases 64 - i,
    {
        let val = w[i - 16]
            .wrapping_add(small_sigma0(w[i - 15]))
            .wrapping_add(w[i - 7])
            .wrapping_add(small_sigma1(w[i - 2]));
        w[i] = val;
        proof {
            assert(w@[i as int] == wadd32(
                wadd32(
                    wadd32(w_spec(m, i as int - 16), small_sigma0_spec(w_spec(m, i as int - 15))),
                    w_spec(m, i as int - 7),
                ),
                small_sigma1_spec(w_spec(m, i as int - 2)),
            ));
            assert(w@[i as int] == w_spec(m, i as int));
        }
        i += 1;
    }
}

/// Runs the 64 compression rounds and returns the rotated state (without the
/// final feed-forward addition).
#[verifier::loop_isolation(false)]
pub fn all_rounds(state: &Vec<u32>, w: &Vec<u32>) -> (out: Vec<u32>)
    requires
        state@.len() == 8,
        w@.len() == 64,
    ensures
        out@ == rounds256(state@, w@, 64),
        out@.len() == 8,
{
    let mut a = state[0];
    let mut b = state[1];
    let mut c = state[2];
    let mut d = state[3];
    let mut e = state[4];
    let mut f = state[5];
    let mut g = state[6];
    let mut h = state[7];
    assert(seq![a, b, c, d, e, f, g, h] =~= rounds256(state@, w@, 0));

    let mut i: usize = 0;
    while i < 64
        invariant
            i <= 64,
            seq![a, b, c, d, e, f, g, h] == rounds256(state@, w@, i as int),
        decreases 64 - i,
    {
        let wi = w[i];
        let ki = k256(i);

        let t1 = h
            .wrapping_add(big_sigma1(e))
            .wrapping_add(ch(e, f, g))
            .wrapping_add(ki)
            .wrapping_add(wi);
        let t2 = big_sigma0(a).wrapping_add(maj(a, b, c));

        h = g;
        g = f;
        f = e;
        e = d.wrapping_add(t1);
        d = c;
        c = b;
        b = a;
        a = t1.wrapping_add(t2);

        proof {
            assert(seq![a, b, c, d, e, f, g, h] =~= round256(
                rounds256(state@, w@, i as int),
                wi,
                ki,
            ));
        }
        i += 1;
    }

    let mut out: Vec<u32> = Vec::new();
    out.push(a);
    out.push(b);
    out.push(c);
    out.push(d);
    out.push(e);
    out.push(f);
    out.push(g);
    out.push(h);
    assert(out@ =~= rounds256(state@, w@, 64));
    out
}

} // verus!
