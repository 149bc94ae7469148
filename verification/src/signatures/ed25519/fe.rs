use vstd::prelude::*;

use vstd::arithmetic::div_mod::lemma_fundamental_div_mod;
use vstd::arithmetic::power2::lemma2_to64;
use vstd::bits::{lemma_u64_shl_is_mul, lemma_u64_shr_is_div};
use vstd::slice::slice_subrange;

verus! {

/// A field element of GF(2^255 - 19) in the ten-limb representation: limb
/// `i` carries weight `2^ceil(25.5 * i)`.
pub type FE = [i32; 10];

/// The little-endian value of three bytes.
pub open spec fn load3_int(s: Seq<u8>, i: int) -> int {
    s[i] + 256 * s[i + 1] + 65536 * s[i + 2]
}

/// The little-endian value of four bytes.
pub open spec fn load4_int(s: Seq<u8>, i: int) -> int {
    s[i] + 256 * s[i + 1] + 65536 * s[i + 2] + 16777216 * s[i + 3]
}

/// Loads three little-endian bytes into the low bits of a word.
pub fn load_3(input: &[u8]) -> (r: u64)
    requires
        input@.len() >= 3,
    ensures
        r as int == load3_int(input@, 0),
        r < 0x1_000000,
{
    let b0 = input[0];
    let b1 = input[1];
    let b2 = input[2];
    let r = (b0 as u64) | ((b1 as u64) << 8) | ((b2 as u64) << 16);
    proof {
        assert(r == b0 + 256 * b1 + 65536 * b2 && r < 0x1_000000u64) by (bit_vector)
            requires
                r == (b0 as u64) | ((b1 as u64) << 8) | ((b2 as u64) << 16),
        ;
    }
    r
}

/// Loads four little-endian bytes into the low bits of a word.
pub fn load_4(input: &[u8]) -> (r: u64)
    requires
        input@.len() >= 4,
    ensures
        r as int == load4_int(input@, 0),
        r < 0x1_0000_0000,
{
    let b0 = input[0];
    let b1 = input[1];
    let b2 = input[2];
    let b3 = input[3];
    let r = (b0 as u64) | ((b1 as u64) << 8) | ((b2 as u64) << 16) | ((b3 as u64) << 24);
    proof {
        assert(r == b0 + 256 * b1 + 65536 * b2 + 16777216 * b3 && r < 0x1_0000_0000u64)
            by (bit_vector)
            requires
                r == (b0 as u64) | ((b1 as u64) << 8) | ((b2 as u64) << 16) | ((b3 as u64) << 24),
        ;
    }
    r
}

/// Sets `h` to zero.
pub fn fe_0(h: &mut FE)
    ensures
        forall|k: int| 0 <= k < 10 ==> final(h)@[k] == 0i32,
{
    *h = [0; 10];
}

/// Sets `h` to one.
pub fn fe_1(h: &mut FE)
    ensures
        final(h)@[0] == 1i32,
        forall|k: int| 1 <= k < 10 ==> final(h)@[k] == 0i32,
{
    *h = [1, 0, 0, 0, 0, 0, 0, 0, 0, 0];
}


/// Copies `f` into `h`.
pub fn fe_copy(h: &mut FE, f: &FE)
    ensures
        final(h)@ == f@,
{
    let f0 = f[0];
    let f1 = f[1];
    let f2 = f[2];
    let f3 = f[3];
    let f4 = f[4];
    let f5 = f[5];
    let f6 = f[6];
    let f7 = f[7];
    let f8 = f[8];
    let f9 = f[9];
    *h = [f0, f1, f2, f3, f4, f5, f6, f7, f8, f9];
    assert(h@ =~= f@);
}

/// Limb-wise sum: `h = f + g`.
pub fn fe_add(h: &mut FE, f: &FE, g: &FE)
    requires
        forall|k: int| #![trigger f@[k]] 0 <= k < 10 ==> i32::MIN <= f@[k] + g@[k] <= i32::MAX,
    ensures
        forall|k: int| #![trigger final(h)@[k]] 0 <= k < 10 ==> final(h)@[k] == f@[k] + g@[k],
{
    let h0 = f[0] + g[0];
    let h1 = f[1] + g[1];
    let h2 = f[2] + g[2];
    let h3 = f[3] + g[3];
    let h4 = f[4] + g[4];
    let h5 = f[5] + g[5];
    let h6 = f[6] + g[6];
    let h7 = f[7] + g[7];
    let h8 = f[8] + g[8];
    let h9 = f[9] + g[9];
    *h = [h0, h1, h2, h3, h4, h5, h6, h7, h8, h9];
}

/// Limb-wise difference: `h = f - g`.
pub fn fe_sub(h: &mut FE, f: &FE, g: &FE)
    requires
        forall|k: int| #![trigger f@[k]] 0 <= k < 10 ==> i32::MIN <= f@[k] - g@[k] <= i32::MAX,
    ensures
        forall|k: int| #![trigger final(h)@[k]] 0 <= k < 10 ==> final(h)@[k] == f@[k] - g@[k],
{
    let h0 = f[0] - g[0];
    let h1 = f[1] - g[1];
    let h2 = f[2] - g[2];
    let h3 = f[3] - g[3];
    let h4 = f[4] - g[4];
    let h5 = f[5] - g[5];
    let h6 = f[6] - g[6];
    let h7 = f[7] - g[7];
    let h8 = f[8] - g[8];
    let h9 = f[9] - g[9];
    *h = [h0, h1, h2, h3, h4, h5, h6, h7, h8, h9];
}

/// Limb-wise negation: `h = -f`.
pub fn fe_neg(h: &mut FE, f: &FE)
    requires
        forall|k: int| 0 <= k < 10 ==> #[trigger] f@[k] > i32::MIN,
    ensures
        forall|k: int| #![trigger final(h)@[k]] 0 <= k < 10 ==> final(h)@[k] == -f@[k],
{
    let h0 = -f[0];
    let h1 = -f[1];
    let h2 = -f[2];
    let h3 = -f[3];
    let h4 = -f[4];
    let h5 = -f[5];
    let h6 = -f[6];
    let h7 = -f[7];
    let h8 = -f[8];
    let h9 = -f[9];
    *h = [h0, h1, h2, h3, h4, h5, h6, h7, h8, h9];
}

/// A zero mask keeps the first word, an all-ones mask selects the second.
pub proof fn lemma_mask_select()
    ensures
        forall|a: i32, b: i32| #[trigger] (a ^ ((a ^ b) & 0i32)) == a,
        forall|a: i32, b: i32| #[trigger] (a ^ ((a ^ b) & -1i32)) == b,
        forall|a: i32, b: i32| #[trigger] (b ^ ((a ^ b) & 0i32)) == b,
        forall|a: i32, b: i32| #[trigger] (b ^ ((a ^ b) & -1i32)) == a,
{
    assert forall|a: i32, b: i32| #[trigger] (a ^ ((a ^ b) & 0i32)) == a by {
        assert(a ^ ((a ^ b) & 0i32) == a) by (bit_vector);
    }
    assert forall|a: i32, b: i32| #[trigger] (a ^ ((a ^ b) & -1i32)) == b by {
        assert(a ^ ((a ^ b) & -1i32) == b) by (bit_vector);
    }
    assert forall|a: i32, b: i32| #[trigger] (b ^ ((a ^ b) & 0i32)) == b by {
        assert(b ^ ((a ^ b) & 0i32) == b) by (bit_vector);
    }
    assert forall|a: i32, b: i32| #[trigger] (b ^ ((a ^ b) & -1i32)) == a by {
        assert(b ^ ((a ^ b) & -1i32) == a) by (bit_vector);
    }
}

/// Overwrites `f` with `g` exactly when `b` is one, by masked XOR.
pub fn fe_cmov(f: &mut FE, g: &FE, b: u32)
    requires
        b == 0 || b == 1,
    ensures
        b == 1 ==> final(f)@ == g@,
        b == 0 ==> final(f)@ == old(f)@,
{
    proof {
        lemma_mask_select();
    }
    let bm: i32 = -(b as i32);
    let x0 = (f[0] ^ g[0]) & bm;
    let x1 = (f[1] ^ g[1]) & bm;
    let x2 = (f[2] ^ g[2]) & bm;
    let x3 = (f[3] ^ g[3]) & bm;
    let x4 = (f[4] ^ g[4]) & bm;
    let x5 = (f[5] ^ g[5]) & bm;
    let x6 = (f[6] ^ g[6]) & bm;
    let x7 = (f[7] ^ g[7]) & bm;
    let x8 = (f[8] ^ g[8]) & bm;
    let x9 = (f[9] ^ g[9]) & bm;
    *f = [
        f[0] ^ x0,
        f[1] ^ x1,
        f[2] ^ x2,
        f[3] ^ x3,
        f[4] ^ x4,
        f[5] ^ x5,
        f[6] ^ x6,
        f[7] ^ x7,
        f[8] ^ x8,
        f[9] ^ x9,
    ];
    proof {
        if b == 1 {
            assert(f@ =~= g@);
        } else {
            assert(f@ =~= old(f)@);
        }
    }
}

/// Swaps `f` and `g` exactly when `b` is one, by masked XOR.
pub fn fe_cswap(f: &mut FE, g: &mut FE, b: u32)
    requires
        b == 0 || b == 1,
    ensures
        b == 1 ==> final(f)@ == old(g)@ && final(g)@ == old(f)@,
        b == 0 ==> final(f)@ == old(f)@ && final(g)@ == old(g)@,
{
    proof {
        lemma_mask_select();
    }
    let bm: i32 = -(b as i32);
    let x0 = (f[0] ^ g[0]) & bm;
    let x1 = (f[1] ^ g[1]) & bm;
    let x2 = (f[2] ^ g[2]) & bm;
    let x3 = (f[3] ^ g[3]) & bm;
    let x4 = (f[4] ^ g[4]) & bm;
    let x5 = (f[5] ^ g[5]) & bm;
    let x6 = (f[6] ^ g[6]) & bm;
    let x7 = (f[7] ^ g[7]) & bm;
    let x8 = (f[8] ^ g[8]) & bm;
    let x9 = (f[9] ^ g[9]) & bm;
    *f = [
        f[0] ^ x0,
        f[1] ^ x1,
        f[2] ^ x2,
        f[3] ^ x3,
        f[4] ^ x4,
        f[5] ^ x5,
        f[6] ^ x6,
        f[7] ^ x7,
        f[8] ^ x8,
        f[9] ^ x9,
    ];
    *g = [
        g[0] ^ x0,
        g[1] ^ x1,
        g[2] ^ x2,
        g[3] ^ x3,
        g[4] ^ x4,
        g[5] ^ x5,
        g[6] ^ x6,
        g[7] ^ x7,
        g[8] ^ x8,
        g[9] ^ x9,
    ];
    proof {
        if b == 1 {
            assert(f@ =~= old(g)@);
            assert(g@ =~= old(f)@);
        } else {
            assert(f@ =~= old(f)@);
            assert(g@ =~= old(g)@);
        }
    }
}


/// The limbs decoded from 32 bytes: the 255-bit little-endian value is cut
/// into ten limbs of alternating 26 and 25 bits (the top bit is masked off),
/// then one round of carries brings every limb into signed reduced range,
/// with the carry out of the top limb folded back in with weight 19.
pub open spec fn fe_frombytes_spec(s: Seq<u8>) -> Seq<int> {
    let t0 = load4_int(s, 0);
    let t1 = load3_int(s, 4) * 64;
    let t2 = load3_int(s, 7) * 32;
    let t3 = load3_int(s, 10) * 8;
    let t4 = load3_int(s, 13) * 4;
    let t5 = load4_int(s, 16);
    let t6 = load3_int(s, 20) * 128;
    let t7 = load3_int(s, 23) * 32;
    let t8 = load3_int(s, 26) * 16;
    let t9 = (load3_int(s, 29) % 8388608) * 4;
    let c9 = (t9 + 16777216) / 33554432;
    let u0 = t0 + c9 * 19;
    let u9 = t9 - c9 * 33554432;
    let c1 = (t1 + 16777216) / 33554432;
    let u2 = t2 + c1;
    let u1 = t1 - c1 * 33554432;
    let c3 = (t3 + 16777216) / 33554432;
    let u4 = t4 + c3;
    let u3 = t3 - c3 * 33554432;
    let c5 = (t5 + 16777216) / 33554432;
    let u6 = t6 + c5;
    let u5 = t5 - c5 * 33554432;
    let c7 = (t7 + 16777216) / 33554432;
    let u8r = t8 + c7;
    let u7 = t7 - c7 * 33554432;
    let c0 = (u0 + 33554432) / 67108864;
    let v1 = u1 + c0;
    let v0 = u0 - c0 * 67108864;
    let c2 = (u2 + 33554432) / 67108864;
    let v3 = u3 + c2;
    let v2 = u2 - c2 * 67108864;
    let c4 = (u4 + 33554432) / 67108864;
    let v5 = u5 + c4;
    let v4 = u4 - c4 * 67108864;
    let c6 = (u6 + 33554432) / 67108864;
    let v7 = u7 + c6;
    let v6 = u6 - c6 * 67108864;
    let c8 = (u8r + 33554432) / 67108864;
    let v9 = u9 + c8;
    let v8 = u8r - c8 * 67108864;
    seq![v0, v1, v2, v3, v4, v5, v6, v7, v8, v9]
}

/// Decodes 32 bytes into the ten-limb representation.
#[verifier::rlimit(100)]
pub fn fe_frombytes(h: &mut FE, s: &[u8; 32])
    ensures
        forall|k: int| #![trigger final(h)@[k]] 0 <= k < 10 ==> final(h)@[k]
            == fe_frombytes_spec(s@)[k],
{
    let sl = s.as_slice();
    proof {
        lemma2_to64();
    }
    let l0 = load_4(slice_subrange(sl, 0, 32));
    let l1 = load_3(slice_subrange(sl, 4, 32));
    let l2 = load_3(slice_subrange(sl, 7, 32));
    let l3 = load_3(slice_subrange(sl, 10, 32));
    let l4 = load_3(slice_subrange(sl, 13, 32));
    let l5 = load_4(slice_subrange(sl, 16, 32));
    let l6 = load_3(slice_subrange(sl, 20, 32));
    let l7 = load_3(slice_subrange(sl, 23, 32));
    let l8 = load_3(slice_subrange(sl, 26, 32));
    let l9raw = load_3(slice_subrange(sl, 29, 32));
    let l9m = l9raw & 8388607;

    proof {
        assert(l9m == l9raw % 8388608 && l9m < 0x800000u64) by (bit_vector)
            requires
                l9m == l9raw & 8388607u64,
        ;
        lemma_u64_shl_is_mul(l1, 6);
        lemma_u64_shl_is_mul(l2, 5);
        lemma_u64_shl_is_mul(l3, 3);
        lemma_u64_shl_is_mul(l4, 2);
        lemma_u64_shl_is_mul(l6, 7);
        lemma_u64_shl_is_mul(l7, 5);
        lemma_u64_shl_is_mul(l8, 4);
        lemma_u64_shl_is_mul(l9m, 2);
        assert(load4_int(sl@.subrange(0, 32), 0) == load4_int(s@, 0));
        assert(load3_int(sl@.subrange(4, 32), 0) == load3_int(s@, 4));
        assert(load3_int(sl@.subrange(7, 32), 0) == load3_int(s@, 7));
        assert(load3_int(sl@.subrange(10, 32), 0) == load3_int(s@, 10));
        assert(load3_int(sl@.subrange(13, 32), 0) == load3_int(s@, 13));
        assert(load4_int(sl@.subrange(16, 32), 0) == load4_int(s@, 16));
        assert(load3_int(sl@.subrange(20, 32), 0) == load3_int(s@, 20));
        assert(load3_int(sl@.subrange(23, 32), 0) == load3_int(s@, 23));
        assert(load3_int(sl@.subrange(26, 32), 0) == load3_int(s@, 26));
        assert(load3_int(sl@.subrange(29, 32), 0) == load3_int(s@, 29));
    }

    let t0 = l0;
    let t1 = l1 << 6;
    let t2 = l2 << 5;
    let t3 = l3 << 3;
    let t4 = l4 << 2;
    let t5 = l5;
    let t6 = l6 << 7;
    let t7 = l7 << 5;
    let t8 = l8 << 4;
    let t9 = l9m << 2;

    let a9 = t9 + 16777216;
    let c9 = a9 >> 25;
    proof {
        lemma_u64_shr_is_div(a9, 25);
        lemma_fundamental_div_mod(a9 as int, 33554432);
    }
    let u0 = t0 + c9 * 19;
    let u9 = (t9 as i64) - ((c9 as i64) * 33554432);

    let a1 = t1 + 16777216;
    let c1 = a1 >> 25;
    proof {
        lemma_u64_shr_is_div(a1, 25);
        lemma_fundamental_div_mod(a1 as int, 33554432);
    }
    let u2 = t2 + c1;
    let u1 = (t1 as i64) - ((c1 as i64) * 33554432);

    let a3 = t3 + 16777216;
    let c3 = a3 >> 25;
    proof {
        lemma_u64_shr_is_div(a3, 25);
        lemma_fundamental_div_mod(a3 as int, 33554432);
    }
    let u4 = t4 + c3;
    let u3 = (t3 as i64) - ((c3 as i64) * 33554432);

    let a5 = t5 + 16777216;
    let c5 = a5 >> 25;
    proof {
        lemma_u64_shr_is_div(a5, 25);
        lemma_fundamental_div_mod(a5 as int, 33554432);
    }
    let u6 = t6 + c5;
    let u5 = (t5 as i64) - ((c5 as i64) * 33554432);

    let a7 = t7 + 16777216;
    let c7 = a7 >> 25;
    proof {
        lemma_u64_shr_is_div(a7, 25);
        lemma_fundamental_div_mod(a7 as int, 33554432);
    }
    let u8r = t8 + c7;
    let u7 = (t7 as i64) - ((c7 as i64) * 33554432);

    let a0 = u0 + 33554432;
    let c0 = a0 >> 26;
    proof {
        lemma_u64_shr_is_div(a0, 26);
        lemma_fundamental_div_mod(a0 as int, 67108864);
    }
    let v1 = u1 + (c0 as i64);
    let v0 = (u0 as i64) - ((c0 as i64) * 67108864);

    let a2 = u2 + 33554432;
    let c2 = a2 >> 26;
    proof {
        lemma_u64_shr_is_div(a2, 26);
        lemma_fundamental_div_mod(a2 as int, 67108864);
    }
    let v3 = u3 + (c2 as i64);
    let v2 = (u2 as i64) - ((c2 as i64) * 67108864);

    let a4 = u4 + 33554432;
    let c4 = a4 >> 26;
    proof {
        lemma_u64_shr_is_div(a4, 26);
        lemma_fundamental_div_mod(a4 as int, 67108864);
    }
    let v5 = u5 + (c4 as i64);
    let v4 = (u4 as i64) - ((c4 as i64) * 67108864);

    let a6 = u6 + 33554432;
    let c6 = a6 >> 26;
    proof {
        lemma_u64_shr_is_div(a6, 26);
        lemma_fundamental_div_mod(a6 as int, 67108864);
    }
    let v7 = u7 + (c6 as i64);
    let v6 = (u6 as i64) - ((c6 as i64) * 67108864);

    let a8 = u8r + 33554432;
    let c8 = a8 >> 26;
    proof {
        lemma_u64_shr_is_div(a8, 26);
        lemma_fundamental_div_mod(a8 as int, 67108864);
    }
    let v9 = u9 + (c8 as i64);
    let v8 = (u8r as i64) - ((c8 as i64) * 67108864);

    *h = [
        v0 as i32,
        v1 as i32,
        v2 as i32,
        v3 as i32,
        v4 as i32,
        v5 as i32,
        v6 as i32,
        v7 as i32,
        v8 as i32,
        v9 as i32,
    ];
}

} // verus!
