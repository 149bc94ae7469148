use vstd::prelude::*;

use vstd::bits::lemma_u64_shr_is_div;

use crate::signatures::ed25519::field::FieldElement;

verus! {

/// An Edwards-curve point in projective coordinates `(X : Y : Z)`.
#[derive(Clone, Copy)]
pub struct GeP2 {
    pub x: FieldElement,
    pub y: FieldElement,
    pub z: FieldElement,
}

/// An Edwards-curve point in extended coordinates `(X : Y : Z : T)` with
/// `X * Y == Z * T`.
#[derive(Clone, Copy)]
pub struct GeP3 {
    pub x: FieldElement,
    pub y: FieldElement,
    pub z: FieldElement,
    pub t: FieldElement,
}

/// The completed form of an addition or doubling, before the multiplications
/// that project it back.
#[derive(Clone, Copy)]
pub struct GeP1P1 {
    pub x: FieldElement,
    pub y: FieldElement,
    pub z: FieldElement,
    pub t: FieldElement,
}

/// A point preprocessed for repeated addition.
#[derive(Clone, Copy)]
pub struct GeCached {
    pub yplusx: FieldElement,
    pub yminusx: FieldElement,
    pub z: FieldElement,
    pub t2d: FieldElement,
}

/// A precomputed affine point for table lookups.
#[derive(Clone, Copy)]
pub struct GePrecomp {
    pub yplusx: FieldElement,
    pub yminusx: FieldElement,
    pub xy2d: FieldElement,
}

/// One exactly when the two bytes are equal, zero otherwise, computed
/// without a branch.
pub fn equal(b: i8, c: i8) -> (r: u8)
    ensures
        r == (if b == c {
            1u8
        } else {
            0u8
        }),
{
    let ub = b as u8;
    let uc = c as u8;
    let x = ub ^ uc;
    let y: u64 = x as u64;
    let y1 = y.wrapping_sub(1);
    let r = (y1 >> 63) as u8;
    proof {
        assert((ub ^ uc == 0) == (b == c)) by (bit_vector)
            requires
                ub == b as u8,
                uc == c as u8,
        ;
        if x == 0 {
            assert(y1 == 0xFFFF_FFFF_FFFF_FFFFu64);
            assert(0xFFFF_FFFF_FFFF_FFFFu64 >> 63u64 == 1u64) by (bit_vector);
        } else {
            assert(y1 == x - 1);
            lemma_u64_shr_is_div(y1, 63);
            assert(vstd::arithmetic::power2::pow2(63) == 0x8000_0000_0000_0000) by {
                vstd::arithmetic::power2::lemma2_to64_rest();
            }
        }
    }
    r
}

/// One exactly when the byte is negative, zero otherwise, computed without a
/// branch.
pub fn negative(b: i8) -> (r: u8)
    ensures
        r == (if b < 0 {
            1u8
        } else {
            0u8
        }),
{
    let x: u64 = b as i64 as u64;
    let r = (x >> 63) as u8;
    proof {
        assert(((b as i64 as u64) >> 63u64) == (if b < 0 {
            1u64
        } else {
            0u64
        })) by (bit_vector);
    }
    r
}

/// Overwrites `t` with `u` exactly when `b` is one, field by field.
pub fn cmov(t: &mut GePrecomp, u: &GePrecomp, b: u8)
    requires
        b == 0 || b == 1,
    ensures
        b == 1 ==> final(t).yplusx.0@ == u.yplusx.0@ && final(t).yminusx.0@ == u.yminusx.0@
            && final(t).xy2d.0@ == u.xy2d.0@,
        b == 0 ==> final(t).yplusx.0@ == old(t).yplusx.0@ && final(t).yminusx.0@ == old(
            t,
        ).yminusx.0@ && final(t).xy2d.0@ == old(t).xy2d.0@,
{
    t.yplusx.conditional_move(&u.yplusx, b as u32);
    t.yminusx.conditional_move(&u.yminusx, b as u32);
    t.xy2d.conditional_move(&u.xy2d, b as u32);
}

/// Sets `h` to the neutral element `(0 : 1 : 1)`.
pub fn ge_p2_0(h: &mut GeP2)
    ensures
        forall|k: int| 0 <= k < 10 ==> final(h).x.0@[k] == 0i32,
        final(h).y.0@[0] == 1i32 && forall|k: int| 1 <= k < 10 ==> final(h).y.0@[k] == 0i32,
        final(h).z.0@[0] == 1i32 && forall|k: int| 1 <= k < 10 ==> final(h).z.0@[k] == 0i32,
{
    h.x = FieldElement::zero();
    h.y = FieldElement::one();
    h.z = FieldElement::one();
}

/// Sets `h` to the neutral element `(0 : 1 : 1 : 0)`.
pub fn ge_p3_0(h: &mut GeP3)
    ensures
        forall|k: int| 0 <= k < 10 ==> final(h).x.0@[k] == 0i32,
        final(h).y.0@[0] == 1i32 && forall|k: int| 1 <= k < 10 ==> final(h).y.0@[k] == 0i32,
        final(h).z.0@[0] == 1i32 && forall|k: int| 1 <= k < 10 ==> final(h).z.0@[k] == 0i32,
        forall|k: int| 0 <= k < 10 ==> final(h).t.0@[k] == 0i32,
{
    h.x = FieldElement::zero();
    h.y = FieldElement::one();
    h.z = FieldElement::one();
    h.t = FieldElement::zero();
}

/// Projects an extended point back to projective coordinates by dropping the
/// auxiliary coordinate.
pub fn ge_p3_to_p2(r: &mut GeP2, p: &GeP3)
    ensures
        final(r).x == p.x,
        final(r).y == p.y,
        final(r).z == p.z,
{
    r.x = p.x;
    r.y = p.y;
    r.z = p.z;
}

} // verus!
