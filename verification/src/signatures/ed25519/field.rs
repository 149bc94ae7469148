use vstd::prelude::*;

use crate::signatures::ed25519::fe::lemma_mask_select;

verus! {

/// The little-endian value of three bytes.
pub open spec fn load3_val(s: Seq<u8>) -> int {
    s[0] + 256 * s[1] + 65536 * s[2]
}

/// The little-endian value of four bytes.
pub open spec fn load4_val(s: Seq<u8>) -> int {
    s[0] + 256 * s[1] + 65536 * s[2] + 16777216 * s[3]
}

/// Loads three little-endian bytes into the low bits of a word.
pub fn load_3(input: &[u8]) -> (r: u64)
    requires
        input@.len() >= 3,
    ensures
        r as int == load3_val(input@),
        r < 0x1_000000,
{
    crate::signatures::ed25519::fe::load_3(input)
}

/// Loads four little-endian bytes into the low bits of a word.
pub fn load_4(input: &[u8]) -> (r: u64)
    requires
        input@.len() >= 4,
    ensures
        r as int == load4_val(input@),
        r < 0x1_0000_0000,
{
    crate::signatures::ed25519::fe::load_4(input)
}

/// A field element of GF(2^255 - 19), stored as ten signed limbs.
#[derive(Clone, Copy, Debug)]
pub struct FieldElement(pub [i32; 10]);

impl FieldElement {
    /// The zero element.
    pub fn zero() -> (r: Self)
        ensures
            forall|k: int| 0 <= k < 10 ==> r.0@[k] == 0i32,
    {
        FieldElement([0; 10])
    }

    /// The one element.
    pub fn one() -> (r: Self)
        ensures
            r.0@[0] == 1i32,
            forall|k: int| 1 <= k < 10 ==> r.0@[k] == 0i32,
    {
        FieldElement([1, 0, 0, 0, 0, 0, 0, 0, 0, 0])
    }

    /// Swaps `self` and `rhs` exactly when `condition` is one, by masked XOR.
    pub fn swap(&mut self, rhs: &mut Self, condition: u32)
        requires
            condition == 0 || condition == 1,
        ensures
            condition == 1 ==> final(self).0@ == old(rhs).0@ && final(rhs).0@ == old(self).0@,
            condition == 0 ==> final(self).0@ == old(self).0@ && final(rhs).0@ == old(rhs).0@,
    {
        let mask: i32 = -(condition as i32);
        proof {
            lemma_mask_select();
        }
        let s0 = self.0[0] ^ ((self.0[0] ^ rhs.0[0]) & mask);
        let s1 = self.0[1] ^ ((self.0[1] ^ rhs.0[1]) & mask);
        let s2 = self.0[2] ^ ((self.0[2] ^ rhs.0[2]) & mask);
        let s3 = self.0[3] ^ ((self.0[3] ^ rhs.0[3]) & mask);
        let s4 = self.0[4] ^ ((self.0[4] ^ rhs.0[4]) & mask);
        let s5 = self.0[5] ^ ((self.0[5] ^ rhs.0[5]) & mask);
        let s6 = self.0[6] ^ ((self.0[6] ^ rhs.0[6]) & mask);
        let s7 = self.0[7] ^ ((self.0[7] ^ rhs.0[7]) & mask);
        let s8 = self.0[8] ^ ((self.0[8] ^ rhs.0[8]) & mask);
        let s9 = self.0[9] ^ ((self.0[9] ^ rhs.0[9]) & mask);
        let r0 = rhs.0[0] ^ ((self.0[0] ^ rhs.0[0]) & mask);
        let r1 = rhs.0[1] ^ ((self.0[1] ^ rhs.0[1]) & mask);
        let r2 = rhs.0[2] ^ ((self.0[2] ^ rhs.0[2]) & mask);
        let r3 = rhs.0[3] ^ ((self.0[3] ^ rhs.0[3]) & mask);
        let r4 = rhs.0[4] ^ ((self.0[4] ^ rhs.0[4]) & mask);
        let r5 = rhs.0[5] ^ ((self.0[5] ^ rhs.0[5]) & mask);
        let r6 = rhs.0[6] ^ ((self.0[6] ^ rhs.0[6]) & mask);
        let r7 = rhs.0[7] ^ ((self.0[7] ^ rhs.0[7]) & mask);
        let r8 = rhs.0[8] ^ ((self.0[8] ^ rhs.0[8]) & mask);
        let r9 = rhs.0[9] ^ ((self.0[9] ^ rhs.0[9]) & mask);
        self.0 = [s0, s1, s2, s3, s4, s5, s6, s7, s8, s9];
        rhs.0 = [r0, r1, r2, r3, r4, r5, r6, r7, r8, r9];
        proof {
            if condition == 1 {
                assert(self.0@ =~= old(rhs).0@);
                assert(rhs.0@ =~= old(self).0@);
            } else {
                assert(self.0@ =~= old(self).0@);
                assert(rhs.0@ =~= old(rhs).0@);
            }
        }
    }

    /// Overwrites `self` with `rhs` exactly when `condition` is one.
    pub fn conditional_move(&mut self, rhs: &Self, condition: u32)
        requires
            condition == 0 || condition == 1,
        ensures
            condition == 1 ==> final(self).0@ == rhs.0@,
            condition == 0 ==> final(self).0@ == old(self).0@,
    {
        let mask: i32 = -(condition as i32);
        proof {
            lemma_mask_select();
        }
        let s0 = self.0[0] ^ ((self.0[0] ^ rhs.0[0]) & mask);
        let s1 = self.0[1] ^ ((self.0[1] ^ rhs.0[1]) & mask);
        let s2 = self.0[2] ^ ((self.0[2] ^ rhs.0[2]) & mask);
        let s3 = self.0[3] ^ ((self.0[3] ^ rhs.0[3]) & mask);
        let s4 = self.0[4] ^ ((self.0[4] ^ rhs.0[4]) & mask);
        let s5 = self.0[5] ^ ((self.0[5] ^ rhs.0[5]) & mask);
        let s6 = self.0[6] ^ ((self.0[6] ^ rhs.0[6]) & mask);
        let s7 = self.0[7] ^ ((self.0[7] ^ rhs.0[7]) & mask);
        let s8 = self.0[8] ^ ((self.0[8] ^ rhs.0[8]) & mask);
        let s9 = self.0[9] ^ ((self.0[9] ^ rhs.0[9]) & mask);
        self.0 = [s0, s1, s2, s3, s4, s5, s6, s7, s8, s9];
        proof {
            if condition == 1 {
                assert(self.0@ =~= rhs.0@);
            } else {
                assert(self.0@ =~= old(self).0@);
            }
        }
    }
}

} // verus!
