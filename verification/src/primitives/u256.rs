use vstd::prelude::*;

verus! {

/// 256-bit unsigned integer stored as 32 big-endian bytes.
#[derive(Clone, Copy, Debug)]
pub struct U256(pub [u8; 32]);

/// Leading zero bits of a single byte.
pub open spec fn u8_lz(b: u8) -> int {
    if b >= 128 {
        0
    } else if b >= 64 {
        1
    } else if b >= 32 {
        2
    } else if b >= 16 {
        3
    } else if b >= 8 {
        4
    } else if b >= 4 {
        5
    } else if b >= 2 {
        6
    } else if b >= 1 {
        7
    } else {
        8
    }
}

/// Leading zero bits of `s` counted from byte `i` on: eight per zero byte,
/// then the leading zeros of the first non-zero byte.
pub open spec fn lz_from(s: Seq<u8>, i: int) -> int
    decreases s.len() - i,
{
    if i < 0 || i >= s.len() {
        0
    } else if s[i] == 0 {
        8 + lz_from(s, i + 1)
    } else {
        u8_lz(s[i])
    }
}

/// If the first `j` bytes are zero, counting can start at byte `j`.
proof fn lemma_lz_skip(s: Seq<u8>, j: int)
    requires
        0 <= j <= s.len(),
        forall|k: int| 0 <= k < j ==> s[k] == 0,
    ensures
        lz_from(s, 0) == 8 * j + lz_from(s, j),
    decreases j,
{
    if j > 0 {
        lemma_lz_skip(s, j - 1);
    }
}

/// Leading zero bits of a byte, by direct comparison.
pub fn u8_leading_zeros(b: u8) -> (n: u32)
    ensures
        n as int == u8_lz(b),
{
    if b >= 128 {
        0
    } else if b >= 64 {
        1
    } else if b >= 32 {
        2
    } else if b >= 16 {
        3
    } else if b >= 8 {
        4
    } else if b >= 4 {
        5
    } else if b >= 2 {
        6
    } else if b >= 1 {
        7
    } else {
        8
    }
}

impl U256 {
    /// The value one, in big-endian representation: all bytes zero but the
    /// last, which is one.
    pub fn one_be() -> (r: Self)
        ensures
            r.0@.len() == 32,
            r.0@[31] == 1u8,
            forall|i: int| 0 <= i < 31 ==> r.0@[i] == 0u8,
    {
        let out: [u8; 32] = [
            0, 0, 0, 0, 0, 0, 0, 0, 0, 0, 0, 0, 0, 0, 0, 0, 0, 0, 0, 0, 0, 0, 0, 0, 0, 0, 0, 0, 0,
            0, 0, 1,
        ];
        U256(out)
    }

    /// The number of leading zero bits in the big-endian representation.
    pub fn leading_zeros(&self) -> (count: u32)
        ensures
            count as int == lz_from(self.0@, 0),
    {
        let mut count: u32 = 0;
        let mut i: usize = 0;

        while i < 32
            invariant
                i <= 32,
                count == 8 * i,
                forall|k: int| 0 <= k < i ==> self.0@[k] == 0u8,
            decreases 32 - i,
        {
            let byte = self.0[i];
            if byte == 0 {
                count += 8;
            } else {
                count += u8_leading_zeros(byte);
                proof {
                    lemma_lz_skip(self.0@, i as int);
                }
                return count;
            }
            i += 1;
        }

        proof {
            lemma_lz_skip(self.0@, 32);
        }
        count
    }
}

} // verus!
