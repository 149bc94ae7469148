use vstd::prelude::*;

verus! {

/// Cost parameters of the derivation: memory in KiB (one block per KiB),
/// number of passes, number of lanes, and requested tag length in bytes.
#[derive(Clone, Copy, Debug)]
pub struct Argon2Params {
    pub mem_kib: u32,
    pub time: u32,
    pub lanes: u32,
    pub tag_len: usize,
}

/// Why a parameter set was rejected.
#[derive(Clone, Copy, Debug, PartialEq, Eq, Structural)]
pub enum Argon2ParamError {
    MemoryTooSmall,
    MemoryNotMultipleOfLanes,
    TooFewLanes,
    TooFewPasses,
    TagLengthInvalid,
}

/// A parameter set is valid when there is at least one lane and one pass,
/// the memory is at least eight blocks per lane and a multiple of twice the
/// lane count, and the tag length lies in `[4, 1024]`.
pub open spec fn params_valid(p: Argon2Params) -> bool {
    &&& p.lanes >= 1
    &&& p.time >= 1
    &&& p.mem_kib >= 8 * (p.lanes as int)
    &&& p.mem_kib as int % (2 * (p.lanes as int)) == 0
    &&& 4 <= p.tag_len <= 1024
}

/// The error reported for an invalid parameter set, in the fixed priority
/// order: lanes, passes, memory floor, memory multiplicity, tag length.
pub open spec fn params_error(p: Argon2Params) -> Argon2ParamError {
    if p.lanes < 1 {
        Argon2ParamError::TooFewLanes
    } else if p.time < 1 {
        Argon2ParamError::TooFewPasses
    } else if p.mem_kib < 8 * (p.lanes as int) {
        Argon2ParamError::MemoryTooSmall
    } else if p.mem_kib as int % (2 * (p.lanes as int)) != 0 {
        Argon2ParamError::MemoryNotMultipleOfLanes
    } else {
        Argon2ParamError::TagLengthInvalid
    }
}

impl Argon2Params {
    /// Accepts exactly the valid parameter sets and otherwise reports the
    /// first violated rule.
    pub fn validate(&self) -> (r: Result<(), Argon2ParamError>)
        ensures
            r is Ok <==> params_valid(*self),
            r is Err ==> r->Err_0 == params_error(*self),
    {
        if self.lanes < 1 {
            return Err(Argon2ParamError::TooFewLanes);
        }
        if self.time < 1 {
            return Err(Argon2ParamError::TooFewPasses);
        }
        if (self.mem_kib as u64) < 8 * (self.lanes as u64) {
            return Err(Argon2ParamError::MemoryTooSmall);
        }
        if (self.mem_kib as u64) % (2 * (self.lanes as u64)) != 0 {
            return Err(Argon2ParamError::MemoryNotMultipleOfLanes);
        }
        if self.tag_len < 4 || self.tag_len > 1024 {
            return Err(Argon2ParamError::TagLengthInvalid);
        }
        Ok(())
    }
}

impl Default for Argon2Params {
    /// 64 MiB of memory, three passes, one lane, a 32-byte tag.
    fn default() -> (p: Self)
        ensures
            p.mem_kib == 64 * 1024,
            p.time == 3,
            p.lanes == 1,
            p.tag_len == 32,
            params_valid(p),
    {
        let p = Self { mem_kib: 64 * 1024, time: 3, lanes: 1, tag_len: 32 };
        proof {
            assert(p.mem_kib as int % (2 * (p.lanes as int)) == 65536int % 2);
        }
        p
    }
}

} // verus!
