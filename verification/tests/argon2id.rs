use cryptal::derivation::argon2id::block::Block;
use cryptal::derivation::argon2id::memory::MemoryLayout;
use cryptal::derivation::{argon2id, Argon2Error, Argon2ParamError, Argon2Params};

#[test]
fn argon2id_is_deterministic() {
    let params = Argon2Params {
        mem_kib: 32,
        lanes: 4,
        time: 3,
        tag_len: 32,
    };
    let a = argon2id(b"password", b"saltsalt", &params).unwrap();
    let b = argon2id(b"password", b"saltsalt", &params).unwrap();
    assert_eq!(a, b);
}

#[test]
fn argon2id_changes_with_salt() {
    let params = Argon2Params {
        mem_kib: 32,
        lanes: 4,
        time: 3,
        tag_len: 32,
    };
    let a = argon2id(b"password", b"saltAAAA", &params).unwrap();
    let b = argon2id(b"password", b"saltBBBB", &params).unwrap();
    assert_ne!(a, b);
}

#[test]
fn argon2id_respects_output_length() {
    let params = Argon2Params {
        mem_kib: 32,
        lanes: 4,
        time: 1,
        tag_len: 64,
    };
    let out = argon2id(b"password", b"saltsalt", &params).unwrap();
    assert_eq!(out.len(), 64);
}

#[test]
fn argon2id_simple_vectors() {
    let params1 = Argon2Params {
        mem_kib: 32,
        lanes: 1,
        time: 1,
        tag_len: 32,
    };
    let result1 = argon2id(b"password", b"saltsalt", &params1).unwrap();
    assert_eq!(result1.len(), 32);

    let params2 = Argon2Params {
        mem_kib: 64,
        lanes: 2,
        time: 2,
        tag_len: 32,
    };
    let result2 = argon2id(b"password", b"saltsalt", &params2).unwrap();
    assert_ne!(result1, result2,);

    let result3 = argon2id(b"different", b"saltsalt", &params1).unwrap();
    assert_ne!(result1, result3,);
}

#[test]
fn argon2id_changes_with_password() {
    let params = Argon2Params {
        mem_kib: 32,
        lanes: 4,
        time: 2,
        tag_len: 32,
    };
    let a = argon2id(b"password one", b"saltsalt", &params).unwrap();
    let b = argon2id(b"password two", b"saltsalt", &params).unwrap();
    assert_ne!(a, b);
}

#[test]
fn argon2id_rejects_zero_lanes() {
    let params = Argon2Params {
        mem_kib: 32,
        lanes: 0,
        time: 3,
        tag_len: 32,
    };
    let r = argon2id(b"password", b"saltsalt", &params);
    assert!(matches!(
        r,
        Err(Argon2Error::InvalidParams(Argon2ParamError::TooFewLanes))
    ));
}

#[test]
fn argon2id_rejects_zero_passes() {
    let params = Argon2Params {
        mem_kib: 32,
        lanes: 4,
        time: 0,
        tag_len: 32,
    };
    let r = argon2id(b"password", b"saltsalt", &params);
    assert!(matches!(
        r,
        Err(Argon2Error::InvalidParams(Argon2ParamError::TooFewPasses))
    ));
}

#[test]
fn argon2id_rejects_memory_below_floor() {
    let params = Argon2Params {
        mem_kib: 24,
        lanes: 4,
        time: 3,
        tag_len: 32,
    };
    let r = argon2id(b"password", b"saltsalt", &params);
    assert!(matches!(
        r,
        Err(Argon2Error::InvalidParams(Argon2ParamError::MemoryTooSmall))
    ));
}

#[test]
fn argon2id_rejects_memory_not_multiple_of_lanes() {
    let params = Argon2Params {
        mem_kib: 33,
        lanes: 4,
        time: 3,
        tag_len: 32,
    };
    let r = argon2id(b"password", b"saltsalt", &params);
    assert!(matches!(
        r,
        Err(Argon2Error::InvalidParams(
            Argon2ParamError::MemoryNotMultipleOfLanes
        ))
    ));
}

#[test]
fn argon2id_rejects_tiny_tag() {
    let params = Argon2Params {
        mem_kib: 32,
        lanes: 4,
        time: 3,
        tag_len: 3,
    };
    let r = argon2id(b"password", b"saltsalt", &params);
    assert!(matches!(
        r,
        Err(Argon2Error::InvalidParams(
            Argon2ParamError::TagLengthInvalid
        ))
    ));
}

#[test]
fn argon2id_rejects_oversized_tag() {
    let params = Argon2Params {
        mem_kib: 32,
        lanes: 4,
        time: 3,
        tag_len: 1025,
    };
    let r = argon2id(b"password", b"saltsalt", &params);
    assert!(matches!(
        r,
        Err(Argon2Error::InvalidParams(
            Argon2ParamError::TagLengthInvalid
        ))
    ));
}

#[test]
fn argon2id_rejects_short_salt() {
    let params = Argon2Params {
        mem_kib: 32,
        lanes: 4,
        time: 3,
        tag_len: 32,
    };
    let r = argon2id(b"password", b"salt", &params);
    assert!(matches!(r, Err(Argon2Error::InvalidSalt)));
}

#[test]
fn argon2id_minimum_tag_length() {
    let params = Argon2Params {
        mem_kib: 32,
        lanes: 1,
        time: 1,
        tag_len: 4,
    };
    let out = argon2id(b"password", b"saltsalt", &params).unwrap();
    assert_eq!(out.len(), 4);
}

#[test]
fn argon2id_default_params_are_accepted() {
    let params = Argon2Params::default();
    assert_eq!(params.mem_kib, 64 * 1024);
    assert_eq!(params.time, 3);
    assert_eq!(params.lanes, 1);
    assert_eq!(params.tag_len, 32);
}

#[test]
fn block_zeroize_clears_contents() {
    let mut bytes = vec![0u8; 1024];
    for (i, b) in bytes.iter_mut().enumerate() {
        *b = (i % 256) as u8;
    }
    let mut block = Block::from_bytes(&bytes);
    block.zeroize();
    let cleared = block.to_bytes();
    assert_eq!(cleared.len(), 1024);
    assert!(cleared.iter().all(|&b| b == 0));
}

#[test]
fn memory_layout_normalization_is_fixed_point() {
    // 100 KiB over 3 lanes rounds down to 96 = 8 * (4 * 3) blocks.
    let params = Argon2Params {
        mem_kib: 100,
        lanes: 3,
        time: 1,
        tag_len: 32,
    };
    let first = MemoryLayout::new(&params);
    assert_eq!(first.total_blocks, 96);

    let renormalized = Argon2Params {
        mem_kib: first.total_blocks,
        lanes: 3,
        time: 1,
        tag_len: 32,
    };
    let second = MemoryLayout::new(&renormalized);
    assert_eq!(second.lanes, first.lanes);
    assert_eq!(second.lane_len, first.lane_len);
    assert_eq!(second.segment_len, first.segment_len);
    assert_eq!(second.total_blocks, first.total_blocks);
}
