use cryptal::hash::sha256;
use cryptal::hash::sha256::computations::{big_sigma0, big_sigma1, ch, maj, small_sigma0, small_sigma1};

fn hex(bytes: &[u8]) -> String {
    let mut out = String::new();
    for b in bytes {
        out.push_str(&format!("{:02x}", b));
    }
    out
}

#[test]
fn sha256_empty_vector() {
    let digest = sha256(b"");
    assert_eq!(
        hex(&digest.0),
        "e3b0c44298fc1c149afbf4c8996fb92427ae41e4649b934ca495991b7852b855"
    );
}

#[test]
fn sha256_abc_vector() {
    let digest = sha256(b"abc");
    assert_eq!(
        hex(&digest.0),
        "ba7816bf8f01cfea414140de5dae2223b00361a396177a9cb410ff61f20015ad"
    );
}

#[test]
fn sha256_two_block_vector() {
    let digest = sha256(b"abcdbcdecdefdefgefghfghighijhijkijkljklmklmnlmnomnopnopq");
    assert_eq!(
        hex(&digest.0),
        "248d6a61d20638b8e5c026930c3e6039a33ce45964ff2167f6ecedd419db06c1"
    );
}

#[test]
fn sha256_padding_boundaries() {
    // 55, 56 and 64 bytes exercise the one-block and two-block padding paths.
    let digest55 = sha256(&[0x61u8; 55]);
    assert_eq!(
        hex(&digest55.0),
        "9f4390f8d30c2dd92ec9f095b65e2b9ae9b0a925a5258e241c9f1e910f734318"
    );
    let digest56 = sha256(&[0x61u8; 56]);
    assert_eq!(
        hex(&digest56.0),
        "b35439a4ac6f0948b6d6f9e3c6af0f5f590ce20f1bde7090ef7970686ec6738a"
    );
    let digest64 = sha256(&[0x61u8; 64]);
    assert_eq!(
        hex(&digest64.0),
        "ffe054fe7ae0cb6dc65c3af9b61d5209f439851db43d0ba5997337df154668eb"
    );
}

#[test]
fn sha256_round_functions() {
    assert_eq!(ch(0xFFFF_0000, 0x1234_5678, 0x9ABC_DEF0), 0x1234_DEF0);
    assert_eq!(maj(0xFFFF_0000, 0x1234_5678, 0x9ABC_DEF0), 0x9ABC_5670);
    assert_eq!(small_sigma0(1), (1u32.rotate_right(7)) ^ (1u32.rotate_right(18)) ^ 0);
    assert_eq!(small_sigma1(1), (1u32.rotate_right(17)) ^ (1u32.rotate_right(19)) ^ 0);
    assert_eq!(big_sigma0(1), (1u32.rotate_right(2)) ^ (1u32.rotate_right(13)) ^ (1u32.rotate_right(22)));
    assert_eq!(big_sigma1(1), (1u32.rotate_right(6)) ^ (1u32.rotate_right(11)) ^ (1u32.rotate_right(25)));
}
