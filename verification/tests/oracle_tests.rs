use wavmio::escape::Escape;
use wavmio::frame::CallFrame;
use wavmio::oracle::resolve_preimage;
use wavmio::session::WasmEnv;

const HASH_PTR: u64 = 0;
const OUT_PTR: u64 = 64;

fn env_with_blob(blob: &[u8]) -> WasmEnv {
    let mut env = WasmEnv::new();
    env.preimages.insert(vec![7u8; 32], blob.to_vec());
    env
}

fn frame_with_hash(hash: &[u8; 32], offset: u64, hash_len: u64, out_len: u64) -> CallFrame {
    let mut memory = vec![0u8; 128];
    memory[HASH_PTR as usize..HASH_PTR as usize + 32].copy_from_slice(hash);
    CallFrame {
        words: vec![HASH_PTR, hash_len, 0, offset, OUT_PTR, out_len, 0, 0],
        memory,
    }
}

#[test]
fn chunked_reads_reassemble_the_blob() {
    let blob: Vec<u8> = (0..70u8).collect();
    let env = env_with_blob(&blob);
    let mut reassembled: Vec<u8> = Vec::new();
    let mut offset = 0u64;
    loop {
        let mut sp = frame_with_hash(&[7u8; 32], offset, 32, 32);
        assert_eq!(resolve_preimage(&env, &mut sp), Ok(()));
        let n = sp.words[7] as usize;
        if n == 0 {
            break;
        }
        reassembled.extend_from_slice(&sp.memory[OUT_PTR as usize..OUT_PTR as usize + n]);
        offset += 32;
    }
    assert_eq!(reassembled, blob);
}

#[test]
fn resolving_twice_returns_identical_bytes() {
    let blob: Vec<u8> = (100..140u8).collect();
    let env = env_with_blob(&blob);
    let mut first = frame_with_hash(&[7u8; 32], 32, 32, 32);
    let mut second = frame_with_hash(&[7u8; 32], 32, 32, 32);
    assert_eq!(resolve_preimage(&env, &mut first), Ok(()));
    assert_eq!(resolve_preimage(&env, &mut second), Ok(()));
    assert_eq!(first.words[7], 8);
    assert_eq!(first.words, second.words);
    assert_eq!(first.memory, second.memory);
}

#[test]
fn unknown_hash_is_fatal_regardless_of_offset() {
    let env = env_with_blob(&[1, 2, 3]);
    for offset in [0u64, 32, 1 << 40, u64::MAX] {
        let mut sp = frame_with_hash(&[8u8; 32], offset, 32, 32);
        assert_eq!(resolve_preimage(&env, &mut sp), Err(Escape::MissingPreimage));
    }
}

#[test]
fn known_hash_with_huge_offset_is_bad_offset() {
    let env = env_with_blob(&[1, 2, 3]);
    let offset = (u32::MAX as u64) + 1;
    let mut sp = frame_with_hash(&[7u8; 32], offset, 32, 32);
    assert_eq!(resolve_preimage(&env, &mut sp), Err(Escape::BadOffset { offset }));
}

#[test]
fn wrong_declared_lengths_report_zero_bytes_and_change_nothing() {
    let env = env_with_blob(&(0..70u8).collect::<Vec<u8>>());
    for (hash_len, out_len) in [(31u64, 32u64), (33, 32), (32, 31), (32, 33), (0, 0)] {
        let mut sp = frame_with_hash(&[7u8; 32], 0, hash_len, out_len);
        let before = sp.memory.clone();
        assert_eq!(resolve_preimage(&env, &mut sp), Ok(()));
        assert_eq!(sp.words[7], 0);
        assert_eq!(sp.memory, before);
    }
}

#[test]
fn unknown_hash_is_fatal_even_with_bad_destination() {
    let env = env_with_blob(&[1, 2, 3]);
    let mut sp = frame_with_hash(&[8u8; 32], 0, 32, 32);
    sp.words[4] = 1 << 40;
    assert_eq!(resolve_preimage(&env, &mut sp), Err(Escape::MissingPreimage));
}

#[test]
fn bad_offset_is_fatal_even_with_bad_destination() {
    let env = env_with_blob(&[1, 2, 3]);
    let offset = (u32::MAX as u64) + 1;
    let mut sp = frame_with_hash(&[7u8; 32], offset, 32, 32);
    sp.words[4] = 1 << 40;
    assert_eq!(resolve_preimage(&env, &mut sp), Err(Escape::BadOffset { offset }));
}
