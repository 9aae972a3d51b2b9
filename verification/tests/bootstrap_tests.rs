use wavmio::bootstrap::{apply_bootstrap, bootstrap_needed, decode_bootstrap};
use wavmio::escape::Escape;
use wavmio::port::parse_port;
use wavmio::session::WasmEnv;

fn preamble(ip: u64, pwm: u64, hash: [u8; 32], root: [u8; 32], dp: u64) -> Vec<u8> {
    let mut blob = Vec::new();
    blob.extend_from_slice(&ip.to_be_bytes());
    blob.extend_from_slice(&pwm.to_be_bytes());
    blob.extend_from_slice(&hash);
    blob.extend_from_slice(&root);
    blob.extend_from_slice(&dp.to_be_bytes());
    blob
}

fn push_message(blob: &mut Vec<u8>, msg: &[u8]) {
    blob.push(1);
    blob.extend_from_slice(&(msg.len() as u64).to_be_bytes());
    blob.extend_from_slice(msg);
}

/// A stream with sequencer continuation bytes `[1, 1, 0]` carrying two
/// messages and delayed continuation bytes `[1, 0]` carrying one.
fn two_plus_one_blob() -> Vec<u8> {
    let mut blob = preamble(100, 5, [0xAA; 32], [0xBB; 32], 200);
    push_message(&mut blob, b"first");
    push_message(&mut blob, b"second");
    blob.push(0);
    push_message(&mut blob, b"delayed msg");
    blob.push(0);
    blob
}

#[test]
fn ingestion_installs_contiguous_keys() {
    let init = decode_bootstrap(&two_plus_one_blob()).unwrap();
    let mut env = WasmEnv::new();
    env.first_too_far = 102;
    apply_bootstrap(&mut env, init);

    assert!(!env.forks);
    assert_eq!(env.small_globals, vec![100, 5]);
    assert_eq!(env.large_globals, vec![vec![0xAA; 32], vec![0xBB; 32]]);
    assert_eq!(env.first_too_far, 102);

    assert_eq!(env.sequencer_messages.len(), 2);
    assert_eq!(env.sequencer_messages.get(100), Some(&b"first".to_vec()));
    assert_eq!(env.sequencer_messages.get(101), Some(&b"second".to_vec()));
    assert_eq!(env.sequencer_messages.get(99), None);
    assert_eq!(env.sequencer_messages.get(102), None);

    assert_eq!(env.delayed_messages.len(), 1);
    assert_eq!(env.delayed_messages.get(200), Some(&b"delayed msg".to_vec()));
    assert_eq!(env.delayed_messages.get(201), None);
}

#[test]
fn needed_walks_the_wire_format_to_completion() {
    let blob = two_plus_one_blob();
    let mut buffer: Vec<u8> = Vec::new();
    assert_eq!(bootstrap_needed(&buffer), 88);
    let mut reads = 0;
    loop {
        let need = bootstrap_needed(&buffer);
        if need == 0 {
            break;
        }
        let have = buffer.len();
        buffer.extend_from_slice(&blob[have..have + need as usize]);
        reads += 1;
        assert!(reads < 100);
    }
    assert_eq!(buffer, blob);
    assert!(decode_bootstrap(&buffer).is_ok());
}

#[test]
fn truncated_blob_is_rejected_whole() {
    let blob = two_plus_one_blob();
    for cut in [0, 1, 87, 88, 89, blob.len() - 1] {
        let partial = blob[..cut].to_vec();
        assert_eq!(decode_bootstrap(&partial), Err(Escape::BootstrapIOFailure));
        assert!(bootstrap_needed(&partial) > 0);
    }
}

#[test]
fn malformed_continuation_flag_is_rejected() {
    let mut blob = preamble(0, 0, [0; 32], [0; 32], 0);
    blob.push(2);
    assert_eq!(bootstrap_needed(&blob), 0);
    assert_eq!(decode_bootstrap(&blob), Err(Escape::BootstrapIOFailure));
}

#[test]
fn empty_streams_produce_empty_inboxes() {
    let mut blob = preamble(7, 8, [1; 32], [2; 32], 9);
    blob.push(0);
    blob.push(0);
    let init = decode_bootstrap(&blob).unwrap();
    let mut env = WasmEnv::new();
    apply_bootstrap(&mut env, init);
    assert_eq!(env.small_globals, vec![7, 8]);
    assert_eq!(env.sequencer_messages.len(), 0);
    assert_eq!(env.delayed_messages.len(), 0);
}

#[test]
fn sessions_from_one_image_stay_independent() {
    let mut env1 = WasmEnv::new();
    let mut env2 = WasmEnv::new();
    for env in [&mut env1, &mut env2] {
        env.preimages.insert(vec![9u8; 32], b"shared".to_vec());
        env.first_too_far = 500;
    }

    apply_bootstrap(&mut env1, decode_bootstrap(&two_plus_one_blob()).unwrap());

    let mut other = preamble(300, 1, [0x11; 32], [0x22; 32], 400);
    push_message(&mut other, b"only one");
    other.push(0);
    other.push(0);
    apply_bootstrap(&mut env2, decode_bootstrap(&other).unwrap());

    assert_eq!(env1.small_globals, vec![100, 5]);
    assert_eq!(env2.small_globals, vec![300, 1]);
    assert_eq!(env1.sequencer_messages.get(100), Some(&b"first".to_vec()));
    assert_eq!(env2.sequencer_messages.get(100), None);
    assert_eq!(env2.sequencer_messages.get(300), Some(&b"only one".to_vec()));
    assert_eq!(env1.sequencer_messages.get(300), None);
    assert_eq!(env1.delayed_messages.len(), 1);
    assert_eq!(env2.delayed_messages.len(), 0);
    assert_eq!(env1.preimages.get(&vec![9u8; 32]), Some(&b"shared".to_vec()));
    assert_eq!(env2.preimages.get(&vec![9u8; 32]), Some(&b"shared".to_vec()));
    assert_eq!(env1.first_too_far, 500);
    assert_eq!(env2.first_too_far, 500);
}

#[test]
fn parse_port_accepts_a_decimal_line() {
    assert_eq!(parse_port(&b"42\n".to_vec()), Some(42));
    assert_eq!(parse_port(&b"65535\r\n".to_vec()), Some(65535));
    assert_eq!(parse_port(&b"8080".to_vec()), Some(8080));
    assert_eq!(parse_port(&b"0\n".to_vec()), Some(0));
}

#[test]
fn parse_port_rejects_bad_lines() {
    assert_eq!(parse_port(&b"\n".to_vec()), None);
    assert_eq!(parse_port(&b"".to_vec()), None);
    assert_eq!(parse_port(&b"65536\n".to_vec()), None);
    assert_eq!(parse_port(&b"999999999999\n".to_vec()), None);
    assert_eq!(parse_port(&b"12a\n".to_vec()), None);
    assert_eq!(parse_port(&b"-5\n".to_vec()), None);
    assert_eq!(parse_port(&b"4 2\n".to_vec()), None);
}
