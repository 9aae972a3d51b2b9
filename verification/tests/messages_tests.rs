use wavmio::escape::Escape;
use wavmio::frame::CallFrame;
use wavmio::messages::{read_delayed_inbox_message, read_inbox_message};
use wavmio::session::WasmEnv;

fn env_with_messages() -> WasmEnv {
    let mut env = WasmEnv::new();
    let long: Vec<u8> = (0..40u8).collect();
    env.sequencer_messages.insert(10, long);
    env.sequencer_messages.insert(11, vec![5, 6, 7]);
    env.delayed_messages.insert(3, vec![42; 8]);
    env.first_too_far = 12;
    env
}

fn frame(msg_num: u64, offset: u64, out_ptr: u64, out_len: u64) -> CallFrame {
    CallFrame { words: vec![msg_num, offset, out_ptr, out_len, 0, 0], memory: vec![0u8; 256] }
}

#[test]
fn read_within_message_returns_full_chunk() {
    let env = env_with_messages();
    let mut sp = frame(10, 0, 16, 32);
    assert_eq!(read_inbox_message(&env, &mut sp), Ok(()));
    assert_eq!(sp.words[5], 32);
    let expected: Vec<u8> = (0..32u8).collect();
    assert_eq!(&sp.memory[16..48], &expected[..]);
}

#[test]
fn read_near_end_returns_partial_chunk() {
    let env = env_with_messages();
    let mut sp = frame(10, 32, 0, 32);
    assert_eq!(read_inbox_message(&env, &mut sp), Ok(()));
    assert_eq!(sp.words[5], 8);
    let expected: Vec<u8> = (32..40u8).collect();
    assert_eq!(&sp.memory[0..8], &expected[..]);
    assert_eq!(&sp.memory[8..], &vec![0u8; 248][..]);
}

#[test]
fn read_at_or_past_end_is_empty_success() {
    let env = env_with_messages();
    for offset in [40u64, 41, 1000] {
        let mut sp = frame(10, offset, 0, 32);
        assert_eq!(read_inbox_message(&env, &mut sp), Ok(()));
        assert_eq!(sp.words[5], 0);
        assert_eq!(sp.memory, vec![0u8; 256]);
    }
}

#[test]
fn missing_message_below_horizon_is_missing_message() {
    let env = env_with_messages();
    let mut sp = frame(9, 0, 0, 32);
    assert_eq!(
        read_inbox_message(&env, &mut sp),
        Err(Escape::MissingMessage { msg_num: 9, first_too_far: 12 })
    );
}

#[test]
fn missing_message_at_or_past_horizon_is_too_far() {
    let env = env_with_messages();
    for msg_num in [12u64, 13, 1_000_000] {
        let mut sp = frame(msg_num, 0, 0, 32);
        assert_eq!(
            read_inbox_message(&env, &mut sp),
            Err(Escape::MessageTooFar { msg_num, first_too_far: 12 })
        );
    }
}

#[test]
fn wrong_out_len_reports_zero_bytes_and_changes_nothing() {
    let env = env_with_messages();
    for out_len in [0u64, 31, 33, 1 << 40] {
        let mut sp = frame(10, 0, 16, out_len);
        assert_eq!(read_inbox_message(&env, &mut sp), Ok(()));
        assert_eq!(sp.words[5], 0);
        assert_eq!(sp.memory, vec![0u8; 256]);
    }
}

#[test]
fn destination_out_of_guest_memory_is_fatal() {
    let env = env_with_messages();
    let mut sp = frame(10, 0, 225, 32);
    assert_eq!(read_inbox_message(&env, &mut sp), Err(Escape::UnknownMessageType));
    let mut sp = frame(10, 0, 224, 32);
    assert_eq!(read_inbox_message(&env, &mut sp), Ok(()));
}

#[test]
fn offset_beyond_addressable_range_is_fatal() {
    let env = env_with_messages();
    let offset = (u32::MAX as u64) + 1;
    let mut sp = frame(10, offset, 0, 32);
    assert_eq!(read_inbox_message(&env, &mut sp), Err(Escape::BadOffset { offset }));
}

#[test]
fn delayed_inbox_is_independent_of_sequencer() {
    let env = env_with_messages();
    let mut sp = frame(3, 0, 0, 32);
    assert_eq!(read_delayed_inbox_message(&env, &mut sp), Ok(()));
    assert_eq!(sp.words[5], 8);
    assert_eq!(&sp.memory[0..8], &[42u8; 8][..]);

    let mut sp = frame(10, 0, 0, 32);
    assert_eq!(
        read_delayed_inbox_message(&env, &mut sp),
        Err(Escape::MissingMessage { msg_num: 10, first_too_far: 12 })
    );
}
