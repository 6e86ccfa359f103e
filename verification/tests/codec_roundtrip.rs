//! The binary codec read back against itself.

use snowpatch::codec::{decode_u64, encode_u64, read_string, write_string};
use snowpatch::patchwork::TestState;
use snowpatch::runner::{decode_runner_result, encode_runner_result, JobState, RunnerResult};

#[test]
fn u64_key_round_trip() {
    for id in [0u64, 1, 9, 10, 255, 256, 13675, u64::MAX] {
        let key = encode_u64(id);
        assert_eq!(key.len(), 8);
        assert_eq!(decode_u64(key.as_slice()), Some(id));
    }
}

#[test]
fn u64_key_is_little_endian() {
    assert_eq!(encode_u64(1), vec![1, 0, 0, 0, 0, 0, 0, 0]);
    assert_eq!(encode_u64(0x0102), vec![2, 1, 0, 0, 0, 0, 0, 0]);
}

#[test]
fn u64_key_rejects_wrong_width() {
    assert_eq!(decode_u64(&[1, 2, 3]), None);
    assert_eq!(decode_u64(&[]), None);
    assert_eq!(decode_u64(&[0; 9]), None);
}

#[test]
fn string_round_trip() {
    let mut buf: Vec<u8> = Vec::new();
    write_string(&mut buf, "hello world");
    write_string(&mut buf, "");
    write_string(&mut buf, "naïve — ünïcode");
    let (a, p1) = read_string(&buf, 0).unwrap();
    let (b, p2) = read_string(&buf, p1).unwrap();
    let (c, p3) = read_string(&buf, p2).unwrap();
    assert_eq!(a, "hello world");
    assert_eq!(b, "");
    assert_eq!(c, "naïve — ünïcode");
    assert_eq!(p3, buf.len());
}

#[test]
fn string_read_rejects_truncation() {
    let mut buf: Vec<u8> = Vec::new();
    write_string(&mut buf, "hello");
    buf.pop();
    assert!(read_string(&buf, 0).is_none());
}

#[test]
fn runner_result_round_trip() {
    let original = RunnerResult {
        name: String::from("build (ppc64le)"),
        state: JobState::Completed,
        outcome: TestState::Warning,
        url: Some(String::from("https://example.invalid/run/7")),
        description: Some(String::from("2 of 5 jobs failed.")),
    };
    let bytes = encode_runner_result(&original);
    let back = decode_runner_result(&bytes).unwrap();
    assert_eq!(back.name, original.name);
    assert_eq!(back.state, JobState::Completed);
    assert_eq!(back.outcome, TestState::Warning);
    assert_eq!(back.url, original.url);
    assert_eq!(back.description, original.description);
}

#[test]
fn runner_result_round_trip_without_optionals() {
    let original = RunnerResult {
        name: String::from("lint"),
        state: JobState::Failed,
        outcome: TestState::Fail,
        url: None,
        description: None,
    };
    let bytes = encode_runner_result(&original);
    let back = decode_runner_result(&bytes).unwrap();
    assert_eq!(back.name, "lint");
    assert_eq!(back.state, JobState::Failed);
    assert_eq!(back.outcome, TestState::Fail);
    assert_eq!(back.url, None);
    assert_eq!(back.description, None);
}

#[test]
fn runner_result_decode_rejects_garbage() {
    assert!(decode_runner_result(&vec![]).is_none());
    assert!(decode_runner_result(&vec![9, 0, 0]).is_none());
    let mut bytes = encode_runner_result(&RunnerResult {
        name: String::from("x"),
        state: JobState::Waiting,
        outcome: TestState::Pending,
        url: None,
        description: None,
    });
    bytes.push(0);
    assert!(decode_runner_result(&bytes).is_none());
}
