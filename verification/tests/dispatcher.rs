//! The dispatcher: composite keys and the verdicts prepared from queue
//! entries.

use snowpatch::dispatch::{dispatch_key, parse_dispatch_key, prepare_dispatch, DispatchError};
use snowpatch::patchwork::TestState;
use snowpatch::runner::{encode_runner_result, JobState, RunnerResult};

#[test]
fn composite_key_round_trip() {
    let key = dispatch_key("github", "13675", "build and boot (ppc64le)");
    assert_eq!(key, "github 13675 build and boot (ppc64le)");
    let (handle, series, job) = parse_dispatch_key(&key).unwrap();
    assert_eq!(handle, "github");
    assert_eq!(series, "13675");
    assert_eq!(job, "build and boot (ppc64le)");
}

#[test]
fn keys_missing_a_part_are_rejected() {
    assert!(parse_dispatch_key("github").is_none());
    assert!(parse_dispatch_key("github 13675").is_none());
    assert!(parse_dispatch_key("").is_none());
}

fn result() -> RunnerResult {
    RunnerResult {
        name: String::from("build"),
        state: JobState::Completed,
        outcome: TestState::Success,
        url: Some(String::from("https://ci.example.invalid/run/9")),
        description: Some(String::from("Successfully ran 4 jobs.")),
    }
}

#[test]
fn prepare_composes_the_verdict() {
    let key = dispatch_key("github", "13675", "build").into_bytes();
    let value = encode_runner_result(&result());
    let (series, verdict) = prepare_dispatch(&key, &value).unwrap();
    assert_eq!(series, 13675);
    assert_eq!(verdict.state, TestState::Success);
    assert_eq!(
        verdict.target_url,
        Some(String::from("https://ci.example.invalid/run/9"))
    );
    assert_eq!(
        verdict.description,
        Some(String::from("Successfully ran 4 jobs."))
    );
    assert_eq!(verdict.context, Some(String::from("github-build")));
    assert!(!verdict.context.unwrap().is_empty());
}

#[test]
fn prepare_keeps_spaces_in_job_names() {
    let key = dispatch_key("github", "42", "build and boot").into_bytes();
    let value = encode_runner_result(&result());
    let (series, verdict) = prepare_dispatch(&key, &value).unwrap();
    assert_eq!(series, 42);
    assert_eq!(verdict.context, Some(String::from("github-build and boot")));
}

#[test]
fn malformed_keys_are_reported() {
    let value = encode_runner_result(&result());
    match prepare_dispatch(&b"no-spaces-here".to_vec(), &value) {
        Err(DispatchError::BadKey) => {}
        _ => panic!("expected a bad key"),
    }
    match prepare_dispatch(&b"github not-a-number build".to_vec(), &value) {
        Err(DispatchError::BadKey) => {}
        _ => panic!("expected a bad key"),
    }
}

#[test]
fn malformed_values_are_reported() {
    let key = dispatch_key("github", "1", "build").into_bytes();
    match prepare_dispatch(&key, &b"gibberish".to_vec()) {
        Err(DispatchError::BadValue) => {}
        _ => panic!("expected a bad value"),
    }
}
