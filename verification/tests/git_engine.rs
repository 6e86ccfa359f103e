//! The git engine's decisions: names, the commit message, the apply
//! fallback, push planning and the push-failure policy.

use snowpatch::gitops::{
    apply_decision, commit_message, plan_pushes, push_disposition, push_refspec,
    record_runner_work, remote_branch_name, worker_queue_name, worktree_name, ApplyMethod,
    PushDisposition, PushPlanError, PushResult,
};
use snowpatch::store::{move_to_new_queue, Store};

#[test]
fn names_follow_the_branch_contract() {
    assert_eq!(worktree_name(0), "snowpatch0");
    assert_eq!(worktree_name(3), "snowpatch3");
    assert_eq!(worker_queue_name(2), "git worker 2");
    assert_eq!(remote_branch_name(13675), "snowpatch/13675");
    assert_eq!(push_refspec(13675), "HEAD:refs/heads/snowpatch/13675");
}

#[test]
fn commit_message_names_the_series_and_links_it() {
    let msg = commit_message(
        13675,
        "https://patchwork.ozlabs.org/project/linuxppc-dev/list/?series=",
    );
    assert_eq!(
        msg,
        "From patchwork series 13675\n\n\
         https://patchwork.ozlabs.org/project/linuxppc-dev/list/?series=13675"
    );
}

#[test]
fn apply_fallback_strategy() {
    assert!(matches!(apply_decision(true, false), Some(ApplyMethod::Library)));
    assert!(matches!(apply_decision(true, true), Some(ApplyMethod::Library)));
    assert!(matches!(apply_decision(false, true), Some(ApplyMethod::Binary)));
    assert!(apply_decision(false, false).is_none());
}

#[test]
fn non_fast_forward_pushes_only_warn() {
    assert_eq!(push_disposition(&PushResult::Pushed), PushDisposition::Continue);
    assert_eq!(
        push_disposition(&PushResult::NotFastForward),
        PushDisposition::ContinueWithWarning
    );
    assert_eq!(
        push_disposition(&PushResult::Failed(String::from("connection reset"))),
        PushDisposition::FailItem
    );
}

#[test]
fn unknown_runner_fails_the_plan() {
    let remotes = vec![
        (String::from("origin"), String::from("github")),
        (String::from("mirror"), String::from("buildbot")),
    ];
    let known = vec![String::from("github")];
    match plan_pushes(&remotes, &known) {
        Err(PushPlanError::UnknownRunner { remote, runner }) => {
            assert_eq!(remote, "mirror");
            assert_eq!(runner, "buildbot");
        }
        Ok(()) => panic!("expected the unknown runner to fail the plan"),
    }
    let all_known = vec![(String::from("origin"), String::from("github"))];
    assert!(plan_pushes(&all_known, &known).is_ok());
    assert!(plan_pushes(&Vec::new(), &known).is_ok());
}

#[test]
fn runner_work_is_recorded_under_the_series_id() {
    let store = Store::new(sled::Config::new().temporary(true).open().unwrap());
    let mut queue = store.open_tree(b"github queue").unwrap();
    record_runner_work(&mut queue, 13675).unwrap();
    assert_eq!(queue.get(b"13675").unwrap(), Some(b"new".to_vec()));
}

#[test]
fn work_item_walks_the_stage_queues() {
    let store = Store::new(sled::Config::new().temporary(true).open().unwrap());
    let mut needs_testing = store.open_tree(b"needs testing").unwrap();
    let mut awaiting = store.open_tree(b"awaiting git worker").unwrap();
    let mut worker0 = store.open_tree(b"git worker 0").unwrap();
    let mut failures = store.open_tree(b"git failures").unwrap();

    let key = snowpatch::codec::encode_u64(42);
    needs_testing.insert(key.as_slice(), b"mbox-url".to_vec()).unwrap();

    move_to_new_queue(&mut needs_testing, &mut awaiting, key.as_slice()).unwrap();
    move_to_new_queue(&mut awaiting, &mut worker0, key.as_slice()).unwrap();

    // At every instant the key sits in exactly one stage queue.
    let present = [
        needs_testing.contains_key(key.as_slice()).unwrap(),
        awaiting.contains_key(key.as_slice()).unwrap(),
        worker0.contains_key(key.as_slice()).unwrap(),
        failures.contains_key(key.as_slice()).unwrap(),
    ];
    assert_eq!(present.iter().filter(|p| **p).count(), 1);
    assert!(worker0.contains_key(key.as_slice()).unwrap());

    // A failing item is promoted to the failure queue, value intact.
    move_to_new_queue(&mut worker0, &mut failures, key.as_slice()).unwrap();
    assert!(!worker0.contains_key(key.as_slice()).unwrap());
    assert_eq!(failures.get(key.as_slice()).unwrap(), Some(b"mbox-url".to_vec()));
}

#[test]
fn existing_branch_still_reaches_the_runner_queue() {
    // A push refused as non-fast-forward does not fail the item: the
    // runner's work is still recorded.
    let disposition = push_disposition(&PushResult::NotFastForward);
    assert_ne!(disposition, PushDisposition::FailItem);
    let store = Store::new(sled::Config::new().temporary(true).open().unwrap());
    let mut queue = store.open_tree(b"github queue").unwrap();
    if disposition != PushDisposition::FailItem {
        record_runner_work(&mut queue, 42).unwrap();
    }
    assert_eq!(queue.get(b"42").unwrap(), Some(b"new".to_vec()));
}
