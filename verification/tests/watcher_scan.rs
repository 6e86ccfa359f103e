//! The watcher's scan against a temporary store: admission, the filters,
//! and idempotence.

use snowpatch::codec::encode_u64;
use snowpatch::patchwork::{
    Patch, PatchSummary, Project, Series, SubmitterSummary, TestState,
};
use snowpatch::store::Store;
use snowpatch::watcher::Watchcat;

fn project() -> Project {
    Project {
        id: 1,
        url: String::from("https://patchwork.ozlabs.org/api/1.2/projects/1"),
        name: String::from("linuxppc-dev"),
        link_name: String::from("linuxppc-dev"),
        list_email: String::from("linuxppc-dev@lists.ozlabs.org"),
        list_id: String::from("linuxppc-dev.lists.ozlabs.org"),
        web_url: None,
        scm_url: None,
        webscm_url: None,
    }
}

fn submitter() -> SubmitterSummary {
    SubmitterSummary {
        id: 7,
        url: String::from("https://patchwork.ozlabs.org/api/1.2/people/7"),
        name: None,
        email: String::from("dev@example.invalid"),
    }
}

fn patch_summary(id: u64) -> PatchSummary {
    PatchSummary {
        date: String::from("2022-01-01T00:00:00"),
        id,
        mbox: String::from("https://patchwork.ozlabs.org/patch/mbox/"),
        msgid: String::from("<msg@example.invalid>"),
        name: String::from("a patch"),
        url: String::from("https://patchwork.ozlabs.org/api/1.2/patches/1"),
    }
}

fn series(id: u64, received_all: bool, patch_count: usize) -> Series {
    Series {
        cover_letter: None,
        date: String::from("2022-01-01T00:00:00"),
        id,
        mbox: String::from("https://patchwork.ozlabs.org/series/13675/mbox/"),
        name: Some(String::from("a series")),
        patches: (0..patch_count).map(|i| patch_summary(i as u64 + 1)).collect(),
        project: project(),
        received_all,
        received_total: patch_count as u64,
        submitter: submitter(),
        total: patch_count as u64,
        url: String::from("https://patchwork.ozlabs.org/api/1.2/series/13675"),
        version: 1,
    }
}

fn last_patch(state: &str, pull_url: Option<&str>) -> Patch {
    Patch {
        id: 3,
        url: String::from("https://patchwork.ozlabs.org/api/1.2/patches/3"),
        project: project(),
        msgid: String::from("<msg@example.invalid>"),
        date: String::from("2022-01-01T00:00:00"),
        name: String::from("a patch"),
        commit_ref: None,
        pull_url: pull_url.map(String::from),
        state: String::from(state),
        archived: false,
        hash: None,
        submitter: submitter(),
        delegate: None,
        mbox: String::from("https://patchwork.ozlabs.org/patch/3/mbox/"),
        series: Vec::new(),
        check: TestState::Pending,
        checks: String::from("https://patchwork.ozlabs.org/api/1.2/patches/3/checks"),
        tags: Vec::new(),
    }
}

fn temp_store() -> Store {
    Store::new(sled::Config::new().temporary(true).open().unwrap())
}

#[test]
fn admits_an_actionable_series_once() {
    let store = temp_store();
    let mut seen = store.open_tree(b"seen by watchcat").unwrap();
    let mut needs_testing = store.open_tree(b"needs testing").unwrap();
    let cat = Watchcat::new("linuxppc-dev");
    let s = series(13675, true, 3);
    let p = last_patch("new", None);

    assert!(cat.wants_patch_check(&seen, &s).unwrap());
    assert!(cat.admit_series(&mut seen, &mut needs_testing, &s, &p).unwrap());
    assert!(seen.contains_key(b"13675").unwrap());
    let work = needs_testing.get(encode_u64(13675).as_slice()).unwrap().unwrap();
    assert_eq!(
        work,
        b"https://patchwork.ozlabs.org/series/13675/mbox/".to_vec()
    );

    // A second scan of the same quiescent tracker admits nothing.
    assert!(!cat.wants_patch_check(&seen, &s).unwrap());
    assert!(!cat.admit_series(&mut seen, &mut needs_testing, &s, &p).unwrap());
    assert_eq!(needs_testing.entries().unwrap().len(), 1);
    assert_eq!(seen.entries().unwrap().len(), 1);
}

#[test]
fn filters_series_without_patches() {
    let store = temp_store();
    let mut seen = store.open_tree(b"seen by watchcat").unwrap();
    let mut needs_testing = store.open_tree(b"needs testing").unwrap();
    let cat = Watchcat::new("linuxppc-dev");
    let s = series(42, true, 0);
    let p = last_patch("new", None);
    assert!(!cat.wants_patch_check(&seen, &s).unwrap());
    assert!(!cat.admit_series(&mut seen, &mut needs_testing, &s, &p).unwrap());
    assert!(seen.is_empty());
    assert!(needs_testing.is_empty());
}

#[test]
fn filters_incomplete_series() {
    let store = temp_store();
    let mut seen = store.open_tree(b"seen by watchcat").unwrap();
    let mut needs_testing = store.open_tree(b"needs testing").unwrap();
    let cat = Watchcat::new("linuxppc-dev");
    let s = series(42, false, 2);
    let p = last_patch("new", None);
    assert!(!cat.wants_patch_check(&seen, &s).unwrap());
    assert!(!cat.admit_series(&mut seen, &mut needs_testing, &s, &p).unwrap());
    assert!(needs_testing.is_empty());
}

#[test]
fn filters_pull_request_patches() {
    let store = temp_store();
    let mut seen = store.open_tree(b"seen by watchcat").unwrap();
    let mut needs_testing = store.open_tree(b"needs testing").unwrap();
    let cat = Watchcat::new("linuxppc-dev");
    let s = series(42, true, 1);
    let p = last_patch("new", Some("https://git.example.invalid/pull/1"));
    assert!(cat.wants_patch_check(&seen, &s).unwrap());
    assert!(!cat.admit_series(&mut seen, &mut needs_testing, &s, &p).unwrap());
    assert!(seen.is_empty());
    assert!(needs_testing.is_empty());
}

#[test]
fn filters_settled_patches() {
    let store = temp_store();
    let mut seen = store.open_tree(b"seen by watchcat").unwrap();
    let mut needs_testing = store.open_tree(b"needs testing").unwrap();
    let cat = Watchcat::new("linuxppc-dev");
    let s = series(42, true, 1);
    let p = last_patch("accepted", None);
    assert!(!cat.admit_series(&mut seen, &mut needs_testing, &s, &p).unwrap());
    assert!(needs_testing.is_empty());
}

#[test]
fn scan_of_many_series_admits_only_the_new_one() {
    let store = temp_store();
    let mut seen = store.open_tree(b"seen by watchcat").unwrap();
    let mut needs_testing = store.open_tree(b"needs testing").unwrap();
    let cat = Watchcat::new("linuxppc-dev");
    let p = last_patch("new", None);
    // The tracker lists many series; all but one were seen before.
    for id in 1..=250u64 {
        if id != 99 {
            seen.insert(format!("{}", id).as_bytes(), b"hello".to_vec()).unwrap();
        }
    }
    let mut admitted = 0;
    for id in 1..=250u64 {
        let s = series(id, true, 1);
        if cat.wants_patch_check(&seen, &s).unwrap() {
            if cat.admit_series(&mut seen, &mut needs_testing, &s, &p).unwrap() {
                admitted += 1;
            }
        }
    }
    assert_eq!(admitted, 1);
    assert_eq!(needs_testing.entries().unwrap().len(), 1);
    assert!(needs_testing.contains_key(encode_u64(99).as_slice()).unwrap());
    // Running the same scan again admits nothing more.
    for id in 1..=250u64 {
        let s = series(id, true, 1);
        if cat.wants_patch_check(&seen, &s).unwrap() {
            cat.admit_series(&mut seen, &mut needs_testing, &s, &p).unwrap();
        }
    }
    assert_eq!(needs_testing.entries().unwrap().len(), 1);
}
