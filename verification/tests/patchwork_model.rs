//! The tracker data model: admission predicate, state precedence, request
//! URLs, and the serialised verdict.

use snowpatch::patchwork::{
    api_url, check_post_url, patch_checks_url, patch_url, reduce_check_states, series_list_url,
    series_url, tool_context, Patch, Project, SubmitterSummary, TestResult, TestState,
};

fn project() -> Project {
    Project {
        id: 1,
        url: String::from("https://patchwork.ozlabs.org/api/1.2/projects/1"),
        name: String::from("linuxppc-dev"),
        link_name: String::from("linuxppc-dev"),
        list_email: String::from("linuxppc-dev@lists.ozlabs.org"),
        list_id: String::from("linuxppc-dev.lists.ozlabs.org"),
        web_url: None,
        scm_url: None,
        webscm_url: None,
    }
}

fn submitter() -> SubmitterSummary {
    SubmitterSummary {
        id: 7,
        url: String::from("https://patchwork.ozlabs.org/api/1.2/people/7"),
        name: Some(String::from("A Developer")),
        email: String::from("dev@example.invalid"),
    }
}

fn patch(state: &str, pull_url: Option<&str>) -> Patch {
    Patch {
        id: 552023,
        url: String::from("https://patchwork.ozlabs.org/api/1.2/patches/552023"),
        project: project(),
        msgid: String::from("<20220101000000.1-1@example.invalid>"),
        date: String::from("2022-01-01T00:00:00"),
        name: String::from("powerpc: a fix"),
        commit_ref: None,
        pull_url: pull_url.map(String::from),
        state: String::from(state),
        archived: false,
        hash: None,
        submitter: submitter(),
        delegate: None,
        mbox: String::from("https://patchwork.ozlabs.org/patch/552023/mbox/"),
        series: Vec::new(),
        check: TestState::Pending,
        checks: String::from("https://patchwork.ozlabs.org/api/1.2/patches/552023/checks"),
        tags: Vec::new(),
    }
}

#[test]
fn action_required_for_new_and_under_review() {
    assert!(patch("new", None).action_required());
    assert!(patch("under-review", None).action_required());
    assert!(!patch("accepted", None).action_required());
    assert!(!patch("rejected", None).action_required());
}

#[test]
fn pull_requests_are_not_action_required() {
    let p = patch("new", Some("https://git.example.invalid/pull/1"));
    assert!(!p.action_required());
}

#[test]
fn has_series_reads_the_series_list() {
    let p = patch("new", None);
    assert!(!p.has_series());
}

#[test]
fn state_precedence() {
    let success = TestState::Success;
    let warning = TestState::Warning;
    let fail = TestState::Fail;
    let pending = TestState::Pending;
    assert_eq!(reduce_check_states(&vec![success, success]), success);
    assert_eq!(reduce_check_states(&vec![success, warning]), warning);
    assert_eq!(reduce_check_states(&vec![warning, fail, success]), fail);
    assert_eq!(reduce_check_states(&vec![fail, pending, success]), pending);
    assert_eq!(reduce_check_states(&vec![]), success);
}

#[test]
fn default_state_is_pending() {
    assert_eq!(TestState::default(), TestState::Pending);
}

#[test]
fn request_urls() {
    let api = api_url("https://patchwork.ozlabs.org");
    assert_eq!(api, "https://patchwork.ozlabs.org/api/1.2");
    assert_eq!(
        patch_url(&api, 552023),
        "https://patchwork.ozlabs.org/api/1.2/patches/552023"
    );
    assert_eq!(
        series_url(&api, 13675),
        "https://patchwork.ozlabs.org/api/1.2/series/13675"
    );
    assert_eq!(
        series_list_url(&api, "linuxppc-dev", 50),
        "https://patchwork.ozlabs.org/api/1.2/series?order=-id&per_page=50&project=linuxppc-dev"
    );
    assert_eq!(
        patch_checks_url(&api, 552023),
        "https://patchwork.ozlabs.org/api/1.2/patches/552023/checks"
    );
}

#[test]
fn query_values_are_percent_encoded() {
    // A link name of safe characters passes through unchanged...
    assert_eq!(
        series_list_url("https://patchwork.example.invalid/api/1.2", "linuxppc-dev", 50),
        "https://patchwork.example.invalid/api/1.2/series?order=-id&per_page=50&project=linuxppc-dev"
    );
    // ...while reserved characters cannot change the request.
    assert_eq!(
        series_list_url("https://patchwork.example.invalid/api/1.2", "a&b c", 50),
        "https://patchwork.example.invalid/api/1.2/series?order=-id&per_page=50&project=a%26b%20c"
    );
}

#[test]
fn check_post_url_ends_with_slash() {
    let url = check_post_url("https://patchwork.ozlabs.org/api/1.2", 552023);
    assert_eq!(
        url,
        "https://patchwork.ozlabs.org/api/1.2/patches/552023/checks/"
    );
    assert!(url.ends_with('/'));
}

#[test]
fn verdict_json_with_all_fields() {
    let v = TestResult {
        state: TestState::Success,
        target_url: Some(String::from("https://ci.example.invalid/run/1")),
        description: Some(String::from("Successfully ran 3 jobs.")),
        context: Some(String::from("github-build")),
    };
    assert_eq!(
        v.to_json(),
        "{\"state\":\"success\",\"target_url\":\"https://ci.example.invalid/run/1\",\
         \"description\":\"Successfully ran 3 jobs.\",\"context\":\"github-build\"}"
    );
}

#[test]
fn verdict_json_escapes_strings() {
    let v = TestResult {
        state: TestState::Fail,
        target_url: None,
        description: Some(String::from("a \"quoted\" back\\slash\nnewline")),
        context: Some(String::from("ctx")),
    };
    assert_eq!(
        v.to_json(),
        "{\"state\":\"fail\",\"target_url\":null,\
         \"description\":\"a \\\"quoted\\\" back\\\\slash\\u000anewline\",\"context\":\"ctx\"}"
    );
}

#[test]
fn verdict_json_default_context_has_underscored_version() {
    let v = TestResult {
        state: TestState::Pending,
        target_url: None,
        description: None,
        context: None,
    };
    let json = v.to_json();
    assert!(json.contains("\"context\":\"snowpatch-1_0_0\""));
    assert!(!json.contains("1.0.0"));
    assert_eq!(tool_context(), "snowpatch-1_0_0");
}

#[test]
fn state_labels() {
    assert_eq!(TestState::Pending.label(), "pending");
    assert_eq!(TestState::Success.label(), "success");
    assert_eq!(TestState::Warning.label(), "warning");
    assert_eq!(TestState::Fail.label(), "fail");
}
