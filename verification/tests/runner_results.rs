//! The runner layer: the outcome classification of workflow runs, and the
//! once-only recording of finished jobs for dispatch.

use snowpatch::config::{Runner, Trigger};
use snowpatch::patchwork::TestState;
use snowpatch::runner::github::{
    classify_run_state, github_api_url, github_handle, parse_repo_url, runs_list_url,
    workflow_run_result, CheckRunOutput, Conclusion, Job, Jobs, Status, Step, WorkflowRun,
};
use snowpatch::runner::{record_finished, register_runner, JobState};
use snowpatch::store::Store;

fn run(status: Status, conclusion: Option<Conclusion>) -> WorkflowRun {
    WorkflowRun {
        artifacts_url: String::from("https://api.github.invalid/artifacts"),
        cancel_url: String::from("https://api.github.invalid/cancel"),
        html_url: String::from("https://github.invalid/run/1"),
        jobs_url: String::from("https://api.github.invalid/jobs"),
        conclusion,
        status,
        name: String::from("CI"),
    }
}

fn step(name: &str, conclusion: Conclusion) -> Step {
    Step {
        conclusion,
        name: String::from(name),
        number: 1,
        status: Status::Completed,
    }
}

fn job(name: &str, conclusion: Conclusion, steps: Vec<Step>) -> Job {
    Job {
        name: String::from(name),
        steps,
        url: String::from("https://api.github.invalid/job"),
        html_url: String::from("https://github.invalid/job"),
        check_run_url: String::from("https://api.github.invalid/check-run"),
        conclusion,
    }
}

fn check(title: &str, annotations: u64) -> CheckRunOutput {
    CheckRunOutput {
        annotations_count: annotations,
        annotations_url: String::from("https://api.github.invalid/annotations"),
        title: String::from(title),
    }
}

#[test]
fn state_table() {
    assert_eq!(classify_run_state(Status::Queued, &None), JobState::Waiting);
    assert_eq!(classify_run_state(Status::InProgress, &None), JobState::Running);
    for c in [
        Conclusion::Failure,
        Conclusion::Neutral,
        Conclusion::Success,
        Conclusion::ActionRequired,
    ] {
        assert_eq!(classify_run_state(Status::Completed, &Some(c)), JobState::Completed);
    }
    for c in [
        Conclusion::Cancelled,
        Conclusion::Skipped,
        Conclusion::Stale,
        Conclusion::TimedOut,
        Conclusion::StartupFailure,
    ] {
        assert_eq!(classify_run_state(Status::Completed, &Some(c)), JobState::Failed);
    }
    assert_eq!(classify_run_state(Status::Completed, &None), JobState::Failed);
}

#[test]
fn action_required_completes_and_fails_the_verdict() {
    // A run the service flags as requiring action has finished as far as
    // the pipeline is concerned: its fail verdict must reach the tracker.
    let wfr = run(Status::Completed, Some(Conclusion::ActionRequired));
    let rr = workflow_run_result(&wfr, None, &vec![]).unwrap();
    assert_eq!(rr.state, JobState::Completed);
    assert_eq!(rr.outcome, TestState::Fail);
    assert_eq!(rr.description.as_deref(), Some("Manual intervention required"));
}

#[test]
fn success_without_annotations() {
    let wfr = run(Status::Completed, Some(Conclusion::Success));
    let jobs = Jobs { jobs: vec![job("build", Conclusion::Success, vec![])], count: 3 };
    let rr = workflow_run_result(&wfr, Some(&jobs), &vec![check("build", 0)]).unwrap();
    assert_eq!(rr.outcome, TestState::Success);
    assert_eq!(rr.description.as_deref(), Some("Successfully ran 3 jobs."));
    assert_eq!(rr.state, JobState::Completed);
    assert_eq!(rr.name, "CI");
    assert_eq!(rr.url.as_deref(), Some("https://github.invalid/run/1"));
}

#[test]
fn success_with_annotations_becomes_warning() {
    let wfr = run(Status::Completed, Some(Conclusion::Success));
    let jobs = Jobs { jobs: vec![], count: 4 };
    let rr = workflow_run_result(&wfr, Some(&jobs), &vec![check("sparse", 5)]).unwrap();
    assert_eq!(rr.outcome, TestState::Warning);
    assert_eq!(rr.description.as_deref(), Some("sparse found 5 issues."));

    let many = vec![check("sparse", 5), check("clippy", 2)];
    let rr = workflow_run_result(&wfr, Some(&jobs), &many).unwrap();
    assert_eq!(rr.outcome, TestState::Warning);
    assert_eq!(
        rr.description.as_deref(),
        Some("Found 7 issues from 2 of 4 jobs.")
    );
}

#[test]
fn failed_setup_step_weakens_to_warning() {
    let wfr = run(Status::Completed, Some(Conclusion::Failure));
    let jobs = Jobs {
        jobs: vec![job(
            "build",
            Conclusion::Failure,
            vec![step("Set up job", Conclusion::Failure)],
        )],
        count: 1,
    };
    let rr = workflow_run_result(&wfr, Some(&jobs), &vec![]).unwrap();
    assert_eq!(rr.outcome, TestState::Warning);
    let description = rr.description.unwrap();
    assert!(description.contains("failed to run"));
}

#[test]
fn single_failing_step_is_named() {
    let wfr = run(Status::Completed, Some(Conclusion::Failure));
    let jobs = Jobs {
        jobs: vec![job(
            "build",
            Conclusion::Failure,
            vec![
                step("checkout", Conclusion::Success),
                step("make", Conclusion::Failure),
            ],
        )],
        count: 1,
    };
    let rr = workflow_run_result(&wfr, Some(&jobs), &vec![]).unwrap();
    assert_eq!(rr.outcome, TestState::Fail);
    assert_eq!(rr.description.as_deref(), Some("build failed at step make."));
}

#[test]
fn several_failing_steps_are_counted() {
    let wfr = run(Status::Completed, Some(Conclusion::Failure));
    let jobs = Jobs {
        jobs: vec![job(
            "build",
            Conclusion::Failure,
            vec![
                step("make", Conclusion::Failure),
                step("boot", Conclusion::Failure),
                step("upload", Conclusion::Success),
            ],
        )],
        count: 1,
    };
    let rr = workflow_run_result(&wfr, Some(&jobs), &vec![]).unwrap();
    assert_eq!(rr.outcome, TestState::Fail);
    assert_eq!(rr.description.as_deref(), Some("build failed 2 of 3 steps."));
}

#[test]
fn several_failing_jobs_are_counted() {
    let wfr = run(Status::Completed, Some(Conclusion::Failure));
    let jobs = Jobs {
        jobs: vec![
            job("build", Conclusion::Failure, vec![]),
            job("boot", Conclusion::Failure, vec![]),
            job("docs", Conclusion::Success, vec![]),
        ],
        count: 3,
    };
    let rr = workflow_run_result(&wfr, Some(&jobs), &vec![]).unwrap();
    assert_eq!(rr.outcome, TestState::Fail);
    assert_eq!(rr.description.as_deref(), Some("2 of 3 jobs failed."));
}

#[test]
fn failure_without_failing_jobs_is_an_error() {
    let wfr = run(Status::Completed, Some(Conclusion::Failure));
    let jobs = Jobs { jobs: vec![job("build", Conclusion::Success, vec![])], count: 1 };
    assert!(workflow_run_result(&wfr, Some(&jobs), &vec![]).is_err());
}

#[test]
fn plain_conclusions_map_by_the_table() {
    let cases = [
        (Conclusion::ActionRequired, TestState::Fail, "Manual intervention required"),
        (Conclusion::Cancelled, TestState::Fail, "Job manually cancelled"),
        (Conclusion::Neutral, TestState::Warning, "Neutral job result, check for details"),
        (Conclusion::Skipped, TestState::Warning, "Job skipped."),
        (Conclusion::Stale, TestState::Warning, "Job 'stale'?  No results."),
        (Conclusion::StartupFailure, TestState::Fail, "Job currently broken."),
        (Conclusion::TimedOut, TestState::Fail, "Job timed out."),
    ];
    for (conclusion, outcome, description) in cases {
        let wfr = run(Status::Completed, Some(conclusion));
        let rr = workflow_run_result(&wfr, None, &vec![]).unwrap();
        assert_eq!(rr.outcome, outcome);
        assert_eq!(rr.description.as_deref(), Some(description));
    }
    let wfr = run(Status::Completed, None);
    let rr = workflow_run_result(&wfr, None, &vec![]).unwrap();
    assert_eq!(rr.outcome, TestState::Fail);
    assert_eq!(rr.description.as_deref(), Some("Missing conclusion from job"));
}

#[test]
fn repo_urls_resolve_to_the_api() {
    assert_eq!(
        parse_repo_url("https://github.com/ruscur/linux-ci"),
        Some((String::from("ruscur"), String::from("linux-ci")))
    );
    assert_eq!(parse_repo_url("https://github.com/ruscur"), None);
    assert_eq!(parse_repo_url("https://github.com/ruscur/linux-ci/extra"), None);
    assert_eq!(parse_repo_url("not a url"), None);
    assert_eq!(
        github_api_url("https://github.com/ruscur/linux-ci").as_deref(),
        Some("https://api.github.com/repos/ruscur/linux-ci")
    );
    // The slash of the branch name is percent-encoded in the query.
    assert_eq!(
        runs_list_url("https://api.github.com/repos/ruscur/linux-ci", "snowpatch/254076"),
        "https://api.github.com/repos/ruscur/linux-ci/actions/runs?branch=snowpatch%2f254076"
    );
}

fn finished(name: &str, state: JobState) -> snowpatch::runner::RunnerResult {
    snowpatch::runner::RunnerResult {
        name: String::from(name),
        state,
        outcome: TestState::Success,
        url: None,
        description: None,
    }
}

#[test]
fn finished_jobs_are_recorded_once() {
    let store = Store::new(sled::Config::new().temporary(true).open().unwrap());
    let mut needs_dispatch = store.open_tree(b"needs dispatch").unwrap();
    let mut completed: Vec<String> = Vec::new();

    let results = vec![
        finished("build", JobState::Completed),
        finished("boot", JobState::Running),
    ];
    let done =
        record_finished(&mut needs_dispatch, "github", "42", &results, &mut completed).unwrap();
    assert!(!done);
    assert_eq!(needs_dispatch.entries().unwrap().len(), 1);
    assert!(needs_dispatch.contains_key(b"github 42 build").unwrap());

    // A later poll reports the same job again, now with a second one done:
    // only the new job is enqueued.
    let results = vec![
        finished("build", JobState::Completed),
        finished("boot", JobState::Failed),
    ];
    let done =
        record_finished(&mut needs_dispatch, "github", "42", &results, &mut completed).unwrap();
    assert!(done);
    assert_eq!(needs_dispatch.entries().unwrap().len(), 2);
    assert!(needs_dispatch.contains_key(b"github 42 boot").unwrap());
}

#[test]
fn push_runners_register_their_remote() {
    let store = Store::new(sled::Config::new().temporary(true).open().unwrap());
    let mut remotes = store.open_tree(b"remotes to push to").unwrap();
    let runner = Runner::GitHub {
        trigger: Trigger::OnPush { remote: String::from("origin") },
        url: String::from("https://github.com/ruscur/linux-ci"),
        token: None,
    };
    register_runner(&mut remotes, &runner).unwrap();
    assert_eq!(remotes.get(b"origin").unwrap(), Some(b"github".to_vec()));
    assert_eq!(github_handle(), "github");
}
