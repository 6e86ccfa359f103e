//! The reference push-triggered runner: a remote CI service whose workflows
//! react to pushed branches.  The service is reached over HTTP outside the
//! library; what stands here is the reading of what it returns — which API
//! endpoint to ask, and how a workflow run, its jobs and their annotations
//! become one runner result.

use crate::patchwork::TestState;
use crate::runner::JobState;
use crate::runner::RunnerResult;
use crate::text::dec_chars;
use crate::text::find_from;
use crate::text::find_char_from;
use crate::text::str_eq;
use crate::text::substring_chars;
use crate::text::u64_to_string;
use vstd::prelude::*;
use vstd::string::StrSliceExecFns;
use vstd::string::StringExecFns;

verus! {

/// The remote service's report on where a workflow run stands.
#[derive(Clone, Copy, Debug, PartialEq, Eq, Structural)]
pub enum Status {
    Queued,
    InProgress,
    Completed,
}

/// The remote service's verdict on a finished workflow run, job or step.
#[derive(Clone, Copy, Debug, PartialEq, Eq, Structural)]
pub enum Conclusion {
    ActionRequired,
    Cancelled,
    Failure,
    Neutral,
    Success,
    Skipped,
    Stale,
    StartupFailure,
    TimedOut,
}

/// One workflow run, as the service lists it for a branch.
#[derive(Clone, Debug)]
pub struct WorkflowRun {
    pub artifacts_url: String,
    pub cancel_url: String,
    /// Not an API URL: where people look at the run.
    pub html_url: String,
    pub jobs_url: String,
    pub conclusion: Option<Conclusion>,
    pub status: Status,
    pub name: String,
}

/// The workflow runs the service lists for a branch.
#[derive(Clone, Debug)]
pub struct WorkflowRuns {
    pub count: u64,
    pub runs: Vec<WorkflowRun>,
}

/// One step of a job.
#[derive(Clone, Debug)]
pub struct Step {
    pub conclusion: Conclusion,
    pub name: String,
    pub number: u64,
    pub status: Status,
}

/// One job of a workflow run.
#[derive(Clone, Debug)]
pub struct Job {
    pub name: String,
    pub steps: Vec<Step>,
    pub url: String,
    pub html_url: String,
    pub check_run_url: String,
    pub conclusion: Conclusion,
}

/// The jobs of a workflow run.
#[derive(Clone, Debug)]
pub struct Jobs {
    pub jobs: Vec<Job>,
    pub count: u64,
}

/// What a job's check run reported: its annotations, if any.
#[derive(Clone, Debug)]
pub struct CheckRunOutput {
    pub annotations_count: u64,
    pub annotations_url: String,
    pub title: String,
}

/// The runner's handle, naming its queues and prefixing its contexts.
pub fn github_handle() -> (r: String)
    ensures
        r@ == "github"@,
{
    String::from_str("github")
}

/// The owner and repository a repository URL names: the first two path
/// segments after the host, and nothing more.  The scheme and host are
/// skipped, not checked: only the path matters here.
pub open spec fn repo_parts(s: Seq<char>) -> Option<(Seq<char>, Seq<char>)> {
    match find_from(s, ':', 0) {
        Some(ci) => if ci + 3 <= s.len() && s[ci + 1] == '/' && s[ci + 2] == '/' {
            match find_from(s, '/', ci + 3) {
                Some(h) => match find_from(s, '/', h + 1) {
                    Some(o) => if find_from(s, '/', o + 1) is None {
                        Some((s.subrange(h + 1, o), s.subrange(o + 1, s.len() as int)))
                    } else {
                        None
                    },
                    None => None,
                },
                None => None,
            }
        } else {
            None
        },
        None => None,
    }
}

/// Read the owner and repository out of a repository URL.  Returns `None`
/// exactly when the URL does not name a path of exactly two segments.
pub fn parse_repo_url(url: &str) -> (r: Option<(String, String)>)
    ensures
        r matches Some(p) ==> (repo_parts(url@) matches Some(q) && p.0@ == q.0 && p.1@ == q.1),
        r is None ==> repo_parts(url@) is None,
{
    let len = url.unicode_len();
    let ci = match find_char_from(url, ':', 0) {
        Some(i) => i,
        None => {
            return None;
        },
    };
    proof {
        crate::text::lemma_find_from_in_range(url@, ':', 0);
    }
    if len - ci < 3 {
        return None;
    }
    if url.get_char(ci + 1) != '/' || url.get_char(ci + 2) != '/' {
        return None;
    }
    let h = match find_char_from(url, '/', ci + 3) {
        Some(i) => i,
        None => {
            return None;
        },
    };
    proof {
        crate::text::lemma_find_from_in_range(url@, '/', ci + 3);
    }
    let o = match find_char_from(url, '/', h + 1) {
        Some(i) => i,
        None => {
            return None;
        },
    };
    proof {
        crate::text::lemma_find_from_in_range(url@, '/', h + 1);
    }
    match find_char_from(url, '/', o + 1) {
        Some(_) => None,
        None => {
            let owner = substring_chars(url, h + 1, o);
            let repo = substring_chars(url, o + 1, len);
            Some((owner, repo))
        },
    }
}

/// The service's API root for a repository, from the repository's URL.
pub fn github_api_url(url: &str) -> (r: Option<String>)
    ensures
        r matches Some(u) ==> (repo_parts(url@) matches Some(p) && u@
            == "https://api.github.com/repos/"@ + p.0 + "/"@ + p.1),
        r is None ==> repo_parts(url@) is None,
{
    match parse_repo_url(url) {
        Some((owner, repo)) => {
            let mut s = String::from_str("https://api.github.com/repos/");
            s.append(owner.as_str());
            s.append("/");
            s.append(repo.as_str());
            proof {
                assert(s@ =~= "https://api.github.com/repos/"@ + repo_parts(url@)->Some_0.0 + "/"@
                    + repo_parts(url@)->Some_0.1);
            }
            Some(s)
        },
        None => None,
    }
}

/// The URL listing a branch's workflow runs under an API root.  The
/// branch name is spliced in percent-encoded, so a name holding a
/// reserved character cannot change the request.
pub fn runs_list_url(api: &str, branch: &str) -> (r: String)
    ensures
        r@ == api@ + "/actions/runs?branch="@ + crate::patchwork::query_encoded(branch@),
{
    let mut s = String::from_str(api);
    s.append("/actions/runs?branch=");
    crate::patchwork::append_query_encoded(&mut s, branch);
    proof {
        assert(s@ =~= api@ + "/actions/runs?branch="@ + crate::patchwork::query_encoded(
            branch@,
        ));
    }
    s
}

/// The job state a workflow run's status and conclusion denote: queued
/// waits, in-progress runs, and a completed run completed, unless the
/// service concluded it never really ran — cancelled, skipped, stale,
/// timed out, broken at startup, or without any conclusion — which is
/// failed.  A run concluded as requiring action completed: its verdict
/// still has to reach the tracker.
pub open spec fn run_state(status: Status, conclusion: Option<Conclusion>) -> JobState {
    match status {
        Status::Queued => JobState::Waiting,
        Status::InProgress => JobState::Running,
        Status::Completed => match conclusion {
            Some(c) => match c {
                Conclusion::Failure => JobState::Completed,
                Conclusion::Neutral => JobState::Completed,
                Conclusion::Success => JobState::Completed,
                Conclusion::ActionRequired => JobState::Completed,
                Conclusion::Cancelled => JobState::Failed,
                Conclusion::Skipped => JobState::Failed,
                Conclusion::Stale => JobState::Failed,
                Conclusion::TimedOut => JobState::Failed,
                Conclusion::StartupFailure => JobState::Failed,
            },
            None => JobState::Failed,
        },
    }
}

/// Classify a workflow run's status and conclusion as a job state.
pub fn classify_run_state(status: Status, conclusion: &Option<Conclusion>) -> (r: JobState)
    ensures
        r == run_state(status, *conclusion),
{
    match status {
        Status::Queued => JobState::Waiting,
        Status::InProgress => JobState::Running,
        Status::Completed => match conclusion {
            Some(c) => match c {
                Conclusion::Failure => JobState::Completed,
                Conclusion::Neutral => JobState::Completed,
                Conclusion::Success => JobState::Completed,
                Conclusion::ActionRequired => JobState::Completed,
                _ => JobState::Failed,
            },
            None => JobState::Failed,
        },
    }
}

/// How many jobs the service concluded as failures.
pub open spec fn failed_job_count(s: Seq<Job>) -> int
    decreases s.len(),
{
    if s.len() == 0 {
        0
    } else {
        failed_job_count(s.drop_last()) + if s.last().conclusion is Failure {
            1int
        } else {
            0int
        }
    }
}

/// The first job the service concluded as a failure; the length when none.
pub open spec fn first_failed_job(s: Seq<Job>) -> int
    decreases s.len(),
{
    if s.len() == 0 {
        0
    } else if failed_job_count(s.drop_last()) > 0 {
        first_failed_job(s.drop_last())
    } else if s.last().conclusion is Failure {
        s.len() - 1
    } else {
        s.len() as int
    }
}

/// How many steps of a job the service concluded as failures.
pub open spec fn failed_step_count(s: Seq<Step>) -> int
    decreases s.len(),
{
    if s.len() == 0 {
        0
    } else {
        failed_step_count(s.drop_last()) + if s.last().conclusion is Failure {
            1int
        } else {
            0int
        }
    }
}

/// The first failing step of a job; the length when none.
pub open spec fn first_failed_step(s: Seq<Step>) -> int
    decreases s.len(),
{
    if s.len() == 0 {
        0
    } else if failed_step_count(s.drop_last()) > 0 {
        first_failed_step(s.drop_last())
    } else if s.last().conclusion is Failure {
        s.len() - 1
    } else {
        s.len() as int
    }
}

/// Whether some failing step is the runner's own setup step: such a
/// failure is not the patch's fault.
pub open spec fn has_failed_setup_step(s: Seq<Step>) -> bool {
    exists|m: int|
        0 <= m < s.len() && (#[trigger] s[m]).conclusion is Failure && s[m].name@ == "Set up job"@
}

/// How many check runs carry annotations.
pub open spec fn annotated_check_count(s: Seq<CheckRunOutput>) -> int
    decreases s.len(),
{
    if s.len() == 0 {
        0
    } else {
        annotated_check_count(s.drop_last()) + if s.last().annotations_count > 0 {
            1int
        } else {
            0int
        }
    }
}

/// The first check run that carries annotations; the length when none.
pub open spec fn first_annotated_check(s: Seq<CheckRunOutput>) -> int
    decreases s.len(),
{
    if s.len() == 0 {
        0
    } else if annotated_check_count(s.drop_last()) > 0 {
        first_annotated_check(s.drop_last())
    } else if s.last().annotations_count > 0 {
        s.len() - 1
    } else {
        s.len() as int
    }
}

/// The annotations over all check runs, counted together.
pub open spec fn total_annotations(s: Seq<CheckRunOutput>) -> int
    decreases s.len(),
{
    if s.len() == 0 {
        0
    } else {
        total_annotations(s.drop_last()) + s.last().annotations_count
    }
}

/// A count clipped to a machine word, as it is written into a description.
pub open spec fn sat64(x: int) -> int {
    if x > u64::MAX {
        u64::MAX as int
    } else {
        x
    }
}

/// The outcome and description of a run the service concluded a failure,
/// read from its jobs.  A failure of the runner's own setup step weakens
/// the outcome to a warning, because it is not attributable to the patch.
pub open spec fn failure_outcome(jobs: Jobs) -> (TestState, Seq<char>) {
    let nf = failed_job_count(jobs.jobs@);
    if nf > 1 {
        (
            TestState::Fail,
            dec_chars(nf as nat) + " of "@ + dec_chars(jobs.count as nat) + " jobs failed."@,
        )
    } else {
        let j = jobs.jobs@[first_failed_job(jobs.jobs@)];
        if has_failed_setup_step(j.steps@) {
            (TestState::Warning, j.name@ + " failed to run, not the patch's fault"@)
        } else if failed_step_count(j.steps@) == 1 {
            (
                TestState::Fail,
                j.name@ + " failed at step "@ + j.steps@[first_failed_step(j.steps@)].name@
                    + "."@,
            )
        } else {
            (
                TestState::Fail,
                j.name@ + " failed "@ + dec_chars(failed_step_count(j.steps@) as nat) + " of "@
                    + dec_chars(j.steps@.len() as nat) + " steps."@,
            )
        }
    }
}

/// The outcome and description of a run the service concluded a success,
/// read from its check runs: annotations weaken the outcome to a warning.
pub open spec fn success_outcome(jobs_count: u64, checks: Seq<CheckRunOutput>) -> (
    TestState,
    Seq<char>,
) {
    let na = annotated_check_count(checks);
    if na == 0 {
        (TestState::Success, "Successfully ran "@ + dec_chars(jobs_count as nat) + " jobs."@)
    } else if na == 1 {
        let c = checks[first_annotated_check(checks)];
        (
            TestState::Warning,
            c.title@ + " found "@ + dec_chars(c.annotations_count as nat) + " issues."@,
        )
    } else {
        (
            TestState::Warning,
            "Found "@ + dec_chars(sat64(total_annotations(checks)) as nat) + " issues from "@
                + dec_chars(na as nat) + " of "@ + dec_chars(jobs_count as nat) + " jobs."@,
        )
    }
}

/// The jobs behind an optional borrow.
pub open spec fn borrowed_jobs(o: Option<&Jobs>) -> Option<Jobs> {
    match o {
        Some(j) => Some(*j),
        None => None,
    }
}

/// Whether classifying a workflow run needs its jobs fetched: only a
/// concluded failure or success is drilled into.
pub open spec fn needs_jobs(wfr: WorkflowRun) -> bool {
    wfr.conclusion == Some(Conclusion::Failure) || wfr.conclusion == Some(Conclusion::Success)
}

impl WorkflowRun {
    /// Whether classifying this run needs its jobs fetched.
    pub fn wants_jobs(&self) -> (r: bool)
        ensures
            r == needs_jobs(*self),
    {
        match &self.conclusion {
            Some(Conclusion::Failure) => true,
            Some(Conclusion::Success) => true,
            _ => false,
        }
    }
}

/// The outcome and description of a workflow run, from its conclusion and
/// whatever was fetched for it; nothing, when the service reported an
/// overall failure but concluded no job as one.
pub open spec fn run_outcome(
    wfr: WorkflowRun,
    jobs: Option<Jobs>,
    checks: Seq<CheckRunOutput>,
) -> Option<(TestState, Seq<char>)> {
    match wfr.conclusion {
        None => Some((TestState::Fail, "Missing conclusion from job"@)),
        Some(c) => match c {
            Conclusion::ActionRequired => Some((TestState::Fail, "Manual intervention required"@)),
            Conclusion::Cancelled => Some((TestState::Fail, "Job manually cancelled"@)),
            Conclusion::Neutral => Some(
                (TestState::Warning, "Neutral job result, check for details"@),
            ),
            Conclusion::Skipped => Some((TestState::Warning, "Job skipped."@)),
            Conclusion::Stale => Some((TestState::Warning, "Job 'stale'?  No results."@)),
            Conclusion::StartupFailure => Some((TestState::Fail, "Job currently broken."@)),
            Conclusion::TimedOut => Some((TestState::Fail, "Job timed out."@)),
            Conclusion::Failure => {
                if failed_job_count(jobs->Some_0.jobs@) == 0 {
                    None
                } else {
                    Some(failure_outcome(jobs->Some_0))
                }
            },
            Conclusion::Success => Some(success_outcome(jobs->Some_0.count, checks)),
        },
    }
}

/// Classifying a run failed: what the fetched data could not support.
#[derive(Debug)]
pub enum ClassifyError {
    /// The service concluded the run a failure, yet concluded none of its
    /// jobs as one.
    MissingFailures,
}

fn count_failed_jobs(jobs: &Vec<Job>) -> (r: (usize, usize))
    ensures
        r.0 == failed_job_count(jobs@),
        r.0 > 0 ==> r.1 == first_failed_job(jobs@) && r.1 < jobs@.len() && jobs@[r.1 as int].conclusion is Failure,
        r.0 == 0 ==> first_failed_job(jobs@) == jobs@.len(),
{
    let mut nf: usize = 0;
    let mut fi: usize = 0;
    let mut i: usize = 0;
    while i < jobs.len()
        invariant
            0 <= i <= jobs@.len(),
            nf == failed_job_count(jobs@.take(i as int)),
            nf <= i,
            nf > 0 ==> fi == first_failed_job(jobs@.take(i as int)) && fi < i && jobs@[fi as int].conclusion is Failure,
            nf == 0 ==> first_failed_job(jobs@.take(i as int)) == i,
        decreases jobs@.len() - i,
    {
        proof {
            assert(jobs@.take(i + 1).drop_last() =~= jobs@.take(i as int));
            assert(jobs@.take(i + 1).last() == jobs@[i as int]);
        }
        let failing = match jobs[i].conclusion {
            Conclusion::Failure => true,
            _ => false,
        };
        if failing {
            if nf == 0 {
                fi = i;
            }
            nf = nf + 1;
        }
        i = i + 1;
    }
    proof {
        assert(jobs@.take(jobs@.len() as int) =~= jobs@);
    }
    (nf, fi)
}

fn count_failed_steps(steps: &Vec<Step>) -> (r: (usize, usize, bool))
    ensures
        r.0 == failed_step_count(steps@),
        r.0 > 0 ==> r.1 == first_failed_step(steps@) && r.1 < steps@.len(),
        r.2 == has_failed_setup_step(steps@),
{
    let mut nf: usize = 0;
    let mut fi: usize = 0;
    let mut setup = false;
    let mut i: usize = 0;
    while i < steps.len()
        invariant
            0 <= i <= steps@.len(),
            nf == failed_step_count(steps@.take(i as int)),
            nf <= i,
            nf > 0 ==> fi == first_failed_step(steps@.take(i as int)) && fi < i,
            nf == 0 ==> first_failed_step(steps@.take(i as int)) == i,
            setup == has_failed_setup_step(steps@.take(i as int)),
        decreases steps@.len() - i,
    {
        proof {
            assert(steps@.take(i + 1).drop_last() =~= steps@.take(i as int));
            assert(steps@.take(i + 1).last() == steps@[i as int]);
        }
        let failing = match steps[i].conclusion {
            Conclusion::Failure => true,
            _ => false,
        };
        let setup_here = failing && str_eq(steps[i].name.as_str(), "Set up job");
        proof {
            let pre = steps@.take(i as int);
            let ext = steps@.take(i + 1);
            assert(has_failed_setup_step(ext) == (has_failed_setup_step(pre) || (
            steps@[i as int].conclusion is Failure && steps@[i as int].name@ == "Set up job"@)))
                by {
                if has_failed_setup_step(pre) {
                    let w = choose|m: int|
                        0 <= m < pre.len() && (#[trigger] pre[m]).conclusion is Failure
                            && pre[m].name@ == "Set up job"@;
                    assert(ext[w].conclusion is Failure && ext[w].name@ == "Set up job"@);
                }
                if steps@[i as int].conclusion is Failure && steps@[i as int].name@
                    == "Set up job"@ {
                    assert(ext[i as int].conclusion is Failure && ext[i as int].name@
                        == "Set up job"@);
                }
                if has_failed_setup_step(ext) {
                    let w = choose|m: int|
                        0 <= m < ext.len() && (#[trigger] ext[m]).conclusion is Failure
                            && ext[m].name@ == "Set up job"@;
                    if w < i {
                        assert(pre[w].conclusion is Failure && pre[w].name@ == "Set up job"@);
                    }
                }
            }
        }
        if setup_here {
            setup = true;
        }
        if failing {
            if nf == 0 {
                fi = i;
            }
            nf = nf + 1;
        }
        i = i + 1;
    }
    proof {
        assert(steps@.take(steps@.len() as int) =~= steps@);
    }
    (nf, fi, setup)
}

fn count_annotated_checks(checks: &Vec<CheckRunOutput>) -> (r: (usize, usize, u64))
    ensures
        r.0 == annotated_check_count(checks@),
        r.0 > 0 ==> r.1 == first_annotated_check(checks@) && r.1 < checks@.len(),
        r.2 == sat64(total_annotations(checks@)),
{
    let mut na: usize = 0;
    let mut fi: usize = 0;
    let mut total: u128 = 0;
    let mut i: usize = 0;
    while i < checks.len()
        invariant
            0 <= i <= checks@.len(),
            na == annotated_check_count(checks@.take(i as int)),
            na <= i,
            na > 0 ==> fi == first_annotated_check(checks@.take(i as int)) && fi < i,
            na == 0 ==> first_annotated_check(checks@.take(i as int)) == i,
            total == total_annotations(checks@.take(i as int)),
            total <= (i as int) * (u64::MAX as int),
        decreases checks@.len() - i,
    {
        proof {
            assert(checks@.take(i + 1).drop_last() =~= checks@.take(i as int));
            assert(checks@.take(i + 1).last() == checks@[i as int]);
            assert((i as int) * (u64::MAX as int) + (u64::MAX as int) == ((i + 1) as int) * (
            u64::MAX as int)) by (nonlinear_arith);
        }
        let c = checks[i].annotations_count;
        if c > 0 {
            if na == 0 {
                fi = i;
            }
            na = na + 1;
        }
        total = total + c as u128;
        i = i + 1;
    }
    proof {
        assert(checks@.take(checks@.len() as int) =~= checks@);
    }
    if total > u64::MAX as u128 {
        (na, fi, u64::MAX)
    } else {
        (na, fi, total as u64)
    }
}

/// Read one workflow run, with whatever was fetched for it, as a runner
/// result: the job state from status and conclusion, the outcome and
/// description from the conclusion, the jobs and the annotations, and the
/// run's own name and viewing URL carried over.  Fails only when the
/// service concluded the run a failure yet concluded no job as one.
pub fn workflow_run_result(
    wfr: &WorkflowRun,
    jobs: Option<&Jobs>,
    checks: &Vec<CheckRunOutput>,
) -> (r: Result<RunnerResult, ClassifyError>)
    requires
        needs_jobs(*wfr) ==> jobs is Some,
    ensures
        r matches Ok(rr) ==> {
            &&& run_outcome(*wfr, borrowed_jobs(jobs), checks@) matches Some(p)
            &&& rr.state == run_state(wfr.status, wfr.conclusion)
            &&& rr.outcome == run_outcome(*wfr, borrowed_jobs(jobs), checks@)->Some_0.0
            &&& rr.description matches Some(d) && d@ == run_outcome(
                *wfr,
                borrowed_jobs(jobs),
                checks@,
            )->Some_0.1
            &&& rr.name@ == wfr.name@
            &&& rr.url matches Some(u) && u@ == wfr.html_url@
        },
        r is Err ==> run_outcome(*wfr, borrowed_jobs(jobs), checks@) is None,
{
    let state = classify_run_state(wfr.status, &wfr.conclusion);
    let (outcome, description): (TestState, String) = match &wfr.conclusion {
        None => (TestState::Fail, String::from_str("Missing conclusion from job")),
        Some(c) => match c {
            Conclusion::ActionRequired => (
                TestState::Fail,
                String::from_str("Manual intervention required"),
            ),
            Conclusion::Cancelled => (TestState::Fail, String::from_str("Job manually cancelled")),
            Conclusion::Neutral => (
                TestState::Warning,
                String::from_str("Neutral job result, check for details"),
            ),
            Conclusion::Skipped => (TestState::Warning, String::from_str("Job skipped.")),
            Conclusion::Stale => (TestState::Warning, String::from_str("Job 'stale'?  No results.")),
            Conclusion::StartupFailure => (
                TestState::Fail,
                String::from_str("Job currently broken."),
            ),
            Conclusion::TimedOut => (TestState::Fail, String::from_str("Job timed out.")),
            Conclusion::Failure => {
                let js = match jobs {
                    Some(js) => js,
                    None => {
                        return Err(ClassifyError::MissingFailures);
                    },
                };
                let (nf, fi) = count_failed_jobs(&js.jobs);
                if nf == 0 {
                    return Err(ClassifyError::MissingFailures);
                } else if nf > 1 {
                    let mut d = u64_to_string(nf as u64);
                    d.append(" of ");
                    d.append(u64_to_string(js.count).as_str());
                    d.append(" jobs failed.");
                    proof {
                        assert(d@ =~= failure_outcome(*js).1);
                    }
                    (TestState::Fail, d)
                } else {
                    let job = &js.jobs[fi];
                    let (ns, si, setup) = count_failed_steps(&job.steps);
                    if setup {
                        let mut d = String::from_str(job.name.as_str());
                        d.append(" failed to run, not the patch's fault");
                        proof {
                            assert(d@ =~= failure_outcome(*js).1);
                        }
                        (TestState::Warning, d)
                    } else if ns == 1 {
                        let mut d = String::from_str(job.name.as_str());
                        d.append(" failed at step ");
                        d.append(job.steps[si].name.as_str());
                        d.append(".");
                        proof {
                            assert(d@ =~= failure_outcome(*js).1);
                        }
                        (TestState::Fail, d)
                    } else {
                        let mut d = String::from_str(job.name.as_str());
                        d.append(" failed ");
                        d.append(u64_to_string(ns as u64).as_str());
                        d.append(" of ");
                        d.append(u64_to_string(job.steps.len() as u64).as_str());
                        d.append(" steps.");
                        proof {
                            assert(d@ =~= failure_outcome(*js).1);
                        }
                        (TestState::Fail, d)
                    }
                }
            },
            Conclusion::Success => {
                let js = match jobs {
                    Some(js) => js,
                    None => {
                        return Err(ClassifyError::MissingFailures);
                    },
                };
                let (na, fi, total) = count_annotated_checks(checks);
                if na == 0 {
                    let mut d = String::from_str("Successfully ran ");
                    d.append(u64_to_string(js.count).as_str());
                    d.append(" jobs.");
                    proof {
                        assert(d@ =~= success_outcome(js.count, checks@).1);
                    }
                    (TestState::Success, d)
                } else if na == 1 {
                    let check = &checks[fi];
                    let mut d = String::from_str(check.title.as_str());
                    d.append(" found ");
                    d.append(u64_to_string(check.annotations_count).as_str());
                    d.append(" issues.");
                    proof {
                        assert(d@ =~= success_outcome(js.count, checks@).1);
                    }
                    (TestState::Warning, d)
                } else {
                    let mut d = String::from_str("Found ");
                    d.append(u64_to_string(total).as_str());
                    d.append(" issues from ");
                    d.append(u64_to_string(na as u64).as_str());
                    d.append(" of ");
                    d.append(u64_to_string(js.count).as_str());
                    d.append(" jobs.");
                    proof {
                        assert(d@ =~= success_outcome(js.count, checks@).1);
                    }
                    (TestState::Warning, d)
                }
            },
        },
    };
    Ok(
        RunnerResult {
            name: wfr.name.clone(),
            state,
            outcome,
            url: Some(wfr.html_url.clone()),
            description: Some(description),
        },
    )
}

} // verus!
