//! The runner layer: the records a CI adaptor produces for each remote job,
//! their stored byte form, and the bookkeeping that feeds finished jobs to
//! the dispatcher exactly once.

use crate::codec::read_string_at;
use crate::codec::string_bytes;
use crate::codec::write_string;
use crate::dispatch::dispatch_key;
use crate::dispatch::dispatch_key_chars;
use crate::patchwork::opt_chars;
use crate::patchwork::TestState;
use crate::store::QueueTree;
use crate::store::StoreError;
use vstd::prelude::*;
use vstd::string::StrSliceExecFns;
use vstd::utf8::encode_utf8;

pub mod github;

verus! {

/// Where a remote job stands.
#[derive(Clone, Copy, Debug, PartialEq, Eq, Structural)]
pub enum JobState {
    /// Has not begun executing.
    Waiting,
    /// Is currently executing.
    Running,
    /// Has completed executing; the outcome tells how it went.
    Completed,
    /// Could not complete for reasons unrelated to the change under test.
    Failed,
}

/// What a runner reports for one remote job.
#[derive(Clone, Debug)]
pub struct RunnerResult {
    /// The name of the running job.
    pub name: String,
    pub state: JobState,
    pub outcome: TestState,
    /// A results URL for people to follow.
    pub url: Option<String>,
    pub description: Option<String>,
}

/// Whether a job will make no further progress.
pub open spec fn terminal(state: JobState) -> bool {
    state == JobState::Completed || state == JobState::Failed
}

impl JobState {
    /// Whether this job will make no further progress.
    pub fn is_terminal(&self) -> (r: bool)
        ensures
            r == terminal(*self),
    {
        match self {
            JobState::Completed => true,
            JobState::Failed => true,
            _ => false,
        }
    }
}

/// The stored tag of a job state.
pub open spec fn job_state_tag(s: JobState) -> u8 {
    match s {
        JobState::Waiting => 0,
        JobState::Running => 1,
        JobState::Completed => 2,
        JobState::Failed => 3,
    }
}

/// The job state a stored tag denotes, if any.
pub open spec fn job_state_of_tag(b: u8) -> Option<JobState> {
    if b == 0 {
        Some(JobState::Waiting)
    } else if b == 1 {
        Some(JobState::Running)
    } else if b == 2 {
        Some(JobState::Completed)
    } else if b == 3 {
        Some(JobState::Failed)
    } else {
        None
    }
}

/// The stored tag of a summary state.
pub open spec fn test_state_tag(s: TestState) -> u8 {
    match s {
        TestState::Pending => 0,
        TestState::Success => 1,
        TestState::Warning => 2,
        TestState::Fail => 3,
    }
}

/// The summary state a stored tag denotes, if any.
pub open spec fn test_state_of_tag(b: u8) -> Option<TestState> {
    if b == 0 {
        Some(TestState::Pending)
    } else if b == 1 {
        Some(TestState::Success)
    } else if b == 2 {
        Some(TestState::Warning)
    } else if b == 3 {
        Some(TestState::Fail)
    } else {
        None
    }
}

/// The stored form of an optional string: an absence byte, or a presence
/// byte followed by the stored string.
pub open spec fn opt_string_bytes(o: Option<Seq<char>>) -> Seq<u8> {
    match o {
        None => seq![0u8],
        Some(s) => seq![1u8] + string_bytes(s),
    }
}

/// The stored form of a runner result: the two state tags, then the job
/// name, results URL and description.
pub open spec fn runner_result_bytes(r: RunnerResult) -> Seq<u8> {
    seq![job_state_tag(r.state), test_state_tag(r.outcome)] + string_bytes(r.name@)
        + opt_string_bytes(opt_chars(r.url)) + opt_string_bytes(opt_chars(r.description))
}

fn job_state_to_tag(s: JobState) -> (b: u8)
    ensures
        b == job_state_tag(s),
{
    match s {
        JobState::Waiting => 0,
        JobState::Running => 1,
        JobState::Completed => 2,
        JobState::Failed => 3,
    }
}

fn test_state_to_tag(s: TestState) -> (b: u8)
    ensures
        b == test_state_tag(s),
{
    match s {
        TestState::Pending => 0,
        TestState::Success => 1,
        TestState::Warning => 2,
        TestState::Fail => 3,
    }
}

fn write_opt_string(out: &mut Vec<u8>, o: &Option<String>)
    ensures
        final(out)@ == old(out)@ + opt_string_bytes(opt_chars(*o)),
{
    match o {
        None => {
            out.push(0u8);
            proof {
                assert(out@ =~= old(out)@ + opt_string_bytes(opt_chars(*o)));
            }
        },
        Some(s) => {
            out.push(1u8);
            write_string(out, s.as_str());
            proof {
                assert(out@ =~= old(out)@ + opt_string_bytes(opt_chars(*o)));
            }
        },
    }
}

/// Serialise a runner result for the dispatch queue.
pub fn encode_runner_result(r: &RunnerResult) -> (v: Vec<u8>)
    ensures
        v@ == runner_result_bytes(*r),
{
    let mut v: Vec<u8> = Vec::new();
    v.push(job_state_to_tag(r.state));
    v.push(test_state_to_tag(r.outcome));
    write_string(&mut v, r.name.as_str());
    write_opt_string(&mut v, &r.url);
    write_opt_string(&mut v, &r.description);
    proof {
        assert(v@ =~= runner_result_bytes(*r));
    }
    v
}

/// What reading a stored optional string at a position yields.
pub open spec fn read_opt_string_at(bytes: Seq<u8>, pos: int) -> Option<
    (Option<Seq<char>>, int),
> {
    if 0 <= pos < bytes.len() {
        if bytes[pos] == 0 {
            Some((None, pos + 1))
        } else if bytes[pos] == 1 {
            match read_string_at(bytes, pos + 1) {
                Some((s, end)) => Some((Some(s), end)),
                None => None,
            }
        } else {
            None
        }
    } else {
        None
    }
}

/// What a stored runner result denotes: its fields, when the bytes are
/// exactly one stored record.
pub open spec fn parsed_runner_result(bytes: Seq<u8>) -> Option<
    (JobState, TestState, Seq<char>, Option<Seq<char>>, Option<Seq<char>>),
> {
    if bytes.len() >= 2 {
        match (job_state_of_tag(bytes[0]), test_state_of_tag(bytes[1])) {
            (Some(state), Some(outcome)) => match read_string_at(bytes, 2) {
                Some((name, p1)) => match read_opt_string_at(bytes, p1) {
                    Some((url, p2)) => match read_opt_string_at(bytes, p2) {
                        Some((desc, p3)) => if p3 == bytes.len() {
                            Some((state, outcome, name, url, desc))
                        } else {
                            None
                        },
                        None => None,
                    },
                    None => None,
                },
                None => None,
            },
            _ => None,
        }
    } else {
        None
    }
}

fn read_opt_string(bytes: &Vec<u8>, pos: usize) -> (r: Option<(Option<String>, usize)>)
    requires
        pos <= bytes@.len(),
    ensures
        r matches Some(p) ==> (read_opt_string_at(bytes@, pos as int) matches Some(q) && opt_chars(
            p.0,
        ) == q.0 && p.1 == q.1 && pos < p.1 <= bytes@.len()),
        r is None ==> read_opt_string_at(bytes@, pos as int) is None,
{
    if pos >= bytes.len() {
        return None;
    }
    let tag = bytes[pos];
    if tag == 0 {
        Some((None, pos + 1))
    } else if tag == 1 {
        match crate::codec::read_string(bytes, pos + 1) {
            Some((s, end)) => Some((Some(s), end)),
            None => None,
        }
    } else {
        None
    }
}

/// Read a runner result back from the dispatch queue.  Returns `None`
/// exactly when the bytes are not one stored record.
pub fn decode_runner_result(bytes: &Vec<u8>) -> (r: Option<RunnerResult>)
    ensures
        r matches Some(rr) ==> (parsed_runner_result(bytes@) matches Some(t) && rr.state == t.0
            && rr.outcome == t.1 && rr.name@ == t.2 && opt_chars(rr.url) == t.3 && opt_chars(
            rr.description,
        ) == t.4),
        r is None ==> parsed_runner_result(bytes@) is None,
{
    if bytes.len() < 2 {
        return None;
    }
    let state = match tag_to_job_state(bytes[0]) {
        Some(s) => s,
        None => {
            return None;
        },
    };
    let outcome = match tag_to_test_state(bytes[1]) {
        Some(s) => s,
        None => {
            return None;
        },
    };
    let (name, p1) = match crate::codec::read_string(bytes, 2) {
        Some(p) => p,
        None => {
            return None;
        },
    };
    let (url, p2) = match read_opt_string(bytes, p1) {
        Some(p) => p,
        None => {
            return None;
        },
    };
    let (description, p3) = match read_opt_string(bytes, p2) {
        Some(p) => p,
        None => {
            return None;
        },
    };
    if p3 != bytes.len() {
        return None;
    }
    Some(RunnerResult { name, state, outcome, url, description })
}

/// A stored runner result reads back as the record it was made from: the
/// queue's codec loses nothing.  The length bounds are machine limits of
/// the stored form's length words.
pub proof fn lemma_runner_result_round_trip(r: RunnerResult)
    requires
        vstd::utf8::encode_utf8(r.name@).len() <= u64::MAX,
        r.url matches Some(u) ==> vstd::utf8::encode_utf8(u@).len() <= u64::MAX,
        r.description matches Some(d) ==> vstd::utf8::encode_utf8(d@).len() <= u64::MAX,
    ensures
        parsed_runner_result(runner_result_bytes(r)) == Some(
            (r.state, r.outcome, r.name@, opt_chars(r.url), opt_chars(r.description)),
        ),
{
    let bytes = runner_result_bytes(r);
    let tags = seq![job_state_tag(r.state), test_state_tag(r.outcome)];
    let nb = string_bytes(r.name@);
    let ub = opt_string_bytes(opt_chars(r.url));
    let db = opt_string_bytes(opt_chars(r.description));
    assert(bytes =~= tags + nb + (ub + db));
    assert(bytes[0] == job_state_tag(r.state));
    assert(bytes[1] == test_state_tag(r.outcome));
    assert(job_state_of_tag(job_state_tag(r.state)) == Some(r.state));
    assert(test_state_of_tag(test_state_tag(r.outcome)) == Some(r.outcome));
    crate::codec::lemma_read_back_string(tags, r.name@, ub + db);
    let p1 = 2 + nb.len() as int;
    assert(read_string_at(bytes, 2) == Some((r.name@, p1)));
    lemma_read_back_opt_string(tags + nb, r.url, db);
    assert((tags + nb).len() == p1);
    let p2 = p1 + ub.len() as int;
    assert(read_opt_string_at(bytes, p1) == Some((opt_chars(r.url), p2)));
    lemma_read_back_opt_string(tags + nb + ub, r.description, Seq::<u8>::empty());
    assert((tags + nb + ub) + db + Seq::<u8>::empty() =~= bytes);
    assert((tags + nb + ub).len() == p2);
    let p3 = p2 + db.len() as int;
    assert(read_opt_string_at(bytes, p2) == Some((opt_chars(r.description), p3)));
    assert(p3 == bytes.len());
}

/// A stored optional string reads back from where it was written.
proof fn lemma_read_back_opt_string(prefix: Seq<u8>, o: Option<String>, rest: Seq<u8>)
    requires
        o matches Some(s) ==> vstd::utf8::encode_utf8(s@).len() <= u64::MAX,
    ensures
        read_opt_string_at(prefix + opt_string_bytes(opt_chars(o)) + rest, prefix.len() as int)
            == Some(
            (opt_chars(o), (prefix.len() + opt_string_bytes(opt_chars(o)).len()) as int),
        ),
{
    let whole = prefix + opt_string_bytes(opt_chars(o)) + rest;
    let pos = prefix.len() as int;
    match o {
        None => {
            assert(whole[pos] == 0u8);
        },
        Some(s) => {
            assert(whole[pos] == 1u8);
            assert(whole =~= (prefix + seq![1u8]) + string_bytes(s@) + rest);
            crate::codec::lemma_read_back_string(prefix + seq![1u8], s@, rest);
            assert((prefix + seq![1u8]).len() == pos + 1);
        },
    }
}

/// Whether a list of names holds the given one.
pub open spec fn contains_name(names: Seq<String>, n: Seq<char>) -> bool {
    exists|j: int| 0 <= j < names.len() && (#[trigger] names[j])@ == n
}

fn names_contain(names: &Vec<String>, n: &str) -> (r: bool)
    ensures
        r == contains_name(names@, n@),
{
    let mut j: usize = 0;
    while j < names.len()
        invariant
            0 <= j <= names@.len(),
            forall|m: int| 0 <= m < j ==> (#[trigger] names@[m])@ != n@,
        decreases names@.len() - j,
    {
        if crate::text::str_eq(names[j].as_str(), n) {
            return true;
        }
        j = j + 1;
    }
    false
}

/// Whether some result of a poll still has to be fed to the dispatcher: it
/// is terminal and its name has not been recorded yet.
pub open spec fn needs_recording(results: Seq<RunnerResult>, completed: Seq<String>) -> bool {
    exists|i: int|
        0 <= i < results.len() && terminal(#[trigger] results[i].state) && !contains_name(
            completed,
            results[i].name@,
        )
}

/// Feed the finished jobs of one branch to the dispatcher, each at most
/// once: every result in a terminal state whose name has not been recorded
/// before is stored under its composite key, and its name recorded.
/// Returns whether every result is terminal, so the caller can retire the
/// branch.  A poll with nothing left to record makes no store call and
/// cannot fail, and the record of names only ever grows.
pub fn record_finished(
    needs_dispatch: &mut QueueTree,
    handle: &str,
    local: &str,
    results: &Vec<RunnerResult>,
    completed: &mut Vec<String>,
) -> (r: Result<bool, StoreError>)
    ensures
        !needs_recording(results@, old(completed)@) ==> r is Ok,
        forall|n: Seq<char>|
            contains_name(old(completed)@, n) ==> contains_name(final(completed)@, n),
        r matches Ok(done) ==> {
            &&& done == (forall|i: int|
                0 <= i < results@.len() ==> terminal(#[trigger] results@[i].state))
            &&& forall|i: int|
                0 <= i < results@.len() && terminal(#[trigger] results@[i].state) ==> contains_name(
                    final(completed)@,
                    results@[i].name@,
                )
            &&& forall|k: Seq<u8>|
                old(needs_dispatch)@.contains_key(k) ==> final(needs_dispatch)@.contains_key(k)
            &&& forall|k: Seq<u8>|
                final(needs_dispatch)@.contains_key(k) && !old(needs_dispatch)@.contains_key(k)
                    ==> exists|i: int|
                    0 <= i < results@.len() && terminal(#[trigger] results@[i].state)
                        && !contains_name(old(completed)@, results@[i].name@) && k == encode_utf8(
                        dispatch_key_chars(handle@, local@, results@[i].name@),
                    ) && final(needs_dispatch)@[k] == runner_result_bytes(results@[i])
        },
{
    let mut all_done = true;
    let mut i: usize = 0;
    while i < results.len()
        invariant
            0 <= i <= results@.len(),
            all_done == (forall|m: int|
                0 <= m < i ==> terminal(#[trigger] results@[m].state)),
            forall|m: int|
                0 <= m < i && terminal(#[trigger] results@[m].state) ==> contains_name(
                    completed@,
                    results@[m].name@,
                ),
            forall|n: Seq<char>|
                contains_name(old(completed)@, n) ==> contains_name(completed@, n),
            forall|k: Seq<u8>|
                old(needs_dispatch)@.contains_key(k) ==> needs_dispatch@.contains_key(k),
            forall|k: Seq<u8>|
                needs_dispatch@.contains_key(k) && !old(needs_dispatch)@.contains_key(k) ==> exists|
                    m: int,
                |
                    0 <= m < i && terminal(#[trigger] results@[m].state) && !contains_name(
                        old(completed)@,
                        results@[m].name@,
                    ) && k == encode_utf8(dispatch_key_chars(handle@, local@, results@[m].name@))
                        && needs_dispatch@[k] == runner_result_bytes(results@[m]),
        decreases results@.len() - i,
    {
        let result = &results[i];
        if result.state.is_terminal() {
            if !names_contain(completed, result.name.as_str()) {
                let key = dispatch_key(handle, local, result.name.as_str());
                let key_bytes = key.as_str().as_bytes_vec();
                let value = encode_runner_result(result);
                let ghost pre_dispatch = needs_dispatch@;
                match needs_dispatch.insert(key_bytes.as_slice(), value) {
                    Ok(()) => {},
                    Err(e) => {
                        proof {
                            assert(!contains_name(old(completed)@, results@[i as int].name@));
                            assert(needs_recording(results@, old(completed)@));
                        }
                        return Err(e);
                    },
                }
                let ghost pre_completed = completed@;
                completed.push(result.name.clone());
                proof {
                    assert forall|n: Seq<char>|
                        contains_name(pre_completed, n) implies contains_name(
                        completed@,
                        n,
                    ) by {
                        let w = choose|j: int|
                            0 <= j < pre_completed.len() && (#[trigger] pre_completed[j])@ == n;
                        assert((completed@[w])@ == n);
                    }
                    assert(completed@[completed@.len() - 1]@ == results@[i as int].name@);
                    assert forall|k: Seq<u8>|
                        needs_dispatch@.contains_key(k) && !old(needs_dispatch)@.contains_key(
                            k,
                        ) implies exists|m: int|
                        0 <= m < i + 1 && terminal(#[trigger] results@[m].state) && !contains_name(
                            old(completed)@,
                            results@[m].name@,
                        ) && k == encode_utf8(
                            dispatch_key_chars(handle@, local@, results@[m].name@),
                        ) && needs_dispatch@[k] == runner_result_bytes(results@[m]) by {
                        if k != key_bytes@ {
                            assert(pre_dispatch.contains_key(k));
                            assert(needs_dispatch@[k] == pre_dispatch[k]);
                        } else {
                            assert(0 <= i < i + 1 && terminal(results@[i as int].state)
                                && !contains_name(old(completed)@, results@[i as int].name@)
                                && k == encode_utf8(
                                dispatch_key_chars(handle@, local@, results@[i as int].name@),
                            ) && needs_dispatch@[k] == runner_result_bytes(results@[i as int]));
                        }
                    }
                }
            }
        } else {
            all_done = false;
        }
        i = i + 1;
    }
    Ok(all_done)
}

/// Whether a configured runner is triggered by pushes.
pub open spec fn runner_on_push(r: crate::config::Runner) -> bool {
    match r {
        crate::config::Runner::GitHub { trigger, .. } => trigger is OnPush,
    }
}

/// The remote a push-triggered runner watches.
pub open spec fn on_push_remote(r: crate::config::Runner) -> Seq<char> {
    match r {
        crate::config::Runner::GitHub { trigger, .. } => match trigger {
            crate::config::Trigger::OnPush { remote } => remote@,
            crate::config::Trigger::Manual { .. } => ""@,
        },
    }
}

/// Register one configured runner with the git engine: the remote it
/// watches is recorded as a push target, under the runner's handle.  Only
/// push-triggered runners have a start path.
pub fn register_runner(remotes: &mut QueueTree, runner: &crate::config::Runner) -> (r: Result<
    (),
    StoreError,
>)
    requires
        runner_on_push(*runner),
    ensures
        r is Ok ==> final(remotes)@ == old(remotes)@.insert(
            encode_utf8(on_push_remote(*runner)),
            encode_utf8("github"@),
        ),
{
    match runner {
        crate::config::Runner::GitHub { trigger, .. } => match trigger {
            crate::config::Trigger::OnPush { remote } => {
                let key = remote.as_str().as_bytes_vec();
                let value = "github".as_bytes_vec();
                remotes.insert(key.as_slice(), value)
            },
            crate::config::Trigger::Manual { .. } => {
                proof {
                    assert(false);
                }
                Err(StoreError { message: String::new() })
            },
        },
    }
}

fn tag_to_job_state(b: u8) -> (r: Option<JobState>)
    ensures
        r == job_state_of_tag(b),
{
    if b == 0 {
        Some(JobState::Waiting)
    } else if b == 1 {
        Some(JobState::Running)
    } else if b == 2 {
        Some(JobState::Completed)
    } else if b == 3 {
        Some(JobState::Failed)
    } else {
        None
    }
}

fn tag_to_test_state(b: u8) -> (r: Option<TestState>)
    ensures
        r == test_state_of_tag(b),
{
    if b == 0 {
        Some(TestState::Pending)
    } else if b == 1 {
        Some(TestState::Success)
    } else if b == 2 {
        Some(TestState::Warning)
    } else if b == 3 {
        Some(TestState::Fail)
    } else {
        None
    }
}

} // verus!
