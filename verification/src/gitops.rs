//! The git engine's decisions: worktree and branch naming, the commit
//! message, the patch-application fallback, push planning and the policy on
//! push failures, and the exclusivity of a work item's place among the
//! stage queues.
//!
//! The repository work itself — opening worktrees, applying patches,
//! committing and pushing — happens outside the library; what stands here
//! is everything the engine decides.

use crate::store::QueueTree;
use crate::store::StoreError;
use crate::text::dec_chars;
use crate::text::u64_to_string;
use vstd::prelude::*;
use vstd::string::StrSliceExecFns;
use vstd::string::StringExecFns;
use vstd::utf8::encode_utf8;

verus! {

/// The name of one worktree slot: the tool's name followed by the slot
/// number.
pub fn worktree_name(slot: u64) -> (r: String)
    ensures
        r@ == "snowpatch"@ + dec_chars(slot as nat),
{
    let mut s = String::from_str("snowpatch");
    s.append(u64_to_string(slot).as_str());
    s
}

/// The name of a per-slot stage queue.
pub fn worker_queue_name(slot: u64) -> (r: String)
    ensures
        r@ == "git worker "@ + dec_chars(slot as nat),
{
    let mut s = String::from_str("git worker ");
    s.append(u64_to_string(slot).as_str());
    s
}

/// The branch published for a series on every configured remote.
pub fn remote_branch_name(id: u64) -> (r: String)
    ensures
        r@ == "snowpatch/"@ + dec_chars(id as nat),
{
    let mut s = String::from_str("snowpatch/");
    s.append(u64_to_string(id).as_str());
    s
}

/// The refspec that pushes the freshly made commit to a series' branch.
pub fn push_refspec(id: u64) -> (r: String)
    ensures
        r@ == "HEAD:refs/heads/snowpatch/"@ + dec_chars(id as nat),
{
    let mut s = String::from_str("HEAD:refs/heads/snowpatch/");
    s.append(u64_to_string(id).as_str());
    s
}

/// The message of the commit that carries an applied series: the series
/// named on the first line, a link to it below.
pub fn commit_message(id: u64, link_prefix: &str) -> (r: String)
    ensures
        r@ == "From patchwork series "@ + dec_chars(id as nat) + "\n\n"@ + link_prefix@ + dec_chars(
            id as nat,
        ),
{
    let digits = u64_to_string(id);
    let mut s = String::from_str("From patchwork series ");
    s.append(digits.as_str());
    s.append("\n\n");
    s.append(link_prefix);
    s.append(digits.as_str());
    proof {
        assert(s@ =~= "From patchwork series "@ + dec_chars(id as nat) + "\n\n"@ + link_prefix@
            + dec_chars(id as nat));
    }
    s
}

/// How a series is applied to the worktree, per the fallback strategy: the
/// library apply when its check passes, else the git binary, whose own
/// check must pass.
pub enum ApplyMethod {
    /// Apply through the library, to index and working tree at once.
    Library,
    /// Apply through the git binary, against the index.
    Binary,
}

/// Decide how to apply a series, from the two checks: the library's
/// apply-check, and the binary's, which is consulted only when the
/// library's fails.  `None` fails the work item.
pub fn apply_decision(library_check_ok: bool, binary_check_ok: bool) -> (r: Option<ApplyMethod>)
    ensures
        library_check_ok ==> r == Some(ApplyMethod::Library),
        !library_check_ok && binary_check_ok ==> r == Some(ApplyMethod::Binary),
        !library_check_ok && !binary_check_ok ==> r is None,
{
    if library_check_ok {
        Some(ApplyMethod::Library)
    } else if binary_check_ok {
        Some(ApplyMethod::Binary)
    } else {
        None
    }
}

/// What one push attempt came to, as the caller saw it.
pub enum PushResult {
    /// The push succeeded.
    Pushed,
    /// The remote refused a non-fast-forward update: the branch was
    /// already there.
    NotFastForward,
    /// The push failed for any other reason.
    Failed(String),
}

/// What the engine does after one push attempt.
#[derive(Debug, PartialEq, Eq, Structural)]
pub enum PushDisposition {
    /// Carry on with the work item.
    Continue,
    /// Carry on, under a logged warning: the branch already existed, and
    /// the runner's work is still owed.
    ContinueWithWarning,
    /// Fail the work item.
    FailItem,
}

/// The policy on push outcomes: success continues; a non-fast-forward
/// refusal is only a warning, and the work item still reaches the runner
/// queue; any other failure fails the item.
pub fn push_disposition(r: &PushResult) -> (d: PushDisposition)
    ensures
        r is Pushed ==> d == PushDisposition::Continue,
        r is NotFastForward ==> d == PushDisposition::ContinueWithWarning,
        r is Failed ==> d == PushDisposition::FailItem,
{
    match r {
        PushResult::Pushed => PushDisposition::Continue,
        PushResult::NotFastForward => PushDisposition::ContinueWithWarning,
        PushResult::Failed(_) => PushDisposition::FailItem,
    }
}

/// Whether a sequence of strings holds the given one.
pub open spec fn contains_string(handles: Seq<String>, x: Seq<char>) -> bool {
    exists|j: int| 0 <= j < handles.len() && handles[j]@ == x
}

/// An error that fails a work item before any push is attempted.
#[derive(Debug)]
pub enum PushPlanError {
    /// A push target names a runner that is not configured.
    UnknownRunner { remote: String, runner: String },
}

/// Check the push targets against the configured runner handles: every
/// entry of the push-target queue must name a known runner, else the work
/// item fails before anything is pushed.
pub fn plan_pushes(remotes: &Vec<(String, String)>, known_handles: &Vec<String>) -> (r: Result<
    (),
    PushPlanError,
>)
    ensures
        r is Ok ==> forall|i: int|
            0 <= i < remotes@.len() ==> contains_string(known_handles@, #[trigger] remotes@[i].1@),
        r matches Err(e) ==> (e matches PushPlanError::UnknownRunner { remote, runner }
            && !contains_string(known_handles@, runner@) && exists|i: int|
            0 <= i < remotes@.len() && remotes@[i].1@ == runner@ && remotes@[i].0@ == remote@),
{
    let mut i: usize = 0;
    while i < remotes.len()
        invariant
            0 <= i <= remotes@.len(),
            forall|k: int|
                0 <= k < i ==> contains_string(known_handles@, #[trigger] remotes@[k].1@),
        decreases remotes@.len() - i,
    {
        let runner = &remotes[i].1;
        let mut found = false;
        let mut j: usize = 0;
        while j < known_handles.len()
            invariant
                0 <= j <= known_handles@.len(),
                i < remotes@.len(),
                runner@ == remotes@[i as int].1@,
                found ==> contains_string(known_handles@, remotes@[i as int].1@),
                !found ==> forall|m: int|
                    0 <= m < j ==> known_handles@[m]@ != remotes@[i as int].1@,
            decreases known_handles@.len() - j,
        {
            let matches_here = crate::text::str_eq(known_handles[j].as_str(), runner.as_str());
            proof {
                if matches_here {
                    assert(known_handles@[j as int]@ == remotes@[i as int].1@);
                }
            }
            if matches_here {
                found = true;
            }
            j = j + 1;
        }
        if !found {
            return Err(
                PushPlanError::UnknownRunner {
                    remote: remotes[i].0.clone(),
                    runner: remotes[i].1.clone(),
                },
            );
        }
        i = i + 1;
    }
    Ok(())
}

/// Hand a freshly pushed series to a runner: its identifier, in decimal,
/// marked new in that runner's queue.
pub fn record_runner_work(runner_queue: &mut QueueTree, id: u64) -> (r: Result<(), StoreError>)
    ensures
        r is Ok ==> final(runner_queue)@ == old(runner_queue)@.insert(
            encode_utf8(dec_chars(id as nat)),
            encode_utf8("new"@),
        ),
{
    let key = u64_to_string(id);
    let key_bytes = key.as_str().as_bytes_vec();
    let value = "new".as_bytes_vec();
    runner_queue.insert(key_bytes.as_slice(), value)
}

/// How many of the given stage queues hold a key.
pub open spec fn stages_holding(stages: Seq<Map<Seq<u8>, Seq<u8>>>, k: Seq<u8>) -> int
    decreases stages.len(),
{
    if stages.len() == 0 {
        0
    } else {
        stages_holding(stages.drop_last(), k) + if stages.last().contains_key(k) {
            1int
        } else {
            0int
        }
    }
}

/// Whether exactly one of the stage queues holds a key.
pub open spec fn in_exactly_one_stage(stages: Seq<Map<Seq<u8>, Seq<u8>>>, k: Seq<u8>) -> bool {
    stages_holding(stages, k) == 1
}

/// Counting a key over stage queues only looks at whether each holds it.
proof fn lemma_stages_holding_pointwise(
    a: Seq<Map<Seq<u8>, Seq<u8>>>,
    b: Seq<Map<Seq<u8>, Seq<u8>>>,
    k: Seq<u8>,
)
    requires
        a.len() == b.len(),
        forall|i: int| 0 <= i < a.len() ==> a[i].contains_key(k) == b[i].contains_key(k),
    ensures
        stages_holding(a, k) == stages_holding(b, k),
    decreases a.len(),
{
    if a.len() > 0 {
        lemma_stages_holding_pointwise(a.drop_last(), b.drop_last(), k);
        assert(a.last().contains_key(k) == b.last().contains_key(k));
    }
}

/// Each stage holding the key contributes one to the count.
proof fn lemma_stages_holding_of_member(stages: Seq<Map<Seq<u8>, Seq<u8>>>, k: Seq<u8>, i: int)
    requires
        0 <= i < stages.len(),
        stages[i].contains_key(k),
    ensures
        stages_holding(stages, k) >= 1,
        stages_holding(stages, k) >= 2 || forall|j: int|
            0 <= j < stages.len() && j != i ==> !(#[trigger] stages[j]).contains_key(k),
    decreases stages.len(),
{
    lemma_stages_holding_nonneg(stages, k);
    if i == stages.len() - 1 {
        lemma_stages_holding_nonneg(stages.drop_last(), k);
        if stages_holding(stages.drop_last(), k) >= 1 {
            let w = lemma_stages_holding_witness(stages.drop_last(), k);
            assert(stages[w].contains_key(k));
        } else {
            assert forall|j: int|
                0 <= j < stages.len() && j != i implies !(#[trigger] stages[j]).contains_key(
                k,
            ) by {
                lemma_stage_not_holding(stages.drop_last(), k, j);
            }
        }
    } else {
        lemma_stages_holding_of_member(stages.drop_last(), k, i);
        if stages_holding(stages, k) < 2 {
            assert(!stages.last().contains_key(k));
            assert forall|j: int|
                0 <= j < stages.len() && j != i implies !(#[trigger] stages[j]).contains_key(
                k,
            ) by {
                if j < stages.len() - 1 {
                    assert(stages.drop_last()[j] == stages[j]);
                }
            }
        }
    }
}

/// The count over stage queues is never negative.
proof fn lemma_stages_holding_nonneg(stages: Seq<Map<Seq<u8>, Seq<u8>>>, k: Seq<u8>)
    ensures
        stages_holding(stages, k) >= 0,
    decreases stages.len(),
{
    if stages.len() > 0 {
        lemma_stages_holding_nonneg(stages.drop_last(), k);
    }
}

/// A positive count names a stage that holds the key.
proof fn lemma_stages_holding_witness(stages: Seq<Map<Seq<u8>, Seq<u8>>>, k: Seq<u8>) -> (w: int)
    requires
        stages_holding(stages, k) >= 1,
    ensures
        0 <= w < stages.len(),
        stages[w].contains_key(k),
    decreases stages.len(),
{
    lemma_stages_holding_nonneg(stages.drop_last(), k);
    if stages.last().contains_key(k) {
        stages.len() - 1
    } else {
        let w = lemma_stages_holding_witness(stages.drop_last(), k);
        assert(stages.drop_last()[w] == stages[w]);
        w
    }
}

/// A zero count means no stage holds the key.
proof fn lemma_stage_not_holding(stages: Seq<Map<Seq<u8>, Seq<u8>>>, k: Seq<u8>, j: int)
    requires
        stages_holding(stages, k) == 0,
        0 <= j < stages.len(),
    ensures
        !stages[j].contains_key(k),
    decreases stages.len(),
{
    lemma_stages_holding_nonneg(stages.drop_last(), k);
    if j < stages.len() - 1 {
        lemma_stage_not_holding(stages.drop_last(), k, j);
        assert(stages.drop_last()[j] == stages[j]);
    }
}

/// A work item occupies exactly one stage at a time: the atomic move that
/// carries it from one stage queue to the next preserves that there is
/// exactly one stage holding its key.
pub proof fn lemma_stage_move_keeps_exclusive(
    stages: Seq<Map<Seq<u8>, Seq<u8>>>,
    src: int,
    dst: int,
    k: Seq<u8>,
    v: Seq<u8>,
)
    requires
        0 <= src < stages.len(),
        0 <= dst < stages.len(),
        src != dst,
        in_exactly_one_stage(stages, k),
        stages[src].contains_key(k),
    ensures
        in_exactly_one_stage(
            stages.update(src, stages[src].remove(k)).update(dst, stages[dst].insert(k, v)),
            k,
        ),
{
    let after = stages.update(src, stages[src].remove(k)).update(dst, stages[dst].insert(k, v));
    lemma_stages_holding_of_member(stages, k, src);
    assert(forall|j: int|
        0 <= j < stages.len() && j != src ==> !(#[trigger] stages[j]).contains_key(k));
    let probe = Seq::new(
        stages.len(),
        |i: int|
            if i == dst {
                stages[dst].insert(k, v)
            } else {
                stages[i].remove(k)
            },
    );
    lemma_stages_holding_pointwise(
        after,
        probe,
        k,
    );
    lemma_stages_holding_of_member(probe, k, dst);
    lemma_stages_holding_count_one(probe, k, dst);
}

/// A key held by one stage and no other is counted exactly once.
proof fn lemma_stages_holding_count_one(stages: Seq<Map<Seq<u8>, Seq<u8>>>, k: Seq<u8>, i: int)
    requires
        0 <= i < stages.len(),
        stages[i].contains_key(k),
        forall|j: int| 0 <= j < stages.len() && j != i ==> !(#[trigger] stages[j]).contains_key(k),
    ensures
        stages_holding(stages, k) == 1,
    decreases stages.len(),
{
    if i == stages.len() - 1 {
        lemma_stages_holding_zero(stages.drop_last(), k);
    } else {
        assert(!stages.last().contains_key(k));
        lemma_stages_holding_count_one(stages.drop_last(), k, i);
    }
}

/// A key held by no stage is counted zero times.
proof fn lemma_stages_holding_zero(stages: Seq<Map<Seq<u8>, Seq<u8>>>, k: Seq<u8>)
    requires
        forall|j: int| 0 <= j < stages.len() ==> !(#[trigger] stages[j]).contains_key(k),
    ensures
        stages_holding(stages, k) == 0,
    decreases stages.len(),
{
    if stages.len() > 0 {
        lemma_stages_holding_zero(stages.drop_last(), k);
    }
}

/// A work item enters the pipeline into exactly one stage: inserting its
/// key into one stage queue, when none holds it, leaves exactly one stage
/// holding it.
pub proof fn lemma_stage_insert_from_none(
    stages: Seq<Map<Seq<u8>, Seq<u8>>>,
    dst: int,
    k: Seq<u8>,
    v: Seq<u8>,
)
    requires
        0 <= dst < stages.len(),
        stages_holding(stages, k) == 0,
        forall|j: int| 0 <= j < stages.len() ==> !(#[trigger] stages[j]).contains_key(k),
    ensures
        in_exactly_one_stage(stages.update(dst, stages[dst].insert(k, v)), k),
{
    let after = stages.update(dst, stages[dst].insert(k, v));
    lemma_stages_holding_count_one(after, k, dst);
}

/// A work item leaves the pipeline from its one stage: removing its key
/// from the stage that holds it leaves no stage holding it.
pub proof fn lemma_stage_remove_to_none(stages: Seq<Map<Seq<u8>, Seq<u8>>>, src: int, k: Seq<u8>)
    requires
        0 <= src < stages.len(),
        in_exactly_one_stage(stages, k),
        stages[src].contains_key(k),
    ensures
        stages_holding(stages.update(src, stages[src].remove(k)), k) == 0,
{
    let after = stages.update(src, stages[src].remove(k));
    lemma_stages_holding_of_member(stages, k, src);
    assert forall|j: int| 0 <= j < after.len() implies !(#[trigger] after[j]).contains_key(k) by {
        if j != src {
            assert(after[j] == stages[j]);
        }
    }
    lemma_stages_holding_zero(after, k);
}

} // verus!
