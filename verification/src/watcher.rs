//! The watcher: the periodic scan that finds newly actionable series on the
//! tracker and enqueues them for testing, at most once each.
//!
//! A scan step has two phases.  First a cheap filter decides whether a
//! series is worth a closer look: it must be complete, carry at least one
//! patch, and not have been seen before.  Only then is the series' last
//! patch fetched, and the series admitted if that patch still requires
//! action.  Admission marks the series as seen before enqueuing the work
//! item, so a series is observed at most once even when enqueuing fails.

use crate::codec::encode_u64;
use crate::codec::u64_le_bytes;
use crate::patchwork::patch_action_required;
use crate::patchwork::Patch;
use crate::patchwork::Series;
use crate::store::QueueTree;
use crate::store::StoreError;
use crate::text::dec_chars;
use crate::text::u64_to_string;
use vstd::prelude::*;
use vstd::string::StrSliceExecFns;
use vstd::utf8::encode_utf8;

verus! {

/// The key under which a series is marked as seen: its identifier in
/// decimal, as bytes.
pub open spec fn seen_key(id: u64) -> Seq<u8> {
    encode_utf8(dec_chars(id as nat))
}

/// The marker stored beside a seen series.
pub open spec fn seen_marker() -> Seq<u8> {
    encode_utf8("hello"@)
}

/// Whether a series has fully arrived: all expected patches are in and
/// there is at least one of them.
pub open spec fn series_complete(s: Series) -> bool {
    s.received_all && s.received_total > 0
}

/// Whether a scan should fetch the series' last patch: the series is
/// complete, lists at least one patch, and has not been seen before.
pub open spec fn scan_candidate(seen: Map<Seq<u8>, Seq<u8>>, s: Series) -> bool {
    series_complete(s) && s.patches@.len() > 0 && !seen.contains_key(seen_key(s.id))
}

/// Whether a scan admits a series into the pipeline: it is a candidate and
/// its last patch still requires action.
pub open spec fn scan_admits(seen: Map<Seq<u8>, Seq<u8>>, s: Series, last_patch: Patch) -> bool {
    scan_candidate(seen, s) && patch_action_required(last_patch)
}

/// One watcher, bound to a tracker project.
pub struct Watchcat {
    pub project: String,
}

impl Watchcat {
    /// A watcher for the named project.
    pub fn new(project: &str) -> (r: Watchcat)
        ensures
            r.project@ == project@,
    {
        Watchcat { project: String::from_str(project) }
    }

    /// The cheap phase of a scan step: whether this series deserves the
    /// extra request for its last patch.  An incomplete or patchless
    /// series is turned away before the store is even asked, so only the
    /// seen-mark lookup can fail.
    pub fn wants_patch_check(&self, seen: &QueueTree, series: &Series) -> (r: Result<
        bool,
        StoreError,
    >)
        ensures
            r matches Ok(b) ==> b == scan_candidate(seen@, *series),
            !(series_complete(*series) && series.patches@.len() > 0) ==> (r matches Ok(b) && !b),
    {
        if !series.received_all {
            return Ok(false);
        }
        if series.received_total == 0 {
            return Ok(false);
        }
        if series.patches.len() == 0 {
            return Ok(false);
        }
        let key = u64_to_string(series.id);
        let key_bytes = key.as_str().as_bytes_vec();
        match seen.contains_key(key_bytes.as_slice()) {
            Ok(present) => Ok(!present),
            Err(e) => Err(e),
        }
    }

    /// The admitting phase of a scan step: if the series is still a
    /// candidate and its last patch requires action, mark it as seen and
    /// enqueue its work item, the series identifier mapped to its mbox URL.
    /// The mark goes in first: a series is observed at most once, even if
    /// enqueuing fails afterwards.
    pub fn admit_series(
        &self,
        seen: &mut QueueTree,
        needs_testing: &mut QueueTree,
        series: &Series,
        last_patch: &Patch,
    ) -> (r: Result<bool, StoreError>)
        ensures
            r matches Ok(b) && b ==> {
                &&& scan_admits(old(seen)@, *series, *last_patch)
                &&& final(seen)@ == old(seen)@.insert(seen_key(series.id), seen_marker())
                &&& final(needs_testing)@ == old(needs_testing)@.insert(
                    u64_le_bytes(series.id),
                    encode_utf8(series.mbox@),
                )
            },
            r matches Ok(b) && !b ==> {
                &&& !scan_admits(old(seen)@, *series, *last_patch)
                &&& final(seen)@ == old(seen)@
                &&& final(needs_testing)@ == old(needs_testing)@
            },
            !(series_complete(*series) && series.patches@.len() > 0) ==> (r matches Ok(b) && !b),
    {
        let candidate = match self.wants_patch_check(seen, series) {
            Ok(b) => b,
            Err(e) => {
                return Err(e);
            },
        };
        if !candidate {
            return Ok(false);
        }
        if !last_patch.action_required() {
            return Ok(false);
        }
        let key = u64_to_string(series.id);
        let key_bytes = key.as_str().as_bytes_vec();
        let marker = "hello".as_bytes_vec();
        match seen.insert(key_bytes.as_slice(), marker) {
            Ok(()) => {},
            Err(e) => {
                return Err(e);
            },
        }
        let work_key = encode_u64(series.id);
        let work_value = series.mbox.as_str().as_bytes_vec();
        match needs_testing.insert(work_key.as_slice(), work_value) {
            Ok(()) => Ok(true),
            Err(e) => Err(e),
        }
    }
}

/// Distinct series never collide in the queues: their seen marks and their
/// work item keys differ, so admitting one series cannot disturb another's
/// entries.
pub proof fn lemma_series_keys_distinct(a: u64, b: u64)
    requires
        a != b,
    ensures
        seen_key(a) != seen_key(b),
        u64_le_bytes(a) != u64_le_bytes(b),
{
    if seen_key(a) == seen_key(b) {
        vstd::utf8::encode_utf8_decode_utf8(dec_chars(a as nat));
        vstd::utf8::encode_utf8_decode_utf8(dec_chars(b as nat));
        crate::text::lemma_dec_chars_injective(a as nat, b as nat);
    }
    if u64_le_bytes(a) == u64_le_bytes(b) {
        crate::codec::lemma_u64_le_bytes_injective(a, b);
    }
}

/// Scanning is idempotent: once a series has been admitted, a second scan
/// of a quiescent tracker finds it marked as seen and admits nothing, so no
/// duplicate work item is enqueued.
pub proof fn lemma_second_scan_admits_nothing(
    seen: Map<Seq<u8>, Seq<u8>>,
    s: Series,
    last_patch: Patch,
    again: Patch,
)
    requires
        scan_admits(seen, s, last_patch),
    ensures
        !scan_candidate(seen.insert(seen_key(s.id), seen_marker()), s),
        !scan_admits(seen.insert(seen_key(s.id), seen_marker()), s, again),
{
}

} // verus!
