//! The dispatcher: the composite keys under which finished jobs wait in the
//! dispatch queue, and the verdict prepared from each entry before it is
//! posted upstream.
//!
//! A dispatch key reads `<handle> <series> <job name>`: the runner's handle,
//! then the series identifier in decimal, then the job's name, which may
//! itself contain spaces.

use crate::codec::bytes_to_string;
use crate::patchwork::opt_chars;
use crate::patchwork::TestResult;
use crate::runner::parsed_runner_result;
use crate::runner::RunnerResult;
use crate::text::dec_value;
use crate::text::find_from;
use crate::text::lemma_find_from_first;
use crate::text::lemma_find_from_in_range;
use crate::text::find_char_from;
use crate::text::is_digits;
use crate::text::parse_u64;
use crate::text::substring_chars;
use vstd::prelude::*;
use vstd::string::StringExecFns;
use vstd::utf8::decode_utf8;
use vstd::utf8::valid_utf8;

verus! {

/// The composite key under which one finished job waits for dispatch.
pub open spec fn dispatch_key_chars(handle: Seq<char>, local: Seq<char>, job: Seq<char>) -> Seq<
    char,
> {
    handle + " "@ + local + " "@ + job
}

/// Build the composite dispatch key for a finished job.
pub fn dispatch_key(handle: &str, local: &str, job: &str) -> (r: String)
    ensures
        r@ == dispatch_key_chars(handle@, local@, job@),
{
    let mut s = String::from_str(handle);
    s.append(" ");
    s.append(local);
    s.append(" ");
    s.append(job);
    proof {
        assert(s@ =~= dispatch_key_chars(handle@, local@, job@));
    }
    s
}

/// The parts of a composite dispatch key: the handle up to the first space,
/// the series token up to the next, and the rest as the job name.
pub open spec fn parsed_dispatch_key(s: Seq<char>) -> Option<(Seq<char>, Seq<char>, Seq<char>)> {
    match find_from(s, ' ', 0) {
        Some(i) => match find_from(s, ' ', i + 1) {
            Some(j) => Some((s.take(i), s.subrange(i + 1, j), s.subrange(j + 1, s.len() as int))),
            None => None,
        },
        None => None,
    }
}

/// Split a composite dispatch key into handle, series token and job name.
pub fn parse_dispatch_key(key: &str) -> (r: Option<(String, String, String)>)
    ensures
        r matches Some(p) ==> (parsed_dispatch_key(key@) matches Some(q) && p.0@ == q.0 && p.1@
            == q.1 && p.2@ == q.2),
        r is None ==> parsed_dispatch_key(key@) is None,
{
    let len = vstd::string::StrSliceExecFns::unicode_len(key);
    let i = match find_char_from(key, ' ', 0) {
        Some(i) => i,
        None => {
            return None;
        },
    };
    proof {
        lemma_find_from_in_range(key@, ' ', 0);
    }
    let j = match find_char_from(key, ' ', i + 1) {
        Some(j) => j,
        None => {
            return None;
        },
    };
    proof {
        lemma_find_from_in_range(key@, ' ', i + 1);
    }
    let handle = substring_chars(key, 0, i);
    let series = substring_chars(key, i + 1, j);
    let job = substring_chars(key, j + 1, len);
    proof {
        assert(key@.take(i as int) =~= key@.subrange(0, i as int));
    }
    Some((handle, series, job))
}

/// Parsing a built dispatch key gives back its parts, provided neither the
/// handle nor the series token contains a space; the job name may.
pub proof fn lemma_dispatch_key_round_trip(handle: Seq<char>, local: Seq<char>, job: Seq<char>)
    requires
        forall|m: int| 0 <= m < handle.len() ==> handle[m] != ' ',
        forall|m: int| 0 <= m < local.len() ==> local[m] != ' ',
    ensures
        parsed_dispatch_key(dispatch_key_chars(handle, local, job)) == Some((handle, local, job)),
{
    let s = dispatch_key_chars(handle, local, job);
    reveal_strlit(" ");
    let i = handle.len() as int;
    let j = i + 1 + local.len() as int;
    assert(s[i] == ' ');
    assert(s[j] == ' ');
    assert(forall|m: int| 0 <= m < i ==> s[m] == handle[m] && s[m] != ' ');
    lemma_find_from_first(s, ' ', 0, i);
    assert(forall|m: int| i + 1 <= m < j ==> s[m] == local[m - i - 1] && s[m] != ' ');
    lemma_find_from_first(s, ' ', i + 1, j);
    assert(s.take(i) =~= handle);
    assert(s.subrange(i + 1, j) =~= local);
    assert(s.subrange(j + 1, s.len() as int) =~= job);
}

/// Two built dispatch keys coincide only when their parts do: the queue can
/// hold at most one entry per handle, series and job.
pub proof fn lemma_dispatch_key_injective(
    h1: Seq<char>,
    l1: Seq<char>,
    j1: Seq<char>,
    h2: Seq<char>,
    l2: Seq<char>,
    j2: Seq<char>,
)
    requires
        forall|m: int| 0 <= m < h1.len() ==> h1[m] != ' ',
        forall|m: int| 0 <= m < l1.len() ==> l1[m] != ' ',
        forall|m: int| 0 <= m < h2.len() ==> h2[m] != ' ',
        forall|m: int| 0 <= m < l2.len() ==> l2[m] != ' ',
        dispatch_key_chars(h1, l1, j1) == dispatch_key_chars(h2, l2, j2),
    ensures
        h1 == h2 && l1 == l2 && j1 == j2,
{
    lemma_dispatch_key_round_trip(h1, l1, j1);
    lemma_dispatch_key_round_trip(h2, l2, j2);
}

/// Distinct job names occupy distinct dispatch queue entries: under one
/// handle and series, the stored key bytes coincide only when the job
/// names do.  With the queue a map over key bytes, the queue holds at most
/// one entry per handle, series and job.
pub proof fn lemma_dispatch_key_bytes_injective(
    handle: Seq<char>,
    local: Seq<char>,
    j1: Seq<char>,
    j2: Seq<char>,
)
    requires
        forall|m: int| 0 <= m < handle.len() ==> handle[m] != ' ',
        forall|m: int| 0 <= m < local.len() ==> local[m] != ' ',
        vstd::utf8::encode_utf8(dispatch_key_chars(handle, local, j1)) == vstd::utf8::encode_utf8(
            dispatch_key_chars(handle, local, j2),
        ),
    ensures
        j1 == j2,
{
    vstd::utf8::encode_utf8_decode_utf8(dispatch_key_chars(handle, local, j1));
    vstd::utf8::encode_utf8_decode_utf8(dispatch_key_chars(handle, local, j2));
    lemma_dispatch_key_injective(handle, local, j1, handle, local, j2);
}

/// A dispatch key built for a series carries the series through: parsed
/// back, its middle token is the series identifier's decimal rendering,
/// which reads back as the identifier itself.  The handle must not contain
/// a space; the job name may.
pub proof fn lemma_dispatch_series_round_trip(handle: Seq<char>, id: u64, job: Seq<char>)
    requires
        forall|m: int| 0 <= m < handle.len() ==> handle[m] != ' ',
    ensures
        parsed_dispatch_key(dispatch_key_chars(handle, crate::text::dec_chars(id as nat), job))
            matches Some(q) && q.0 == handle && q.2 == job && is_digits(q.1) && q.1.len() > 0
            && dec_value(q.1) == id,
{
    let digits = crate::text::dec_chars(id as nat);
    crate::text::lemma_dec_chars_digits(id as nat);
    crate::text::lemma_dec_value_of_dec_chars(id as nat);
    assert forall|m: int| 0 <= m < digits.len() implies digits[m] != ' ' by {
        assert(crate::text::digit_val(digits[m]) >= 0);
    }
    lemma_dispatch_key_round_trip(handle, digits, job);
}

/// Why a dispatch queue entry could not be prepared for posting.
#[derive(Debug)]
pub enum DispatchError {
    /// The entry's key is not a well-formed composite key.
    BadKey,
    /// The entry's value is not a stored runner result.
    BadValue,
}

/// Whether stored key bytes form a well-formed dispatch key: text whose
/// series token is a decimal number of machine-word size.
pub open spec fn dispatch_key_ok(key: Seq<u8>) -> bool {
    &&& valid_utf8(key)
    &&& parsed_dispatch_key(decode_utf8(key)) matches Some(q)
    &&& {
        let l = parsed_dispatch_key(decode_utf8(key))->Some_0.1;
        is_digits(l) && l.len() > 0 && dec_value(l) <= u64::MAX
    }
}

/// Prepare one dispatch queue entry for posting: read the series and job
/// from the key, the runner result from the value, and compose the verdict,
/// whose context is the handle and job name joined by a hyphen and is never
/// empty.
pub fn prepare_dispatch(key: &Vec<u8>, value: &Vec<u8>) -> (r: Result<(u64, TestResult), DispatchError>)
    ensures
        r matches Ok(p) ==> {
            &&& dispatch_key_ok(key@)
            &&& parsed_runner_result(value@) matches Some(t)
            &&& {
                let q = parsed_dispatch_key(decode_utf8(key@))->Some_0;
                let t = parsed_runner_result(value@)->Some_0;
                &&& p.0 == dec_value(q.1)
                &&& p.1.state == t.1
                &&& opt_chars(p.1.target_url) == t.3
                &&& opt_chars(p.1.description) == t.4
                &&& p.1.context matches Some(c) && c@ == q.0 + "-"@ + q.2
                &&& p.1.context->Some_0@.len() > 0
            }
        },
        r matches Err(e) && e is BadKey <==> !dispatch_key_ok(key@),
        r matches Err(e) && e is BadValue <==> dispatch_key_ok(key@) && parsed_runner_result(
            value@,
        ) is None,
{
    let key_text = match bytes_to_string(key.clone()) {
        Some(s) => s,
        None => {
            return Err(DispatchError::BadKey);
        },
    };
    let (handle, series_token, job) = match parse_dispatch_key(key_text.as_str()) {
        Some(p) => p,
        None => {
            return Err(DispatchError::BadKey);
        },
    };
    let series = match parse_u64(series_token.as_str()) {
        Some(v) => v,
        None => {
            return Err(DispatchError::BadKey);
        },
    };
    let result: RunnerResult = match crate::runner::decode_runner_result(value) {
        Some(rr) => rr,
        None => {
            return Err(DispatchError::BadValue);
        },
    };
    let mut context = handle;
    context.append("-");
    context.append(job.as_str());
    proof {
        reveal_strlit("-");
        assert(context@.len() > 0);
    }
    let verdict = TestResult {
        state: result.outcome,
        target_url: result.url,
        description: result.description,
        context: Some(context),
    };
    Ok((series, verdict))
}

} // verus!
