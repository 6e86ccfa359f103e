//! The patch tracker's data model and the pure parts of the tracker client:
//! request URLs, the check-state precedence, and the verdict record that is
//! posted back upstream.

use crate::text::dec_chars;
use crate::text::dots_to_underscores;
use crate::text::dotted_to_underscored;
use crate::text::push_char;
use crate::text::str_eq;
use crate::text::u64_to_string;
use vstd::prelude::*;
use vstd::string::StrSliceExecFns;
use vstd::string::StringExecFns;

verus! {

/// The summary state of a check or of a whole series.
#[derive(Clone, Copy, Debug, PartialEq, Eq, Structural)]
pub enum TestState {
    Pending,
    Success,
    Warning,
    Fail,
}

impl Default for TestState {
    /// A check that has not reported yet is pending.
    fn default() -> (r: TestState)
        ensures
            r == TestState::Pending,
    {
        TestState::Pending
    }
}

/// The wire name of a summary state, as the tracker's API spells it.
pub open spec fn state_name(s: TestState) -> Seq<char> {
    match s {
        TestState::Pending => "pending"@,
        TestState::Success => "success"@,
        TestState::Warning => "warning"@,
        TestState::Fail => "fail"@,
    }
}

impl TestState {
    /// The wire name of this state.
    pub fn label(&self) -> (r: &'static str)
        ensures
            r@ == state_name(*self),
    {
        match self {
            TestState::Pending => "pending",
            TestState::Success => "success",
            TestState::Warning => "warning",
            TestState::Fail => "fail",
        }
    }
}

/// Who submitted a patch or series.
#[derive(Clone, Debug)]
pub struct SubmitterSummary {
    pub id: u64,
    pub url: String,
    pub name: Option<String>,
    pub email: String,
}

/// Who a patch is delegated to.
#[derive(Clone, Debug)]
pub struct DelegateSummary {
    pub id: u64,
    pub url: String,
    pub first_name: String,
    pub last_name: String,
    pub email: String,
}

/// A tracker account.
#[derive(Clone, Debug)]
pub struct UserSummary {
    pub id: u64,
    pub url: String,
    pub username: String,
    pub first_name: String,
    pub last_name: String,
    pub email: String,
}

/// A project on the tracker.
#[derive(Clone, Debug)]
pub struct Project {
    pub id: u64,
    pub url: String,
    pub name: String,
    pub link_name: String,
    pub list_email: String,
    pub list_id: String,
    pub web_url: Option<String>,
    pub scm_url: Option<String>,
    pub webscm_url: Option<String>,
}

/// One patch of a series, as the series record lists it.
#[derive(Clone, Debug)]
pub struct PatchSummary {
    pub date: String,
    pub id: u64,
    pub mbox: String,
    pub msgid: String,
    pub name: String,
    pub url: String,
}

/// A series' cover letter.
#[derive(Clone, Debug)]
pub struct CoverLetter {
    pub date: String,
    pub id: u64,
    pub msgid: String,
    pub name: String,
    pub url: String,
}

/// The series a patch belongs to, as the patch record lists it.
#[derive(Clone, Debug)]
pub struct SeriesSummary {
    pub id: u64,
    pub url: String,
    pub date: String,
    pub name: Option<String>,
    pub version: u64,
    pub mbox: String,
}

/// A full patch record.
#[derive(Clone, Debug)]
pub struct Patch {
    pub id: u64,
    pub url: String,
    pub project: Project,
    pub msgid: String,
    pub date: String,
    pub name: String,
    pub commit_ref: Option<String>,
    pub pull_url: Option<String>,
    pub state: String,
    pub archived: bool,
    pub hash: Option<String>,
    pub submitter: SubmitterSummary,
    pub delegate: Option<DelegateSummary>,
    pub mbox: String,
    pub series: Vec<SeriesSummary>,
    pub check: TestState,
    pub checks: String,
    pub tags: Vec<(String, u64)>,
}

/// Whether the pipeline owes a patch a test: it came by mail rather than as
/// a pull request, and its review has not moved past new or under-review.
pub open spec fn patch_action_required(p: Patch) -> bool {
    p.pull_url is None && (p.state@ == "new"@ || p.state@ == "under-review"@)
}

impl Patch {
    /// Whether the patch names the series it belongs to.
    pub fn has_series(&self) -> (r: bool)
        ensures
            r == (self.series@.len() > 0),
    {
        self.series.len() > 0
    }

    /// Whether the pipeline owes this patch a test.
    pub fn action_required(&self) -> (r: bool)
        ensures
            r == patch_action_required(*self),
    {
        self.pull_url.is_none() && (str_eq(self.state.as_str(), "new") || str_eq(
            self.state.as_str(),
            "under-review",
        ))
    }
}

/// A full series record.
#[derive(Clone, Debug)]
pub struct Series {
    pub cover_letter: Option<CoverLetter>,
    pub date: String,
    pub id: u64,
    pub mbox: String,
    pub name: Option<String>,
    pub patches: Vec<PatchSummary>,
    pub project: Project,
    pub received_all: bool,
    pub received_total: u64,
    pub submitter: SubmitterSummary,
    pub total: u64,
    pub url: String,
    pub version: u64,
}

/// A check already attached to a patch upstream.
#[derive(Clone, Debug)]
pub struct Check {
    pub id: u64,
    pub url: String,
    pub user: UserSummary,
    pub date: String,
    pub state: TestState,
    pub target_url: Option<String>,
    pub context: String,
    pub description: Option<String>,
}

/// Whether a sequence of states holds the given one.
pub open spec fn has_state(states: Seq<TestState>, s: TestState) -> bool {
    exists|i: int| 0 <= i < states.len() && states[i] == s
}

/// The reduction of many summary states into one, by the precedence
/// pending, then fail, then warning, then success.
pub open spec fn reduced_state(states: Seq<TestState>) -> TestState {
    if has_state(states, TestState::Pending) {
        TestState::Pending
    } else if has_state(states, TestState::Fail) {
        TestState::Fail
    } else if has_state(states, TestState::Warning) {
        TestState::Warning
    } else {
        TestState::Success
    }
}

/// Reduce the summary states of a series' patches into the series' own
/// state: pending beats fail beats warning beats success.
pub fn reduce_check_states(states: &Vec<TestState>) -> (r: TestState)
    ensures
        r == reduced_state(states@),
{
    let mut pending = false;
    let mut fail = false;
    let mut warning = false;
    let mut i: usize = 0;
    while i < states.len()
        invariant
            0 <= i <= states@.len(),
            pending == has_state(states@.take(i as int), TestState::Pending),
            fail == has_state(states@.take(i as int), TestState::Fail),
            warning == has_state(states@.take(i as int), TestState::Warning),
        decreases states@.len() - i,
    {
        let s = states[i];
        proof {
            assert(states@.take(i + 1).drop_last() =~= states@.take(i as int));
            assert(states@.take(i + 1).last() == states@[i as int]);
            assert(forall|t: TestState|
                has_state(#[trigger] states@.take(i + 1), t) == (has_state(
                    states@.take(i as int),
                    t,
                ) || states@[i as int] == t)) by {
                assert forall|t: TestState|
                    has_state(states@.take(i as int), t) || states@[i as int]
                        == t implies has_state(#[trigger] states@.take(i + 1), t) by {
                    if states@[i as int] == t {
                        assert(states@.take(i + 1)[i as int] == t);
                    } else {
                        let w = choose|j: int|
                            0 <= j < i && states@.take(i as int)[j] == t;
                        assert(states@.take(i + 1)[w] == t);
                    }
                }
            }
        }
        match s {
            TestState::Pending => {
                pending = true;
            },
            TestState::Fail => {
                fail = true;
            },
            TestState::Warning => {
                warning = true;
            },
            TestState::Success => {
            },
        }
        i = i + 1;
    }
    proof {
        assert(states@.take(states@.len() as int) =~= states@);
    }
    if pending {
        TestState::Pending
    } else if fail {
        TestState::Fail
    } else if warning {
        TestState::Warning
    } else {
        TestState::Success
    }
}

/// Whether a character may stand as itself in a URL query value: the
/// unreserved characters, which no percent-encoding ever touches.
pub open spec fn query_safe_char(c: char) -> bool {
    let u = c as u32;
    (48 <= u && u <= 57) || (65 <= u && u <= 90) || (97 <= u && u <= 122) || c == '-' || c == '.'
        || c == '_' || c == '~'
}

/// Bytes written as percent escapes, two hexadecimal digits each.
pub open spec fn percent_bytes(bs: Seq<u8>) -> Seq<char>
    decreases bs.len(),
{
    if bs.len() == 0 {
        Seq::<char>::empty()
    } else {
        seq!['%', hex_char(bs[0] as int / 16), hex_char(bs[0] as int % 16)] + percent_bytes(
            bs.drop_first(),
        )
    }
}

/// One character of a query value in encoded form: itself when unreserved,
/// else the percent escapes of its UTF-8 bytes.
pub open spec fn query_encoded_char(c: char) -> Seq<char> {
    if query_safe_char(c) {
        seq![c]
    } else {
        percent_bytes(vstd::utf8::encode_utf8(seq![c]))
    }
}

/// A string percent-encoded for use as a URL query value.
pub open spec fn query_encoded(s: Seq<char>) -> Seq<char>
    decreases s.len(),
{
    if s.len() == 0 {
        Seq::<char>::empty()
    } else {
        query_encoded_char(s[0]) + query_encoded(s.drop_first())
    }
}

/// Encoding distributes over appending one character at the end.
proof fn lemma_query_encoded_push(s: Seq<char>, c: char)
    ensures
        query_encoded(s.push(c)) == query_encoded(s) + query_encoded_char(c),
    decreases s.len(),
{
    if s.len() == 0 {
        assert(s.push(c)[0] == c);
        assert(s.push(c).drop_first() =~= Seq::<char>::empty());
        assert(query_encoded(s.push(c)) == query_encoded_char(c) + query_encoded(
            Seq::<char>::empty(),
        ));
        assert(query_encoded_char(c) + query_encoded(Seq::<char>::empty()) =~= query_encoded(s)
            + query_encoded_char(c));
    } else {
        assert(s.push(c).drop_first() =~= s.drop_first().push(c));
        lemma_query_encoded_push(s.drop_first(), c);
        assert(s.push(c)[0] == s[0]);
        assert(query_encoded(s.push(c)) =~= query_encoded(s) + query_encoded_char(c));
    }
}

/// Escaping distributes over appending one byte at the end.
proof fn lemma_percent_bytes_push(bs: Seq<u8>, b: u8)
    ensures
        percent_bytes(bs.push(b)) == percent_bytes(bs) + seq![
            '%',
            hex_char(b as int / 16),
            hex_char(b as int % 16),
        ],
    decreases bs.len(),
{
    if bs.len() == 0 {
        assert(bs.push(b)[0] == b);
        assert(bs.push(b).drop_first() =~= Seq::<u8>::empty());
        assert(percent_bytes(bs.push(b)) == seq![
            '%',
            hex_char(b as int / 16),
            hex_char(b as int % 16),
        ] + percent_bytes(Seq::<u8>::empty()));
        assert(seq!['%', hex_char(b as int / 16), hex_char(b as int % 16)] + percent_bytes(
            Seq::<u8>::empty(),
        ) =~= percent_bytes(bs) + seq!['%', hex_char(b as int / 16), hex_char(b as int % 16)]);
    } else {
        assert(bs.push(b).drop_first() =~= bs.drop_first().push(b));
        lemma_percent_bytes_push(bs.drop_first(), b);
        assert(bs.push(b)[0] == bs[0]);
        assert(percent_bytes(bs.push(b)) =~= percent_bytes(bs) + seq![
            '%',
            hex_char(b as int / 16),
            hex_char(b as int % 16),
        ]);
    }
}

fn is_query_safe(c: char) -> (r: bool)
    ensures
        r == query_safe_char(c),
{
    let u = c as u32;
    (48 <= u && u <= 57) || (65 <= u && u <= 90) || (97 <= u && u <= 122) || c == '-' || c == '.'
        || c == '_' || c == '~'
}

/// Append a string to a buffer percent-encoded as a URL query value.
pub fn append_query_encoded(out: &mut String, s: &str)
    ensures
        final(out)@ == old(out)@ + query_encoded(s@),
{
    let len = s.unicode_len();
    let mut i: usize = 0;
    proof {
        assert(query_encoded(s@.take(0)) =~= Seq::<char>::empty());
        assert(out@ =~= out@ + query_encoded(s@.take(0)));
    }
    while i < len
        invariant
            0 <= i <= len,
            len == s@.len(),
            out@ == old(out)@ + query_encoded(s@.take(i as int)),
        decreases len - i,
    {
        let c = s.get_char(i);
        proof {
            assert(s@.take(i as int).push(s@[i as int]) =~= s@.take(i + 1));
            lemma_query_encoded_push(s@.take(i as int), s@[i as int]);
        }
        if is_query_safe(c) {
            push_char(out, c);
            proof {
                assert(out@ =~= old(out)@ + query_encoded(s@.take(i + 1)));
            }
        } else {
            let mut one = String::new();
            push_char(&mut one, c);
            let bytes = one.as_str().as_bytes_vec();
            proof {
                assert(one@ =~= seq![c]);
            }
            let mut j: usize = 0;
            let ghost mid = out@;
            proof {
                assert(percent_bytes(bytes@.take(0)) =~= Seq::<char>::empty());
                assert(out@ =~= mid + percent_bytes(bytes@.take(0)));
            }
            while j < bytes.len()
                invariant
                    0 <= j <= bytes@.len(),
                    out@ == mid + percent_bytes(bytes@.take(j as int)),
                decreases bytes@.len() - j,
            {
                let b = bytes[j];
                proof {
                    assert(bytes@.take(j as int).push(bytes@[j as int]) =~= bytes@.take(j + 1));
                    lemma_percent_bytes_push(bytes@.take(j as int), bytes@[j as int]);
                }
                push_char(out, '%');
                push_char(out, hex_digit((b / 16) as u32));
                push_char(out, hex_digit((b % 16) as u32));
                proof {
                    assert(out@ =~= mid + percent_bytes(bytes@.take(j + 1)));
                }
                j = j + 1;
            }
            proof {
                assert(bytes@.take(bytes@.len() as int) =~= bytes@);
                assert(out@ =~= old(out)@ + query_encoded(s@.take(i + 1)));
            }
        }
        i = i + 1;
    }
    proof {
        assert(s@.take(len as int) =~= s@);
    }
}

/// The tracker's API root under a base URL, at the one supported revision.
pub fn api_url(base: &str) -> (r: String)
    ensures
        r@ == base@ + "/api/1.2"@,
{
    let mut s = String::from_str(base);
    s.append("/api/1.2");
    s
}

/// The URL of one patch record.
pub fn patch_url(api: &str, id: u64) -> (r: String)
    ensures
        r@ == api@ + "/patches/"@ + dec_chars(id as nat),
{
    let mut s = String::from_str(api);
    s.append("/patches/");
    s.append(u64_to_string(id).as_str());
    s
}

/// The URL of one series record.
pub fn series_url(api: &str, id: u64) -> (r: String)
    ensures
        r@ == api@ + "/series/"@ + dec_chars(id as nat),
{
    let mut s = String::from_str(api);
    s.append("/series/");
    s.append(u64_to_string(id).as_str());
    s
}

/// The URL listing a project's series, newest first, one page at a time.
/// The project's link name is spliced in percent-encoded, so a name
/// holding a reserved character cannot change the request.
pub fn series_list_url(api: &str, project: &str, page_size: u64) -> (r: String)
    ensures
        r@ == api@ + "/series?order=-id&per_page="@ + dec_chars(page_size as nat)
            + "&project="@ + query_encoded(project@),
{
    let mut s = String::from_str(api);
    s.append("/series?order=-id&per_page=");
    s.append(u64_to_string(page_size).as_str());
    s.append("&project=");
    append_query_encoded(&mut s, project);
    s
}

/// The URL listing the checks already attached to a patch.
pub fn patch_checks_url(api: &str, patch: u64) -> (r: String)
    ensures
        r@ == api@ + "/patches/"@ + dec_chars(patch as nat) + "/checks"@,
{
    let mut s = patch_url(api, patch);
    s.append("/checks");
    s
}

/// The URL that verdicts are posted to: the patch's checks URL with the
/// trailing slash the tracker insists on.
pub fn check_post_url(api: &str, patch: u64) -> (r: String)
    ensures
        r@ == api@ + "/patches/"@ + dec_chars(patch as nat) + "/checks/"@,
        r@.len() > 0 && r@.last() == '/',
{
    let mut s = patch_checks_url(api, patch);
    s.append("/");
    proof {
        reveal_strlit("/checks/");
        reveal_strlit("/checks");
        reveal_strlit("/");
        assert(s@ =~= api@ + "/patches/"@ + dec_chars(patch as nat) + "/checks/"@);
    }
    s
}

/// The character for one hexadecimal digit value.
pub open spec fn hex_char(d: int) -> char {
    if d == 0 {
        '0'
    } else if d == 1 {
        '1'
    } else if d == 2 {
        '2'
    } else if d == 3 {
        '3'
    } else if d == 4 {
        '4'
    } else if d == 5 {
        '5'
    } else if d == 6 {
        '6'
    } else if d == 7 {
        '7'
    } else if d == 8 {
        '8'
    } else if d == 9 {
        '9'
    } else if d == 10 {
        'a'
    } else if d == 11 {
        'b'
    } else if d == 12 {
        'c'
    } else if d == 13 {
        'd'
    } else if d == 14 {
        'e'
    } else {
        'f'
    }
}

/// The escaped form of one character inside a JSON string literal: quotes
/// and backslashes gain a backslash, control characters become a Unicode
/// escape, everything else stands as it is.
pub open spec fn json_escaped_char(c: char) -> Seq<char> {
    if c == '"' {
        seq!['\\', '"']
    } else if c == '\\' {
        seq!['\\', '\\']
    } else if (c as u32) < 32 {
        seq!['\\', 'u', '0', '0', hex_char((c as u32) as int / 16), hex_char((c as u32) as int % 16)]
    } else {
        seq![c]
    }
}

/// A character sequence escaped for use inside a JSON string literal.
pub open spec fn json_escaped(s: Seq<char>) -> Seq<char>
    decreases s.len(),
{
    if s.len() == 0 {
        Seq::<char>::empty()
    } else {
        json_escaped_char(s[0]) + json_escaped(s.drop_first())
    }
}

/// Escaping distributes over appending one character at the end.
proof fn lemma_json_escaped_push(s: Seq<char>, c: char)
    ensures
        json_escaped(s.push(c)) == json_escaped(s) + json_escaped_char(c),
    decreases s.len(),
{
    if s.len() == 0 {
        assert(s.push(c)[0] == c);
        assert(s.push(c).drop_first() =~= Seq::<char>::empty());
        assert(json_escaped(s.push(c)) == json_escaped_char(c) + json_escaped(
            Seq::<char>::empty(),
        ));
        assert(json_escaped_char(c) + json_escaped(Seq::<char>::empty()) =~= json_escaped(s)
            + json_escaped_char(c));
    } else {
        assert(s.push(c).drop_first() =~= s.drop_first().push(c));
        lemma_json_escaped_push(s.drop_first(), c);
        assert(s.push(c)[0] == s[0]);
        assert(json_escaped(s.push(c)) =~= json_escaped(s) + json_escaped_char(c));
    }
}

fn hex_digit(d: u32) -> (c: char)
    requires
        d < 16,
    ensures
        c == hex_char(d as int),
{
    if d == 0 {
        '0'
    } else if d == 1 {
        '1'
    } else if d == 2 {
        '2'
    } else if d == 3 {
        '3'
    } else if d == 4 {
        '4'
    } else if d == 5 {
        '5'
    } else if d == 6 {
        '6'
    } else if d == 7 {
        '7'
    } else if d == 8 {
        '8'
    } else if d == 9 {
        '9'
    } else if d == 10 {
        'a'
    } else if d == 11 {
        'b'
    } else if d == 12 {
        'c'
    } else if d == 13 {
        'd'
    } else if d == 14 {
        'e'
    } else {
        'f'
    }
}

/// Append a string to a buffer in JSON-escaped form.
fn append_json_escaped(out: &mut String, s: &str)
    ensures
        final(out)@ == old(out)@ + json_escaped(s@),
{
    let len = s.unicode_len();
    let mut i: usize = 0;
    proof {
        assert(json_escaped(s@.take(0)) =~= Seq::<char>::empty());
        assert(out@ =~= out@ + json_escaped(s@.take(0)));
    }
    while i < len
        invariant
            0 <= i <= len,
            len == s@.len(),
            out@ == old(out)@ + json_escaped(s@.take(i as int)),
        decreases len - i,
    {
        let c = s.get_char(i);
        proof {
            assert(s@.take(i as int).push(s@[i as int]) =~= s@.take(i + 1));
            lemma_json_escaped_push(s@.take(i as int), s@[i as int]);
        }
        if c == '"' {
            out.append("\\\"");
            proof {
                reveal_strlit("\\\"");
                assert(out@ =~= old(out)@ + json_escaped(s@.take(i + 1)));
            }
        } else if c == '\\' {
            out.append("\\\\");
            proof {
                reveal_strlit("\\\\");
                assert(out@ =~= old(out)@ + json_escaped(s@.take(i + 1)));
            }
        } else {
            let code = c as u32;
            if code < 32 {
                out.append("\\u00");
                push_char(out, hex_digit(code / 16));
                push_char(out, hex_digit(code % 16));
                proof {
                    reveal_strlit("\\u00");
                    assert(out@ =~= old(out)@ + json_escaped(s@.take(i + 1)));
                }
            } else {
                push_char(out, c);
                proof {
                    assert(out@ =~= old(out)@ + json_escaped(s@.take(i + 1)));
                }
            }
        }
        i = i + 1;
    }
    proof {
        assert(s@.take(len as int) =~= s@);
    }
}

/// The default verdict context: the tool's name and version, joined by a
/// hyphen, with every full stop turned into an underscore.
pub open spec fn default_context_chars() -> Seq<char> {
    dotted_to_underscored("snowpatch"@ + "-"@ + "1.0.0"@)
}

/// The context a verdict carries upstream: the caller's, else the default.
pub open spec fn effective_context(ctx: Option<Seq<char>>) -> Seq<char> {
    match ctx {
        Some(c) => c,
        None => default_context_chars(),
    }
}

/// The default verdict context, never empty.
pub fn tool_context() -> (r: String)
    ensures
        r@ == default_context_chars(),
        r@.len() > 0,
{
    let mut s = String::from_str("snowpatch");
    s.append("-");
    s.append("1.0.0");
    let r = dots_to_underscores(s.as_str());
    proof {
        reveal_strlit("snowpatch");
    }
    r
}

/// A verdict's context as posted is never empty: a caller's own non-empty
/// context carries through, and the default stands in for a missing one.
pub proof fn lemma_effective_context_nonempty(ctx: Option<Seq<char>>)
    requires
        ctx matches Some(c) ==> c.len() > 0,
    ensures
        effective_context(ctx).len() > 0,
{
    reveal_strlit("snowpatch");
}

/// The view of an optional string.
pub open spec fn opt_chars(o: Option<String>) -> Option<Seq<char>> {
    match o {
        Some(s) => Some(s@),
        None => None,
    }
}

/// A verdict to be posted upstream against a patch.
#[derive(Clone, Debug)]
pub struct TestResult {
    pub state: TestState,
    pub target_url: Option<String>,
    pub description: Option<String>,
    pub context: Option<String>,
}

impl Default for TestResult {
    /// The verdict with nothing set: state pending, no URL, no description, no context.
    fn default() -> (r: TestResult)
        ensures
            r.state == TestState::Pending,
            r.target_url is None,
            r.description is None,
            r.context is None,
    {
        TestResult { state: TestState::Pending, target_url: None, description: None, context: None }
    }
}

/// An optional field of the verdict record: null, or a JSON string.
pub open spec fn json_opt_string(v: Option<Seq<char>>) -> Seq<char> {
    match v {
        None => "null"@,
        Some(s) => "\""@ + json_escaped(s) + "\""@,
    }
}

/// The serialised verdict, as it is posted to the tracker: state under its
/// wire name, optional target URL and description, and the context, with
/// the default context standing in when none was given.
pub open spec fn verdict_json_chars(
    state: TestState,
    url: Option<Seq<char>>,
    desc: Option<Seq<char>>,
    ctx: Option<Seq<char>>,
) -> Seq<char> {
    "{\"state\":\""@ + state_name(state) + "\",\"target_url\":"@ + json_opt_string(url)
        + ",\"description\":"@ + json_opt_string(desc) + ",\"context\":\""@ + json_escaped(
        effective_context(ctx),
    ) + "\"}"@
}

/// Append an optional string field in its JSON form.
fn append_json_opt(out: &mut String, v: &Option<String>)
    ensures
        final(out)@ == old(out)@ + json_opt_string(opt_chars(*v)),
{
    match v {
        None => {
            out.append("null");
        },
        Some(s) => {
            out.append("\"");
            append_json_escaped(out, s.as_str());
            out.append("\"");
            proof {
                assert(out@ =~= old(out)@ + json_opt_string(opt_chars(*v)));
            }
        },
    }
}

impl TestResult {
    /// Serialise the verdict for the tracker's checks API.
    pub fn to_json(&self) -> (r: String)
        ensures
            r@ == verdict_json_chars(
                self.state,
                opt_chars(self.target_url),
                opt_chars(self.description),
                opt_chars(self.context),
            ),
    {
        let mut s = String::from_str("{\"state\":\"");
        s.append(self.state.label());
        s.append("\",\"target_url\":");
        append_json_opt(&mut s, &self.target_url);
        s.append(",\"description\":");
        append_json_opt(&mut s, &self.description);
        s.append(",\"context\":\"");
        match &self.context {
            Some(c) => append_json_escaped(&mut s, c.as_str()),
            None => {
                let d = tool_context();
                append_json_escaped(&mut s, d.as_str());
            },
        }
        s.append("\"}");
        proof {
            assert(s@ =~= verdict_json_chars(
                self.state,
                opt_chars(self.target_url),
                opt_chars(self.description),
                opt_chars(self.context),
            ));
        }
        s
    }
}

} // verus!
