//! The binary codec for queue keys and values.
//!
//! All queue contents are byte strings.  Numbers are stored as fixed-width
//! little-endian words, and character strings as a length word followed by
//! their UTF-8 bytes.  The encoding is deterministic, so keys written before
//! a restart are found again afterwards.

use vstd::arithmetic::div_mod::lemma_mod_breakdown;
use vstd::arithmetic::div_mod::lemma_small_mod;
use vstd::prelude::*;
use vstd::string::StrSliceExecFns;
use vstd::utf8::decode_utf8;
use vstd::utf8::encode_utf8;
use vstd::utf8::valid_utf8;

verus! {

/// 256 raised to the given power: the number of byte strings of that length.
pub open spec fn pow256(n: nat) -> nat
    decreases n,
{
    if n == 0 {
        1
    } else {
        256 * pow256((n - 1) as nat)
    }
}

/// The little-endian bytes of a number, least significant first, in the
/// given width.
pub open spec fn le_bytes(x: nat, n: nat) -> Seq<u8>
    decreases n,
{
    if n == 0 {
        Seq::<u8>::empty()
    } else {
        seq![(x % 256) as u8] + le_bytes(x / 256, (n - 1) as nat)
    }
}

/// The number denoted by little-endian bytes, least significant first.
pub open spec fn le_value(s: Seq<u8>) -> nat
    decreases s.len(),
{
    if s.len() == 0 {
        0
    } else {
        (s[0] + 256 * le_value(s.drop_first())) as nat
    }
}

/// The eight-byte little-endian encoding of a machine word, the key format
/// for series identifiers.
pub open spec fn u64_le_bytes(x: u64) -> Seq<u8> {
    le_bytes(x as nat, 8)
}

/// The count of byte strings of a length is positive, and longer byte
/// strings are counted at least as often.
pub proof fn lemma_pow256_pos(n: nat)
    ensures
        pow256(n) >= 1,
    decreases n,
{
    if n > 0 {
        lemma_pow256_pos((n - 1) as nat);
    }
}

/// The count of byte strings grows with the length.
pub proof fn lemma_pow256_le(a: nat, b: nat)
    requires
        a <= b,
    ensures
        pow256(a) <= pow256(b),
    decreases b,
{
    if a < b {
        lemma_pow256_le(a, (b - 1) as nat);
        lemma_pow256_pos((b - 1) as nat);
    }
}

/// A little-endian encoding has exactly its chosen width.
pub proof fn lemma_le_bytes_len(x: nat, n: nat)
    ensures
        le_bytes(x, n).len() == n,
    decreases n,
{
    if n > 0 {
        lemma_le_bytes_len(x / 256, (n - 1) as nat);
    }
}

/// The value read back from a little-endian encoding is the encoded number,
/// reduced to the chosen width.
pub proof fn lemma_le_value_of_le_bytes(x: nat, n: nat)
    ensures
        le_value(le_bytes(x, n)) == x % pow256(n),
    decreases n,
{
    if n == 0 {
        lemma_small_mod(x % 1, 1);
        assert(x % pow256(0) == 0) by {
            assert(pow256(0) == 1);
        }
    } else {
        lemma_le_value_of_le_bytes(x / 256, (n - 1) as nat);
        let rest = le_bytes(x / 256, (n - 1) as nat);
        assert(le_bytes(x, n).drop_first() =~= rest);
        assert(le_bytes(x, n)[0] == (x % 256) as u8);
        lemma_pow256_pos((n - 1) as nat);
        lemma_mod_breakdown(x as int, 256, pow256((n - 1) as nat) as int);
    }
}

/// The value of little-endian bytes is below the count of byte strings of
/// that length.
pub proof fn lemma_le_value_bound(s: Seq<u8>)
    ensures
        le_value(s) < pow256(s.len()),
    decreases s.len(),
{
    if s.len() > 0 {
        lemma_le_value_bound(s.drop_first());
    }
}

/// Eight bytes hold exactly the machine words.
pub proof fn lemma_pow256_8()
    ensures
        pow256(8) == 0x1_0000_0000_0000_0000,
{
    reveal_with_fuel(pow256, 9);
}

/// Encoding a word and reading it back yields the word.
pub proof fn lemma_u64_round_trip(x: u64)
    ensures
        le_value(u64_le_bytes(x)) == x,
{
    lemma_le_value_of_le_bytes(x as nat, 8);
    lemma_pow256_8();
    lemma_small_mod(x as nat, pow256(8));
}

/// Distinct words have distinct key encodings.
pub proof fn lemma_u64_le_bytes_injective(a: u64, b: u64)
    requires
        u64_le_bytes(a) == u64_le_bytes(b),
    ensures
        a == b,
{
    lemma_u64_round_trip(a);
    lemma_u64_round_trip(b);
}

fn le_encode(x: u64, n: usize) -> (v: Vec<u8>)
    ensures
        v@ == le_bytes(x as nat, n as nat),
    decreases n,
{
    if n == 0 {
        let v: Vec<u8> = Vec::new();
        proof {
            assert(v@ =~= le_bytes(x as nat, 0));
        }
        v
    } else {
        let mut v: Vec<u8> = Vec::new();
        v.push((x % 256) as u8);
        let mut rest = le_encode(x / 256, n - 1);
        v.append(&mut rest);
        proof {
            assert(v@ =~= le_bytes(x as nat, n as nat));
        }
        v
    }
}

/// The stored key for a series identifier: its eight little-endian bytes.
pub fn encode_u64(x: u64) -> (v: Vec<u8>)
    ensures
        v@ == u64_le_bytes(x),
{
    le_encode(x, 8)
}

/// Read a series identifier back from its stored key.  Returns `None`
/// exactly when the key does not have the fixed width.
pub fn decode_u64(bytes: &[u8]) -> (r: Option<u64>)
    ensures
        bytes@.len() == 8 ==> (r matches Some(x) && x == le_value(bytes@)),
        bytes@.len() != 8 ==> r is None,
{
    if bytes.len() != 8 {
        return None;
    }
    let mut acc: u64 = 0;
    let mut k: usize = 8;
    proof {
        assert(bytes@.subrange(8, 8) =~= Seq::<u8>::empty());
    }
    while k > 0
        invariant
            0 <= k <= 8,
            bytes@.len() == 8,
            acc == le_value(bytes@.subrange(k as int, 8)),
            acc < pow256((8 - k) as nat),
        decreases k,
    {
        let b = bytes[k - 1];
        proof {
            let tail = bytes@.subrange(k - 1, 8);
            assert(tail.drop_first() =~= bytes@.subrange(k as int, 8));
            assert(tail[0] == bytes@[k - 1]);
            assert(pow256((8 - (k - 1)) as nat) == 256 * pow256((8 - k) as nat));
            lemma_pow256_le((8 - k) as nat, 7);
            lemma_pow256_8();
            reveal_with_fuel(pow256, 9);
        }
        acc = b as u64 + 256 * acc;
        k = k - 1;
    }
    proof {
        assert(bytes@.subrange(0, 8) =~= bytes@);
    }
    Some(acc)
}

/// The stored form of a character string: a length word followed by the
/// string's UTF-8 bytes.
pub open spec fn string_bytes(s: Seq<char>) -> Seq<u8> {
    u64_le_bytes(encode_utf8(s).len() as u64) + encode_utf8(s)
}

/// What reading a stored character string at a position of a byte string
/// yields: the string and the position just past it, or nothing when the
/// bytes there are not a stored string.
pub open spec fn read_string_at(bytes: Seq<u8>, pos: int) -> Option<(Seq<char>, int)> {
    if 0 <= pos && pos + 8 <= bytes.len() {
        let l = le_value(bytes.subrange(pos, pos + 8));
        if pos + 8 + l <= bytes.len() {
            let payload = bytes.subrange(pos + 8, pos + 8 + l);
            if valid_utf8(payload) {
                Some((decode_utf8(payload), pos + 8 + l))
            } else {
                None
            }
        } else {
            None
        }
    } else {
        None
    }
}

/// Append the stored form of a character string to a buffer.
pub fn write_string(out: &mut Vec<u8>, s: &str)
    ensures
        final(out)@ == old(out)@ + string_bytes(s@),
{
    let mut payload = s.as_bytes_vec();
    let len64: u64 = payload.len() as u64;
    let mut prefix = encode_u64(len64);
    out.append(&mut prefix);
    out.append(&mut payload);
    proof {
        assert(out@ =~= old(out)@ + string_bytes(s@));
    }
}

/// Relies on String::from_utf8: decodes the bytes when they are valid UTF-8
/// and reports the rest as invalid.
#[verifier::external_body]
pub(crate) fn bytes_to_string(v: Vec<u8>) -> (r: Option<String>)
    ensures
        r matches Some(s) ==> valid_utf8(v@) && s@ == decode_utf8(v@),
        r is None ==> !valid_utf8(v@),
{
    String::from_utf8(v).ok()
}

/// Read a stored character string at a position of a byte string, returning
/// the string and the position just past it.
pub fn read_string(bytes: &Vec<u8>, pos: usize) -> (r: Option<(String, usize)>)
    requires
        pos <= bytes@.len(),
    ensures
        r matches Some(p) ==> read_string_at(bytes@, pos as int) matches Some(q) && p.0@ == q.0
            && p.1 == q.1 && pos < p.1 <= bytes@.len(),
        r is None ==> read_string_at(bytes@, pos as int) is None,
{
    let blen: usize = bytes.len();
    if blen - pos < 8 {
        return None;
    }
    let mut prefix: Vec<u8> = Vec::new();
    let mut i: usize = pos;
    while i < pos + 8
        invariant
            pos <= i <= pos + 8,
            pos + 8 <= bytes@.len(),
            bytes@.len() <= usize::MAX,
            prefix@ == bytes@.subrange(pos as int, i as int),
        decreases pos + 8 - i,
    {
        prefix.push(bytes[i]);
        proof {
            assert(prefix@ =~= bytes@.subrange(pos as int, i + 1));
        }
        i = i + 1;
    }
    let l = match decode_u64(prefix.as_slice()) {
        Some(l) => l,
        None => {
            return None;
        },
    };
    proof {
        lemma_le_value_bound(bytes@.subrange(pos as int, pos + 8));
    }
    if l > (blen - pos - 8) as u64 {
        return None;
    }
    let llen: usize = l as usize;
    let mut payload: Vec<u8> = Vec::new();
    let mut j: usize = pos + 8;
    while j < pos + 8 + llen
        invariant
            pos + 8 <= j <= pos + 8 + llen,
            pos + 8 + llen <= bytes@.len(),
            bytes@.len() <= usize::MAX,
            payload@ == bytes@.subrange(pos + 8, j as int),
        decreases pos + 8 + llen - j,
    {
        payload.push(bytes[j]);
        proof {
            assert(payload@ =~= bytes@.subrange(pos + 8, j + 1));
        }
        j = j + 1;
    }
    match bytes_to_string(payload) {
        Some(s) => Some((s, pos + 8 + llen)),
        None => None,
    }
}

/// Reading a stored string back from where it was written yields the string
/// itself, leaving the position at whatever follows it.  The length bound is
/// a machine limit: the length word of the stored form has eight bytes.
pub proof fn lemma_read_back_string(prefix: Seq<u8>, s: Seq<char>, rest: Seq<u8>)
    requires
        encode_utf8(s).len() <= u64::MAX,
    ensures
        read_string_at(prefix + string_bytes(s) + rest, prefix.len() as int) matches Some(q)
            && q.0 == s && q.1 == prefix.len() + string_bytes(s).len(),
{
    let whole = prefix + string_bytes(s) + rest;
    let pos = prefix.len() as int;
    let payload = encode_utf8(s);
    let l64 = payload.len() as u64;
    lemma_le_bytes_len(l64 as nat, 8);
    assert(whole.subrange(pos, pos + 8) =~= u64_le_bytes(l64));
    lemma_u64_round_trip(l64);
    assert(whole.subrange(pos + 8, pos + 8 + payload.len()) =~= payload);
    vstd::utf8::encode_utf8_valid_utf8(s);
    vstd::utf8::encode_utf8_decode_utf8(s);
}

} // verus!
