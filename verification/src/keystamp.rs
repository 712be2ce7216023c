//! The keystamp: a time-bound token that ties a request to a file.
//!
//! A keystamp reads `<unix seconds>-<hex prefix>`. It is accepted when both
//! halves are there, the time is within fifteen minutes of the server's,
//! and the prefix begins the lower-case hexadecimal SHA-1 of
//! `<unix seconds>-<file id>-<server key>-hotlinkthis`.

use vstd::prelude::*;
use crate::digest::{hex_lower, sha1, sha1_digest, to_hex_lower};
use crate::text::{append, find, lemma_scan, parse_decimal, parse_i64, scan, starts_with};

verus! {

/// How far, in seconds, a keystamp's time may lie from the server's, either
/// way.
pub const KEYSTAMP_TTL: i64 = 900;

/// The byte `-`, which parts the fields.
pub const DASH: u8 = 0x2d;

/// The bytes `-hotlinkthis`, which end every keystamp message.
pub open spec fn salt() -> Seq<u8> {
    seq![0x2du8, 0x68, 0x6f, 0x74, 0x6c, 0x69, 0x6e, 0x6b, 0x74, 0x68, 0x69, 0x73]
}

/// The first half of a keystamp: what stands before its first `-`.
pub open spec fn stamp_time(keystamp: Seq<u8>) -> Seq<u8> {
    keystamp.take(scan(keystamp, DASH, 0))
}

/// The second half of a keystamp: what stands between its first `-` and
/// its second, or its end. Without a `-` there is none.
pub open spec fn stamp_prefix(keystamp: Seq<u8>) -> Seq<u8> {
    let dash = scan(keystamp, DASH, 0);
    if dash >= keystamp.len() {
        Seq::empty()
    } else {
        keystamp.subrange(dash + 1, scan(keystamp, DASH, dash + 1))
    }
}

/// The time that the first half writes, in seconds; 0 if it writes none.
pub open spec fn stamp_seconds(time: Seq<u8>) -> int {
    match parse_decimal(time) {
        Some(seconds) => seconds,
        None => 0,
    }
}

/// The message whose SHA-1 a keystamp must begin.
pub open spec fn keystamp_message(time: Seq<u8>, file_id: Seq<u8>, key: Seq<u8>) -> Seq<u8> {
    time + seq![DASH] + file_id + seq![DASH] + key + salt()
}

/// Whether a keystamp is accepted at `server_time`, when `digest` is the
/// SHA-1 of its message.
pub open spec fn accepts(keystamp: Seq<u8>, server_time: int, digest: Seq<u8>) -> bool {
    &&& stamp_time(keystamp).len() > 0
    &&& stamp_prefix(keystamp).len() > 0
    &&& -KEYSTAMP_TTL <= server_time - stamp_seconds(stamp_time(keystamp)) <= KEYSTAMP_TTL
    &&& stamp_prefix(keystamp).is_prefix_of(hex_lower(digest))
}

/// The two halves of a keystamp.
pub fn split_keystamp(keystamp: &[u8]) -> (halves: (&[u8], &[u8]))
    ensures
        halves.0@ == stamp_time(keystamp@),
        halves.1@ == stamp_prefix(keystamp@),
{
    let dash = find(keystamp, DASH, 0);
    let time = vstd::slice::slice_subrange(keystamp, 0, dash);
    if dash >= keystamp.len() {
        (time, vstd::slice::slice_subrange(keystamp, dash, dash))
    } else {
        let end = find(keystamp, DASH, dash + 1);
        (time, vstd::slice::slice_subrange(keystamp, dash + 1, end))
    }
}

/// The message whose SHA-1 the keystamp of `time` for `file_id` must begin
/// under the server key `key`.
pub fn build_message(time: &[u8], file_id: &[u8], key: &[u8]) -> (message: Vec<u8>)
    ensures
        message@ == keystamp_message(time@, file_id@, key@),
{
    let mut message: Vec<u8> = Vec::new();
    append(&mut message, time);
    message.push(DASH);
    append(&mut message, file_id);
    message.push(DASH);
    append(&mut message, key);
    let ending: [u8; 12] = [0x2d, 0x68, 0x6f, 0x74, 0x6c, 0x69, 0x6e, 0x6b, 0x74, 0x68, 0x69, 0x73];
    assert(ending@ =~= salt());
    append(&mut message, ending.as_slice());
    message
}

/// Whether `keystamp` is accepted at `server_time`, given the SHA-1 of its
/// message.
pub fn accepts_digest(keystamp: &[u8], server_time: i64, digest: &[u8; 20]) -> (accepted: bool)
    ensures
        accepted == accepts(keystamp@, server_time as int, digest@),
{
    let (time, prefix) = split_keystamp(keystamp);
    if time.len() == 0 || prefix.len() == 0 {
        return false;
    }
    let seconds: i64 = match parse_i64(time) {
        Some(seconds) => seconds,
        None => 0,
    };
    let skew: i128 = server_time as i128 - seconds as i128;
    if skew < -(KEYSTAMP_TTL as i128) || skew > KEYSTAMP_TTL as i128 {
        return false;
    }
    let hex = to_hex_lower(digest.as_slice());
    starts_with(hex.as_slice(), prefix)
}

/// Whether the request for `file_id` that carries `keystamp` is let in,
/// when the server's key is `key` and its clock reads `server_time`.
pub fn check_keystamp(keystamp: &[u8], file_id: &[u8], key: &[u8], server_time: i64) -> (accepted:
    bool)
    ensures
        accepted == accepts(
            keystamp@,
            server_time as int,
            sha1_digest(keystamp_message(stamp_time(keystamp@), file_id@, key@)),
        ),
{
    let (time, _) = split_keystamp(keystamp);
    let message = build_message(time, file_id, key);
    let digest = sha1(message.as_slice());
    accepts_digest(keystamp, server_time, &digest)
}

/// A keystamp put together from a time and a prefix, neither holding a
/// `-`, has these as its two halves.
pub proof fn lemma_halves(time: Seq<u8>, prefix: Seq<u8>)
    requires
        !time.contains(DASH),
        !prefix.contains(DASH),
    ensures
        stamp_time(time + seq![DASH] + prefix) == time,
        stamp_prefix(time + seq![DASH] + prefix) == prefix,
{
    let stamp = time + seq![DASH] + prefix;
    let first = time.len() as int;
    lemma_scan(stamp, DASH, 0);
    assert(scan(stamp, DASH, 0) == first) by {
        let at = scan(stamp, DASH, 0);
        if at < first {
            assert(stamp[at] == time[at]);
            assert(time.contains(DASH));
        }
        if at > first {
            assert(stamp[first] == DASH);
        }
    }
    lemma_scan(stamp, DASH, first + 1);
    assert(scan(stamp, DASH, first + 1) == stamp.len()) by {
        let at = scan(stamp, DASH, first + 1);
        if at < stamp.len() {
            assert(stamp[at] == prefix[at - first - 1]);
            assert(prefix.contains(DASH));
        }
    }
    assert(stamp.take(first) =~= time);
    assert(stamp.subrange(first + 1, stamp.len() as int) =~= prefix);
}

/// The keystamp law: for a server key and a file id, the keystamp of a
/// time `T` and a prefix `H` is accepted if and only if both are non-empty,
/// the server's time is within 900 seconds of `T`, and `H` begins the
/// hexadecimal SHA-1 of `T-<file id>-<key>-hotlinkthis`.
pub proof fn lemma_keystamp_law(
    time: Seq<u8>,
    prefix: Seq<u8>,
    file_id: Seq<u8>,
    key: Seq<u8>,
    server_time: int,
)
    requires
        !time.contains(DASH),
        !prefix.contains(DASH),
    ensures
        accepts(
            time + seq![DASH] + prefix,
            server_time,
            sha1_digest(
                keystamp_message(stamp_time(time + seq![DASH] + prefix), file_id, key),
            ),
        ) <==> {
            &&& time.len() > 0
            &&& prefix.len() > 0
            &&& -900 <= server_time - stamp_seconds(time) <= 900
            &&& prefix.is_prefix_of(
                hex_lower(sha1_digest(time + seq![DASH] + file_id + seq![DASH] + key + salt())),
            )
        },
{
    lemma_halves(time, prefix);
}

} // verus!
