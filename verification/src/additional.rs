//! The additional parameters of a request: `key=value` pairs, parted by
//! `;` or `/`.

use vstd::prelude::*;
use crate::text::{find, lemma_scan, same_bytes, scan};

verus! {

/// The byte `=`, which parts a key from its value.
pub const EQUALS: u8 = 0x3d;

/// Whether `b` parts two pairs: `;` or `/`.
pub open spec fn is_separator(b: u8) -> bool {
    b == 0x3b || b == 0x2f
}

/// The end of the pair that begins at `from`: the position of the first
/// separator at or after `from`, or the length of `s` if there is none.
pub open spec fn pair_end(s: Seq<u8>, from: int) -> int
    decreases s.len() - from,
{
    if from < 0 || from >= s.len() {
        s.len() as int
    } else if is_separator(s[from]) {
        from
    } else {
        pair_end(s, from + 1)
    }
}

/// A pair ends at the first separator and at none before it.
pub proof fn lemma_pair_end(s: Seq<u8>, from: int)
    requires
        0 <= from <= s.len(),
    ensures
        from <= pair_end(s, from) <= s.len(),
        forall|i: int| from <= i < pair_end(s, from) ==> !is_separator(s[i]),
        pair_end(s, from) < s.len() ==> is_separator(s[pair_end(s, from)]),
    decreases s.len() - from,
{
    if from < s.len() && !is_separator(s[from]) {
        lemma_pair_end(s, from + 1);
    }
}

/// The value that one pair gives to `key`: what follows its first `=`, if
/// what stands before it is `key`. A pair without `=` gives none.
pub open spec fn pair_value(pair: Seq<u8>, key: Seq<u8>) -> Option<Seq<u8>> {
    let equals = scan(pair, EQUALS, 0);
    if equals < pair.len() && pair.take(equals) == key {
        Some(pair.skip(equals + 1))
    } else {
        None
    }
}

/// The value that the pairs of `s` from position `from` on give to `key`.
/// Where several pairs name the key, the last one counts.
pub open spec fn value_from(s: Seq<u8>, key: Seq<u8>, from: int) -> Option<Seq<u8>>
    decreases s.len() + 1 - from,
{
    if from < 0 || from > s.len() {
        None
    } else {
        let end = pair_end(s, from);
        proof {
            lemma_pair_end(s, from);
        }
        match value_from(s, key, end + 1) {
            Some(later) => Some(later),
            None => pair_value(s.subrange(from, end), key),
        }
    }
}

/// The value of `key` among the additional parameters `s`; empty if no
/// pair names the key.
pub open spec fn value_of(s: Seq<u8>, key: Seq<u8>) -> Seq<u8> {
    match value_from(s, key, 0) {
        Some(value) => value,
        None => Seq::empty(),
    }
}

fn find_separator(s: &[u8], from: usize) -> (at: usize)
    requires
        from <= s@.len(),
    ensures
        at == pair_end(s@, from as int),
        from <= at <= s@.len(),
{
    let mut i: usize = from;
    while i < s.len() && s[i] != 0x3b && s[i] != 0x2f
        invariant
            from <= i <= s@.len(),
            pair_end(s@, from as int) == pair_end(s@, i as int),
        decreases s@.len() - i,
    {
        i = i + 1;
    }
    i
}

/// The value of `key` among the additional parameters; empty if no pair
/// names the key.
pub fn additional_value<'a>(additional: &'a [u8], key: &[u8]) -> (value: &'a [u8])
    ensures
        value@ == value_of(additional@, key@),
{
    let mut value = vstd::slice::slice_subrange(additional, 0, 0);
    let mut from: usize = 0;
    loop
        invariant
            from <= additional@.len(),
            value_of(additional@, key@) == match value_from(additional@, key@, from as int) {
                Some(later) => later,
                None => value@,
            },
        decreases additional@.len() - from,
    {
        let end = find_separator(additional, from);
        let pair = vstd::slice::slice_subrange(additional, from, end);
        let equals = find(pair, EQUALS, 0);
        let named = equals < pair.len() && same_bytes(
            vstd::slice::slice_subrange(pair, 0, equals),
            key,
        );
        if named {
            value = vstd::slice::slice_subrange(pair, equals + 1, pair.len());
            assert(value@ =~= pair@.skip(equals + 1));
        }
        assert(pair@.take(equals as int) =~= pair@.subrange(0, equals as int));
        if end == additional.len() {
            return value;
        }
        from = end + 1;
    }
}

/// A single pair `key=value`, with no `=` in the key and no separator in
/// either, gives the key its value.
pub proof fn lemma_single_pair(key: Seq<u8>, value: Seq<u8>)
    requires
        !key.contains(EQUALS),
        forall|i: int| 0 <= i < key.len() ==> !is_separator(key[i]),
        forall|i: int| 0 <= i < value.len() ==> !is_separator(value[i]),
    ensures
        value_of(key + seq![EQUALS] + value, key) == value,
{
    let s = key + seq![EQUALS] + value;
    lemma_pair_end(s, 0);
    assert(pair_end(s, 0) == s.len()) by {
        let at = pair_end(s, 0);
        if at < s.len() {
            if at < key.len() {
                assert(s[at] == key[at]);
            } else if at > key.len() {
                assert(s[at] == value[at - key.len() - 1]);
            }
        }
    }
    assert(s.subrange(0, s.len() as int) =~= s);
    lemma_scan(s, EQUALS, 0);
    assert(scan(s, EQUALS, 0) == key.len()) by {
        let at = scan(s, EQUALS, 0);
        if at < key.len() {
            assert(s[at] == key[at]);
            assert(key.contains(EQUALS));
        }
        if at > key.len() {
            assert(s[key.len() as int] == EQUALS);
        }
    }
    assert(s.take(key.len() as int) =~= key);
    assert(s.skip(key.len() as int + 1) =~= value);
    assert(value_from(s, key, s.len() as int + 1) is None);
}

} // verus!
