//! SHA-1 through OpenSSL's incremental hasher.

use vstd::prelude::*;

verus! {

/// OpenSSL's incremental SHA-1 state. Its inside is not visible here; what
/// it has been fed is spoken of through [`absorbed`].
#[verifier::external_type_specification]
#[verifier::external_body]
pub struct ExSha1(openssl::sha::Sha1);

/// The bytes that a hasher has been fed since it was created, in order.
pub uninterp spec fn absorbed(hasher: openssl::sha::Sha1) -> Seq<u8>;

/// The SHA-1 digest of a byte string, as `openssl::sha::Sha1::finish`
/// computes it from everything the hasher was fed.
pub uninterp spec fn sha1_digest(data: Seq<u8>) -> Seq<u8>;

/// `openssl::sha::Sha1::new` (`SHA1_Init`): a fresh hasher has been fed
/// nothing.
pub assume_specification[ openssl::sha::Sha1::new ]() -> (hasher: openssl::sha::Sha1)
    ensures
        absorbed(hasher) == Seq::<u8>::empty(),
;

/// `openssl::sha::Sha1::update` (`SHA1_Update`): the buffer is appended to
/// what the hasher has been fed.
pub assume_specification[ openssl::sha::Sha1::update ](
    hasher: &mut openssl::sha::Sha1,
    buf: &[u8],
)
    ensures
        absorbed(*final(hasher)) == absorbed(*old(hasher)) + buf@,
;

/// `openssl::sha::Sha1::finish` (`SHA1_Final`): the 20-byte result is the
/// SHA-1 digest of everything the hasher was fed.
pub assume_specification[ openssl::sha::Sha1::finish ](hasher: openssl::sha::Sha1) -> (digest:
    [u8; 20])
    ensures
        digest@ == sha1_digest(absorbed(hasher)),
;

/// `Clone` of `openssl::sha::Sha1`, which the crate derives for its copy of
/// the C context: the new hasher has been fed what the one it was made
/// from has.
pub assume_specification[ <openssl::sha::Sha1 as Clone>::clone ](
    hasher: &openssl::sha::Sha1,
) -> (copy: openssl::sha::Sha1)
    ensures
        absorbed(copy) == absorbed(*hasher),
;

/// The SHA-1 digest of `data`.
pub fn sha1(data: &[u8]) -> (digest: [u8; 20])
    ensures
        digest@ == sha1_digest(data@),
{
    let mut hasher = openssl::sha::Sha1::new();
    hasher.update(data);
    hasher.finish()
}

/// Whether two digests are the same.
pub fn same_digest(a: &[u8; 20], b: &[u8; 20]) -> (same: bool)
    ensures
        same == (a@ == b@),
{
    let mut i: usize = 0;
    while i < 20
        invariant
            i <= 20,
            forall|k: int| 0 <= k < i ==> a@[k] == b@[k],
        decreases 20 - i,
    {
        if a[i] != b[i] {
            return false;
        }
        i = i + 1;
    }
    assert(a@ =~= b@);
    true
}

/// The lower-case hexadecimal digit of a number below sixteen.
pub open spec fn hex_digit(nibble: u8) -> u8 {
    if nibble < 10 {
        (0x30 + nibble) as u8
    } else {
        (0x57 + nibble) as u8
    }
}

/// The lower-case hexadecimal writing of a byte string: two digits for each
/// byte, the high half first.
pub open spec fn hex_lower(data: Seq<u8>) -> Seq<u8> {
    Seq::new(
        2 * data.len(),
        |i: int|
            if i % 2 == 0 {
                hex_digit(data[i / 2] / 16)
            } else {
                hex_digit(data[i / 2] % 16)
            },
    )
}

fn to_hex_digit(nibble: u8) -> (digit: u8)
    requires
        nibble < 16,
    ensures
        digit == hex_digit(nibble),
{
    if nibble < 10 {
        0x30 + nibble
    } else {
        0x57 + nibble
    }
}

/// Write `data` in lower-case hexadecimal.
pub fn to_hex_lower(data: &[u8]) -> (hex: Vec<u8>)
    ensures
        hex@ == hex_lower(data@),
{
    let mut hex: Vec<u8> = Vec::new();
    let mut i: usize = 0;
    while i < data.len()
        invariant
            i <= data@.len(),
            hex@ == hex_lower(data@.take(i as int)),
        decreases data@.len() - i,
    {
        let byte = data[i];
        hex.push(to_hex_digit(byte / 16));
        hex.push(to_hex_digit(byte % 16));
        i = i + 1;
        assert(hex@ =~= hex_lower(data@.take(i as int)));
    }
    assert(data@.take(data@.len() as int) =~= data@);
    hex
}

} // verus!
