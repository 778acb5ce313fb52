//! SHA-256 checksums of downloaded files, and how a computed checksum is
//! held against the one that the manifest declares.

use crate::text::digit_char;
use vstd::prelude::*;

verus! {

/// A running SHA-256 computation.
///
/// Trusted: holds a `sha2::Sha256`, of which Verus sees nothing.
#[verifier::external_body]
#[derive(Debug)]
pub struct Checksum {
    inner: sha2::Sha256,
}

/// The bytes that a running computation has taken in so far, in order.
pub uninterp spec fn absorbed(c: Checksum) -> Seq<u8>;

/// The SHA-256 digest of a sequence of bytes.
pub uninterp spec fn sha256(data: Seq<u8>) -> Seq<u8>;

/// The lowercase hexadecimal digit for `n`, for `n` below sixteen.
pub open spec fn hex_digit(n: nat) -> char {
    if n < 10 {
        digit_char(n)
    } else if n == 10 {
        'a'
    } else if n == 11 {
        'b'
    } else if n == 12 {
        'c'
    } else if n == 13 {
        'd'
    } else if n == 14 {
        'e'
    } else {
        'f'
    }
}

/// The bytes in lowercase hexadecimal: two digits for each byte, the high
/// half first.
pub open spec fn hex_lower(data: Seq<u8>) -> Seq<char>
    decreases data.len(),
{
    if data.len() == 0 {
        seq![]
    } else {
        hex_lower(data.drop_last()).push(hex_digit((data.last() / 16) as nat)).push(
            hex_digit((data.last() % 16) as nat),
        )
    }
}

/// A computation that has taken in nothing.
///
/// Trusted: `Digest::new` of `sha2::Sha256`, which gives a hasher in its
/// initial state.
#[verifier::external_body]
pub(crate) fn checksum_new() -> (c: Checksum)
    ensures
        absorbed(c) == Seq::<u8>::empty(),
{
    Checksum { inner: sha2::Digest::new() }
}

/// Takes in more bytes.
///
/// Trusted: `Digest::update` of `sha2::Sha256`, which processes the data
/// after what was processed before.
#[verifier::external_body]
pub(crate) fn checksum_update(c: &mut Checksum, data: &[u8])
    ensures
        absorbed(*final(c)) == absorbed(*old(c)) + data@,
{
    sha2::Digest::update(&mut c.inner, data)
}

/// The digest of what was taken in.
///
/// Trusted: `Digest::finalize` of `sha2::Sha256`, which gives the SHA-256
/// digest, 32 bytes, of all the data processed.
#[verifier::external_body]
pub(crate) fn checksum_finish(c: Checksum) -> (digest: Vec<u8>)
    ensures
        digest@ == sha256(absorbed(c)),
        digest@.len() == 32,
{
    sha2::Digest::finalize(c.inner).to_vec()
}

/// The bytes in lowercase hexadecimal.
///
/// Trusted: `hex::encode`, which writes each byte as two lowercase
/// hexadecimal digits, the high half first.
#[verifier::external_body]
pub(crate) fn hex_encode(data: &[u8]) -> (s: String)
    ensures
        s@ == hex_lower(data@),
{
    hex::encode(data)
}

/// The SHA-256 digest of `data`, in lowercase hexadecimal.
pub fn sha256_hex(data: &[u8]) -> (s: String)
    ensures
        s@ == hex_lower(sha256(data@)),
{
    let mut c = checksum_new();
    checksum_update(&mut c, data);
    assert(Seq::<u8>::empty() + data@ =~= data@);
    let digest = checksum_finish(c);
    hex_encode(digest.as_slice())
}

} // verus!
