//! The key under which the credits of a project are listed.

use ink::env::hash::Blake2x256;
use vstd::prelude::*;
use vstd::utf8::encode_utf8;

verus! {

/// The BLAKE2b digest of 32 bytes of `input`.
pub uninterp spec fn blake2x256_digest(input: Seq<u8>) -> Seq<u8>;

/// `ink::env::hash_bytes::<Blake2x256>`: the digest of the input, a function
/// of the input's bytes alone.
#[verifier::external_body]
pub(crate) fn blake2x256(input: &[u8]) -> (digest: [u8; 32])
    ensures
        digest@ == blake2x256_digest(input@),
{
    let mut output = [0u8; 32];
    ink::env::hash_bytes::<Blake2x256>(input, &mut output);
    output
}

/// The key of a project: the digest of its name in UTF-8.
pub open spec fn project_key(name: Seq<char>) -> Seq<u8> {
    blake2x256_digest(encode_utf8(name))
}

/// Computes the key of a project.
pub fn project_name_hash(name: &str) -> (key: [u8; 32])
    ensures
        key@ == project_key(name@),
        key@ == blake2x256_digest(encode_utf8(name@)),
{
    blake2x256(name.as_bytes())
}

} // verus!
