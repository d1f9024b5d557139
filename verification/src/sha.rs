//! SHA-1, computed by the `sha1` crate.

use sha1::{Digest, Sha1};
use vstd::prelude::*;

verus! {

/// The SHA-1 digest of a byte string.
pub uninterp spec fn sha1(data: Seq<u8>) -> [u8; 20];

/// Calls `sha1::Sha1::digest`. It is taken on trust that the crate computes
/// SHA-1, a function of the bytes alone: the result is the digest named `sha1`.
#[verifier::external_body]
pub(crate) fn sha1_digest(data: &[u8]) -> (digest: [u8; 20])
    ensures
        digest == sha1(data@),
{
    Sha1::digest(data).into()
}

} // verus!
