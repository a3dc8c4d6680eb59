//! The MD5 digest, by way of the `md5` crate.

use vstd::prelude::*;

verus! {

/// The MD5 digest of `data`: sixteen bytes.
pub uninterp spec fn md5_digest(data: Seq<u8>) -> Seq<u8>;

/// Calls `md5::compute` and returns the sixteen bytes of its digest.
/// Trusted: the digest depends on `data` alone, which is all that the name
/// [`md5_digest`] claims.
#[verifier::external_body]
pub(crate) fn md5_of(data: &[u8]) -> (digest: [u8; 16])
    ensures
        digest@ == md5_digest(data@),
{
    md5::compute(data).0
}

} // verus!
