//! The two hash functions of the router's login handshake.
use vstd::prelude::*;

verus! {

/// The MD5 digest of `data`, as the `md5` crate computes it.
pub uninterp spec fn md5_of(data: Seq<u8>) -> Seq<u8>;

/// The SHA-256 digest of `data`, as the `sha2` crate computes it.
pub uninterp spec fn sha256_of(data: Seq<u8>) -> Seq<u8>;

/// `md5::compute`: the MD5 digest of `data`, its 16 bytes in order. The
/// contract names the digest and states its length, which the crate's
/// `Digest([u8; 16])` fixes; it says nothing of the algorithm itself.
#[verifier::external_body]
pub(crate) fn md5_digest(data: &[u8]) -> (res: Vec<u8>)
    ensures
        res@ == md5_of(data@),
        res@.len() == 16,
{
    md5::compute(data).0.to_vec()
}

/// `<sha2::Sha256 as Digest>::digest`: the SHA-256 digest of `data`, its 32
/// bytes in order. The contract names the digest and states its length,
/// which the crate's output size `U32` fixes; it says nothing of the
/// algorithm itself.
#[verifier::external_body]
pub(crate) fn sha256_digest(data: &[u8]) -> (res: Vec<u8>)
    ensures
        res@ == sha256_of(data@),
        res@.len() == 32,
{
    <sha2::Sha256 as sha2::Digest>::digest(data).to_vec()
}

} // verus!
