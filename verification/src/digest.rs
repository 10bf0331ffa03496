use crate::strutil::{hex_of, to_hex};
use vstd::prelude::*;
use vstd::string::StrSliceExecFns;

verus! {

/// The SHA-256 digest of a byte string: a function of the bytes alone.
pub uninterp spec fn sha256_of(data: Seq<u8>) -> Seq<u8>;

/// Relies on `sha2::Sha256::digest`: the digest is a function of the input
/// bytes alone, and is 32 bytes long.
#[verifier::external_body]
fn sha256_digest(data: &[u8]) -> (r: Vec<u8>)
    ensures
        r@ == sha256_of(data@),
        r@.len() == 32,
{
    <sha2::Sha256 as sha2::Digest>::digest(data).to_vec()
}

/// The name of the cache directory a checkout of `url` lives under: the
/// lower-case hex encoding of the SHA-256 digest of the URL's bytes.
pub open spec fn spec_checkout_dir_name(url: Seq<char>) -> Seq<char> {
    hex_of(sha256_of(vstd::utf8::encode_utf8(url)))
}

/// The directory name keyed by a repository URL.
pub fn checkout_dir_name(url: &str) -> (r: String)
    ensures
        r@ == spec_checkout_dir_name(url@),
{
    let digest = sha256_digest(url.as_bytes());
    to_hex(&digest)
}

} // verus!
