//! The integrity digest of a part and its transmission encoding, obtained
//! from outside crates and treated as pure functions of the input bytes.

use vstd::prelude::*;

verus! {

/// The digest of a byte sequence.  It is a fixed-size value determined by the
/// bytes alone; nothing else about it is assumed.
pub uninterp spec fn md5_of(bytes: Seq<u8>) -> Seq<u8>;

/// Relies on md5::compute: the digest is a function of the input bytes alone,
/// and is always 16 bytes long (its result type is a 16-byte array).
#[verifier::external_body]
pub(crate) fn compute_md5(bytes: &Vec<u8>) -> (r: Vec<u8>)
    ensures
        r@ == md5_of(bytes@),
        r@.len() == 16,
{
    md5::compute(bytes.as_slice()).0.to_vec()
}

/// The base64 rendering of a byte sequence, as sent in the upload request's
/// digest header.  It is determined by the bytes alone.
pub uninterp spec fn base64_of(bytes: Seq<u8>) -> Seq<char>;

/// Relies on base64::encode: standard-alphabet encoding, a function of the
/// input bytes alone.
#[verifier::external_body]
pub(crate) fn encode_base64(bytes: &Vec<u8>) -> (r: String)
    ensures
        r@ == base64_of(bytes@),
{
    base64::encode(bytes.as_slice())
}

} // verus!
