use vstd::prelude::*;

verus! {

/// Text form of the content identifier read from binary bytes, or `None`
/// where the bytes do not start with one.
pub uninterp spec fn cid_text_of_binary(b: Seq<u8>) -> Option<Seq<char>>;

/// Canonical binary form of the content identifier written as text, or
/// `None` where the text is none.
pub uninterp spec fn cid_binary_of_text(s: Seq<char>) -> Option<Seq<u8>>;

/// SHA3-256 digest of a byte string.
pub uninterp spec fn sha3_256_of(data: Seq<u8>) -> Seq<u8>;

#[verifier::external_type_specification]
#[verifier::external_body]
pub struct ExCidError(cid::Error);

/// Relies on `cid::Cid::try_from(&[u8])`, which reads a content identifier
/// from its binary form, and on its `to_string`, which writes its text form.
/// Both depend on the bytes alone.
#[verifier::external_body]
pub(crate) fn cid_text(b: &[u8]) -> (r: Result<String, cid::Error>)
    ensures
        r is Ok <==> cid_text_of_binary(b@) is Some,
        r is Ok ==> r->Ok_0@ == cid_text_of_binary(b@)->Some_0,
{
    match cid::Cid::try_from(b) {
        Ok(c) => Ok(c.to_string()),
        Err(e) => Err(e),
    }
}

/// Relies on `cid::Cid::try_from(&str)`, which parses the text form of a
/// content identifier, and on its `to_bytes`, which gives the canonical binary
/// form. Both depend on the text alone.
#[verifier::external_body]
pub(crate) fn cid_binary(s: &str) -> (r: Result<Vec<u8>, cid::Error>)
    ensures
        r is Ok <==> cid_binary_of_text(s@) is Some,
        r is Ok ==> r->Ok_0@ == cid_binary_of_text(s@)->Some_0,
{
    match cid::Cid::try_from(s) {
        Ok(c) => Ok(c.to_bytes()),
        Err(e) => Err(e),
    }
}

/// Relies on `sha3::Sha3_256::digest`: the 32-byte SHA3-256 digest of the data.
#[verifier::external_body]
pub(crate) fn sha3_256(data: &[u8]) -> (r: Vec<u8>)
    ensures
        r@ == sha3_256_of(data@),
        r@.len() == 32,
{
    <sha3::Sha3_256 as sha3::Digest>::digest(data).to_vec()
}

} // verus!
