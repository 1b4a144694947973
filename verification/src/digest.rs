//! SHA-1 digests of downloaded data, computed by `sha1_smol`.
use vstd::prelude::*;

verus! {

/// The SHA-1 digest of a byte sequence, written as lower-case hexadecimal.
pub uninterp spec fn sha1_hex(data: Seq<u8>) -> Seq<char>;

/// A lower-case hexadecimal digit.
pub open spec fn is_lower_hex(c: char) -> bool {
    (48 <= (c as u32) <= 57) || (97 <= (c as u32) <= 102)
}

/// `sha1_smol::Sha1::from(data).digest().to_string()`: the digest of `data`;
/// the crate's `Display` writes each of the five 32-bit state words with
/// `{:08x}`, so the text is forty lower-case hexadecimal digits.
#[verifier::external_body]
fn sha1_digest_hex(data: &[u8]) -> (r: String)
    ensures
        r@ == sha1_hex(data@),
        r@.len() == 40,
        forall|i: int| 0 <= i < r@.len() ==> is_lower_hex(#[trigger] r@[i]),
{
    sha1_smol::Sha1::from(data).digest().to_string()
}

/// The SHA-1 digest of `data` in lower-case hexadecimal.
pub fn sha1_bytes(data: &[u8]) -> (r: String)
    ensures
        r@ == sha1_hex(data@),
        r@.len() == 40,
        forall|i: int| 0 <= i < r@.len() ==> is_lower_hex(#[trigger] r@[i]),
{
    sha1_digest_hex(data)
}

} // verus!
