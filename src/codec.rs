use vstd::prelude::*;

verus! {

/// What `BASE32` (RFC 4648, padded) decoding makes of a text: the bytes, or
/// `None` where the text is not valid base32.
pub uninterp spec fn base32_decoding(text: Seq<u8>) -> Option<Seq<u8>>;

/// What `BASE64` (RFC 4648, padded) decoding makes of a text.
pub uninterp spec fn base64_decoding(text: Seq<u8>) -> Option<Seq<u8>>;

/// The padded `BASE32` text of a byte string.
pub uninterp spec fn base32_encoding(bytes: Seq<u8>) -> Seq<char>;

/// The padded `BASE64` text of a byte string.
pub uninterp spec fn base64_encoding(bytes: Seq<u8>) -> Seq<char>;

/// A byte of the padded base32 alphabet: `A` to `Z`, `2` to `7`, or `=`.
pub open spec fn base32_symbol(b: u8) -> bool {
    (65 <= b && b <= 90) || (50 <= b && b <= 55) || b == 61
}

/// Relies on `data_encoding::BASE32.decode`: it returns the decoded bytes or
/// an error, and a byte outside the alphabet and the padding is an error.
#[verifier::external_body]
pub(crate) fn decode_base32(text: &[u8]) -> (r: Option<Vec<u8>>)
    ensures
        r matches Some(v) ==> base32_decoding(text@) == Some(v@),
        r is None ==> base32_decoding(text@) is None,
        (exists|i: int| 0 <= i < text@.len() && !base32_symbol(#[trigger] text@[i])) ==> r is None,
{
    data_encoding::BASE32.decode(text).ok()
}

/// Relies on `data_encoding::BASE64.decode`: the decoded bytes, or an error.
#[verifier::external_body]
pub(crate) fn decode_base64(text: &[u8]) -> (r: Option<Vec<u8>>)
    ensures
        r matches Some(v) ==> base64_decoding(text@) == Some(v@),
        r is None ==> base64_decoding(text@) is None,
{
    data_encoding::BASE64.decode(text).ok()
}

/// Relies on `data_encoding::BASE32.encode`: the padded base32 text.
#[verifier::external_body]
pub(crate) fn encode_base32(bytes: &[u8]) -> (r: String)
    ensures
        r@ == base32_encoding(bytes@),
{
    data_encoding::BASE32.encode(bytes)
}

/// Relies on `data_encoding::BASE64.encode`: the padded base64 text.
#[verifier::external_body]
pub(crate) fn encode_base64(bytes: &[u8]) -> (r: String)
    ensures
        r@ == base64_encoding(bytes@),
{
    data_encoding::BASE64.encode(bytes)
}

} // verus!
