//! Base64 text, as the `base64` crate reads and writes it with its standard
//! alphabet and padding.

use vstd::prelude::*;

verus! {

/// The bytes that base64 text stands for, or nothing where the text is not
/// base64.
pub uninterp spec fn base64_decoded(text: Seq<char>) -> Option<Seq<u8>>;

/// The base64 text of the bytes of a string.
pub uninterp spec fn base64_encoded(text: Seq<char>) -> Seq<char>;

/// `base64::DecodeError`, held as a value that is not looked into.
#[verifier::external_type_specification]
#[verifier::external_body]
pub struct ExDecodeError(base64::DecodeError);

/// `base64::decode` on a string. Trusted: its outcome depends on the text
/// alone.
#[verifier::external_body]
#[allow(deprecated)]
fn decode(text: &str) -> (r: Result<Vec<u8>, base64::DecodeError>)
    ensures
        match r {
            Ok(bytes) => base64_decoded(text@) == Some(bytes@),
            Err(_) => base64_decoded(text@) is None,
        },
{
    base64::decode(text)
}

/// `base64::encode` on a string. Trusted: its result depends on the text
/// alone.
#[verifier::external_body]
#[allow(deprecated)]
fn encode(text: &str) -> (s: String)
    ensures
        s@ == base64_encoded(text@),
{
    base64::encode(text)
}

/// The bytes of base64 text, or nothing where the text is not base64.
pub fn base64_to_bytes(text: &str) -> (r: Option<Vec<u8>>)
    ensures
        match r {
            Some(bytes) => base64_decoded(text@) == Some(bytes@),
            None => base64_decoded(text@) is None,
        },
{
    match decode(text) {
        Ok(bytes) => Some(bytes),
        Err(_) => None,
    }
}

/// The base64 text of the bytes of a string.
pub fn text_to_base64(text: &str) -> (s: String)
    ensures
        s@ == base64_encoded(text@),
{
    encode(text)
}

} // verus!
