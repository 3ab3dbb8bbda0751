//! Base64.
use base64::DecodeError;
use vstd::prelude::*;
use vstd::string::StringSliceAdditionalSpecFns;

verus! {

/// `base64::DecodeError`: why octets are no Base64.
#[verifier::external_type_specification]
#[verifier::external_body]
pub struct ExDecodeError(DecodeError);

/// What `base64::decode_config` makes of octets in the standard alphabet, where it makes anything
/// of them.
pub uninterp spec fn standard_decoded(octets: Seq<u8>) -> Option<Seq<u8>>;

/// What `base64::decode_config` makes of text in the URL-safe alphabet, where it makes anything of
/// it.
pub uninterp spec fn url_safe_decoded(text: Seq<char>) -> Option<Seq<u8>>;

/// Calls `base64::decode_config` with `base64::STANDARD`. Its outcome is one that the octets alone
/// determine. It computes four times their number, which must not overflow.
#[verifier::external_body]
pub(crate) fn decode_standard(octets: &[u8]) -> (decoded: Result<Vec<u8>, DecodeError>)
    requires
        octets@.len() * 4 <= usize::MAX,
    ensures
        match decoded {
            Ok(data) => standard_decoded(octets@) == Some(data@),
            Err(_) => standard_decoded(octets@) is None,
        },
{
    base64::decode_config(octets, base64::STANDARD)
}

/// Calls `base64::decode_config` with `base64::URL_SAFE_NO_PAD`. Its outcome is one that the text
/// alone determines. It computes four times the number of octets, which must not overflow.
#[verifier::external_body]
pub(crate) fn decode_url_safe(text: &str) -> (decoded: Result<Vec<u8>, DecodeError>)
    requires
        text.spec_bytes().len() * 4 <= usize::MAX,
    ensures
        match decoded {
            Ok(data) => url_safe_decoded(text@) == Some(data@),
            Err(_) => url_safe_decoded(text@) is None,
        },
{
    base64::decode_config(text, base64::URL_SAFE_NO_PAD)
}

} // verus!
