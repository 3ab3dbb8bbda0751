//! The mathematical terms in which contracts speak of values leave nothing of them out but what
//! Base64 and OpenSSL report.
use crate::error::{
    Fault, JoseError, KeyFault, KeyFormatError, SignatureError, SignatureFault,
};
use crate::jwk::{optional_text, JwkValue};
use crate::rsapss::detect::as_detected;
use crate::rsapss::import::as_key_der;
use crate::rsapss::keys::{as_size, KeyModel};
use crate::rsapss::signing::{as_signer, RsaPssJwsSigner};
use crate::rsapss::verifying::{as_answer, as_verifier, RsaPssJwsVerifier};
use openssl::error::ErrorStack;
use vstd::prelude::*;

verus! {

/// Outcomes keep whether they are successes, and what they hold.
pub proof fn law_outcomes_keep_what_they_hold(
    signer: RsaPssJwsSigner,
    verifier: RsaPssJwsVerifier,
    der: Vec<u8>,
    found: bool,
    octets: u32,
    text: String,
)
    ensures
        as_signer(Ok(signer)) == Ok::<KeyModel, Fault>(signer@),
        as_verifier(Ok(verifier)) == Ok::<KeyModel, Fault>(verifier@),
        as_key_der(Ok(der)) == Ok::<Seq<u8>, KeyFault>(der@),
        as_detected(Ok(found)) == Ok::<bool, KeyFault>(found),
        as_answer(Ok(())) == Ok::<(), Fault>(()),
        as_size(Ok(octets)) == Some(octets),
        optional_text(Some(text)) == Some(text@),
        optional_text(None) is None,
        JwkValue::Text(text)@ == Some(text@),
        JwkValue::Other@ is None,
{
}

/// Outcomes that are errors keep them.
pub proof fn law_outcomes_keep_errors(
    error: JoseError,
    key_error: KeyFormatError,
    outside: ErrorStack,
)
    ensures
        as_signer(Err(error)) == Err::<KeyModel, Fault>(error@),
        as_verifier(Err(error)) == Err::<KeyModel, Fault>(error@),
        as_answer(Err(error)) == Err::<(), Fault>(error@),
        as_key_der(Err(key_error)) == Err::<Seq<u8>, KeyFault>(key_error@),
        as_detected(Err(key_error)) == Err::<bool, KeyFault>(key_error@),
        as_size(Err(outside)) is None,
        JoseError::InvalidKeyFormat(key_error)@ == Fault::InvalidKeyFormat(key_error@),
{
}

/// Errors of one kind are faults of that kind, with the same things in them.
pub proof fn law_errors_keep_what_they_say(error: KeyFormatError, signature_error: SignatureError)
    ensures
        match error {
            KeyFormatError::UnrecognizedVersion(n) => error@ == KeyFault::UnrecognizedVersion(n),
            KeyFormatError::IncompatibleOid(oid) => error@ == KeyFault::IncompatibleOid(oid@),
            KeyFormatError::IncompatibleSaltLength(n) => error@
                == KeyFault::IncompatibleSaltLength(n),
            KeyFormatError::InvalidPemFormat => error@ == KeyFault::InvalidPemFormat,
            KeyFormatError::MismatchedPemLabels => error@ == KeyFault::MismatchedPemLabels,
            KeyFormatError::InvalidPemContents => error@ == KeyFault::InvalidPemContents,
            KeyFormatError::InappropriateAlgorithm(text) => error@
                == KeyFault::InappropriateAlgorithm(text@),
            KeyFormatError::KeyTooShort => error@ == KeyFault::KeyTooShort,
            KeyFormatError::KeyTypeMismatch(text) => error@ == KeyFault::KeyTypeMismatch(text@),
            KeyFormatError::KeyUseMismatch(text) => error@ == KeyFault::KeyUseMismatch(text@),
            KeyFormatError::KeyOperationMissing(operation) => error@
                == KeyFault::KeyOperationMissing(operation),
            KeyFormatError::AlgorithmMismatch(algorithm, text) => error@
                == KeyFault::AlgorithmMismatch(algorithm, text@),
            KeyFormatError::ParameterNotString(text) => error@ == KeyFault::ParameterNotString(
                text@,
            ),
            KeyFormatError::ParameterMissing(text) => error@ == KeyFault::ParameterMissing(text@),
            KeyFormatError::Base64(_) => error@ == KeyFault::Base64,
            KeyFormatError::OpenSsl(_) => error@ == KeyFault::OpenSsl,
        },
        match signature_error {
            SignatureError::Mismatch => signature_error@ == SignatureFault::Mismatch,
            SignatureError::OpenSsl(_) => signature_error@ == SignatureFault::OpenSsl,
        },
        JoseError::InvalidSignature(signature_error)@ == Fault::InvalidSignature(
            signature_error@,
        ),
{
}

} // verus!
