//! Errors.
use crate::der::oid::ObjectIdentifier;
use crate::rsapss::{KeyOperation, RsaPssJwsAlgorithm};
use base64::DecodeError;
use openssl::error::ErrorStack;
use vstd::prelude::*;

verus! {

/// Why a key cannot be used or a signature cannot be made or checked.
#[derive(Debug)]
pub enum JoseError {
    /// The key is not one that the algorithm can use.
    InvalidKeyFormat(KeyFormatError),
    /// A signature does not match, or could not be made or checked.
    InvalidSignature(SignatureError),
}

/// Why there is no signature, or none that is accepted.
#[derive(Debug)]
pub enum SignatureError {
    /// The signature does not match the message.
    Mismatch,
    /// OpenSSL failed to make or to check a signature.
    OpenSsl(ErrorStack),
}

/// Why a key is not one that an algorithm can use.
#[derive(Debug)]
pub enum KeyFormatError {
    /// The private key information is of another version.
    UnrecognizedVersion(u8),
    /// The key is for another algorithm, or for another digest.
    IncompatibleOid(ObjectIdentifier),
    /// The key is for salts of another length.
    IncompatibleSaltLength(u8),
    /// The text is no PEM document.
    InvalidPemFormat,
    /// The labels at the start and at the end of a PEM document differ.
    MismatchedPemLabels,
    /// The PEM document does not hold what its label says.
    InvalidPemContents,
    /// The label of the PEM document is for another kind of contents.
    InappropriateAlgorithm(String),
    /// The modulus has less than 2048 bits.
    KeyTooShort,
    /// The JWK is of another key type.
    KeyTypeMismatch(String),
    /// The JWK is for another use.
    KeyUseMismatch(String),
    /// The JWK is not for the operation.
    KeyOperationMissing(KeyOperation),
    /// The JWK is for another algorithm than this one.
    AlgorithmMismatch(RsaPssJwsAlgorithm, String),
    /// A parameter of the JWK is not a string.
    ParameterNotString(String),
    /// A parameter of the JWK is missing.
    ParameterMissing(String),
    /// A parameter of the JWK, or the body of a PEM document, is not Base64.
    Base64(DecodeError),
    /// OpenSSL does not read the key.
    OpenSsl(ErrorStack),
}

/// What a [`KeyFormatError`] says, in mathematical terms.
pub enum KeyFault {
    UnrecognizedVersion(u8),
    IncompatibleOid(Seq<u64>),
    IncompatibleSaltLength(u8),
    InvalidPemFormat,
    MismatchedPemLabels,
    InvalidPemContents,
    InappropriateAlgorithm(Seq<char>),
    KeyTooShort,
    KeyTypeMismatch(Seq<char>),
    KeyUseMismatch(Seq<char>),
    KeyOperationMissing(KeyOperation),
    AlgorithmMismatch(RsaPssJwsAlgorithm, Seq<char>),
    ParameterNotString(Seq<char>),
    ParameterMissing(Seq<char>),
    Base64,
    OpenSsl,
}

/// What a [`SignatureError`] says, in mathematical terms.
pub enum SignatureFault {
    Mismatch,
    OpenSsl,
}

/// What a [`JoseError`] says, in mathematical terms.
pub enum Fault {
    InvalidKeyFormat(KeyFault),
    InvalidSignature(SignatureFault),
}

impl View for SignatureError {
    type V = SignatureFault;

    open spec fn view(&self) -> SignatureFault {
        match *self {
            SignatureError::Mismatch => SignatureFault::Mismatch,
            SignatureError::OpenSsl(_) => SignatureFault::OpenSsl,
        }
    }
}

impl View for JoseError {
    type V = Fault;

    open spec fn view(&self) -> Fault {
        match *self {
            JoseError::InvalidKeyFormat(error) => Fault::InvalidKeyFormat(error@),
            JoseError::InvalidSignature(error) => Fault::InvalidSignature(error@),
        }
    }
}

impl View for KeyFormatError {
    type V = KeyFault;

    open spec fn view(&self) -> KeyFault {
        match *self {
            KeyFormatError::UnrecognizedVersion(version) => KeyFault::UnrecognizedVersion(version),
            KeyFormatError::IncompatibleOid(oid) => KeyFault::IncompatibleOid(oid@),
            KeyFormatError::IncompatibleSaltLength(n) => KeyFault::IncompatibleSaltLength(n),
            KeyFormatError::InvalidPemFormat => KeyFault::InvalidPemFormat,
            KeyFormatError::MismatchedPemLabels => KeyFault::MismatchedPemLabels,
            KeyFormatError::InvalidPemContents => KeyFault::InvalidPemContents,
            KeyFormatError::InappropriateAlgorithm(label) => KeyFault::InappropriateAlgorithm(
                label@,
            ),
            KeyFormatError::KeyTooShort => KeyFault::KeyTooShort,
            KeyFormatError::KeyTypeMismatch(text) => KeyFault::KeyTypeMismatch(text@),
            KeyFormatError::KeyUseMismatch(text) => KeyFault::KeyUseMismatch(text@),
            KeyFormatError::KeyOperationMissing(operation) => KeyFault::KeyOperationMissing(
                operation,
            ),
            KeyFormatError::AlgorithmMismatch(algorithm, text) => KeyFault::AlgorithmMismatch(
                algorithm,
                text@,
            ),
            KeyFormatError::ParameterNotString(name) => KeyFault::ParameterNotString(name@),
            KeyFormatError::ParameterMissing(name) => KeyFault::ParameterMissing(name@),
            KeyFormatError::Base64(_) => KeyFault::Base64,
            KeyFormatError::OpenSsl(_) => KeyFault::OpenSsl,
        }
    }
}

} // verus!
