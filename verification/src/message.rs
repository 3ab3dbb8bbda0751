//! Errors in words.
use crate::error::{KeyFault, KeyFormatError, SignatureError, SignatureFault};
use crate::text::{decimal, dotted, push_decimal};
use vstd::prelude::*;
use vstd::string::StringExecFns;

verus! {

/// What a fault is in words, where they are this library's own: of what Base64 and OpenSSL report
/// they are not.
pub open spec fn words(fault: KeyFault) -> Option<Seq<char>> {
    match fault {
        KeyFault::UnrecognizedVersion(version) => Some(
            "Unrecognized version: "@ + decimal(version as nat),
        ),
        KeyFault::IncompatibleOid(arcs) => Some("Incompatible oid: "@ + dotted(arcs)),
        KeyFault::IncompatibleSaltLength(octets) => Some(
            "Incompatible salt length: "@ + decimal(octets as nat),
        ),
        KeyFault::InvalidPemFormat => Some("Invalid PEM format."@),
        KeyFault::MismatchedPemLabels => Some("Mismatched the beginning and ending label."@),
        KeyFault::InvalidPemContents => Some("Invalid PEM contents."@),
        KeyFault::InappropriateAlgorithm(label) => Some("Inappropriate algorithm: "@ + label),
        KeyFault::KeyTooShort => Some("key length must be 2048 or more."@),
        KeyFault::KeyTypeMismatch(text) => Some("A parameter kty must be RSA: "@ + text),
        KeyFault::KeyUseMismatch(text) => Some("A parameter use must be sig: "@ + text),
        KeyFault::KeyOperationMissing(operation) => Some(
            "A parameter key_ops must contains "@ + operation.name_text() + "."@,
        ),
        KeyFault::AlgorithmMismatch(algorithm, text) => Some(
            "A parameter alg must be "@ + algorithm.name_text() + " but "@ + text,
        ),
        KeyFault::ParameterNotString(name) => Some(
            "A parameter "@ + name + " must be a string."@,
        ),
        KeyFault::ParameterMissing(name) => Some("A parameter "@ + name + " is required."@),
        KeyFault::Base64 => None,
        KeyFault::OpenSsl => None,
    }
}

/// What a fault of a signature is in words, where they are this library's own.
pub open spec fn signature_words(fault: SignatureFault) -> Option<Seq<char>> {
    match fault {
        SignatureFault::Mismatch => Some("The signature does not match."@),
        SignatureFault::OpenSsl => None,
    }
}

impl SignatureError {
    /// The error in words, where they are this library's own.
    pub fn message(&self) -> (message: Option<String>)
        ensures
            match message {
                Some(message) => signature_words(self@) == Some(message@),
                None => signature_words(self@) is None,
            },
    {
        match self {
            SignatureError::Mismatch => Some("The signature does not match.".to_owned()),
            SignatureError::OpenSsl(_) => None,
        }
    }
}

impl KeyFormatError {
    /// The error in words, where they are this library's own.
    pub fn message(&self) -> (message: Option<String>)
        ensures
            match message {
                Some(message) => words(self@) == Some(message@),
                None => words(self@) is None,
            },
    {
        let message = match self {
            KeyFormatError::UnrecognizedVersion(version) => {
                let mut message = "Unrecognized version: ".to_owned();
                push_decimal(&mut message, *version as u64);
                message
            },
            KeyFormatError::IncompatibleOid(oid) => "Incompatible oid: ".to_owned().concat(
                oid.to_text().as_str(),
            ),
            KeyFormatError::IncompatibleSaltLength(octets) => {
                let mut message = "Incompatible salt length: ".to_owned();
                push_decimal(&mut message, *octets as u64);
                message
            },
            KeyFormatError::InvalidPemFormat => "Invalid PEM format.".to_owned(),
            KeyFormatError::MismatchedPemLabels => {
                "Mismatched the beginning and ending label.".to_owned()
            },
            KeyFormatError::InvalidPemContents => "Invalid PEM contents.".to_owned(),
            KeyFormatError::InappropriateAlgorithm(label) => {
                "Inappropriate algorithm: ".to_owned().concat(label.as_str())
            },
            KeyFormatError::KeyTooShort => "key length must be 2048 or more.".to_owned(),
            KeyFormatError::KeyTypeMismatch(text) => {
                "A parameter kty must be RSA: ".to_owned().concat(text.as_str())
            },
            KeyFormatError::KeyUseMismatch(text) => {
                "A parameter use must be sig: ".to_owned().concat(text.as_str())
            },
            KeyFormatError::KeyOperationMissing(operation) => {
                "A parameter key_ops must contains ".to_owned().concat(operation.name()).concat(".")
            },
            KeyFormatError::AlgorithmMismatch(algorithm, text) => {
                "A parameter alg must be ".to_owned().concat(algorithm.name()).concat(
                    " but ",
                ).concat(text.as_str())
            },
            KeyFormatError::ParameterNotString(name) => {
                "A parameter ".to_owned().concat(name.as_str()).concat(" must be a string.")
            },
            KeyFormatError::ParameterMissing(name) => {
                "A parameter ".to_owned().concat(name.as_str()).concat(" is required.")
            },
            KeyFormatError::Base64(_) => {
                return None;
            },
            KeyFormatError::OpenSsl(_) => {
                return None;
            },
        };
        Some(message)
    }
}

} // verus!
