//! From PEM and DER documents to the DER of a key with its algorithm.
use crate::error::{KeyFault, KeyFormatError};
use crate::rsapss::detect::detected;
use crate::rsapss::pkcs8::key_info;
use crate::rsapss::RsaPssJwsAlgorithm;
use crate::text::same_text;
use vstd::prelude::*;
use vstd::slice::slice_to_vec;

verus! {

/// The DER of a key with its algorithm, or why a document gives none, in mathematical terms.
pub open spec fn as_key_der(der: Result<Vec<u8>, KeyFormatError>) -> Result<Seq<u8>, KeyFault> {
    match der {
        Ok(der) => Ok(der@),
        Err(error) => Err(error@),
    }
}

/// The key with its algorithm that a DER document gives: the document itself, or the bare key that
/// it is with the algorithm around it.
pub open spec fn der_key(
    algorithm: RsaPssJwsAlgorithm,
    input: Seq<u8>,
    is_public: bool,
) -> Result<Seq<u8>, KeyFault> {
    match detected(algorithm, input, is_public) {
        Ok(true) => Ok(input),
        Ok(false) => Ok(key_info(algorithm, input, is_public)),
        Err(fault) => Err(fault),
    }
}

/// Whether a label says that the contents are a key with its algorithm.
pub open spec fn is_key_info_label(label: Seq<char>, is_public: bool) -> bool {
    if is_public {
        label == "PUBLIC KEY"@ || label == "RSA-PSS PUBLIC KEY"@
    } else {
        label == "PRIVATE KEY"@ || label == "RSA-PSS PRIVATE KEY"@
    }
}

/// Whether a label says that the contents are a bare key.
pub open spec fn is_bare_key_label(label: Seq<char>, is_public: bool) -> bool {
    if is_public {
        label == "RSA PUBLIC KEY"@
    } else {
        label == "RSA PRIVATE KEY"@
    }
}

/// The key with its algorithm that the label and the data of a PEM document give.
pub open spec fn labelled_key(
    algorithm: RsaPssJwsAlgorithm,
    label: Seq<char>,
    data: Seq<u8>,
    is_public: bool,
) -> Result<Seq<u8>, KeyFault> {
    if is_key_info_label(label, is_public) {
        match detected(algorithm, data, is_public) {
            Ok(true) => Ok(data),
            Ok(false) => Err(KeyFault::InvalidPemContents),
            Err(fault) => Err(fault),
        }
    } else if is_bare_key_label(label, is_public) {
        Ok(key_info(algorithm, data, is_public))
    } else {
        Err(KeyFault::InappropriateAlgorithm(label))
    }
}

/// The key with its algorithm that a PEM document with the given contents gives.
pub open spec fn pem_key(
    algorithm: RsaPssJwsAlgorithm,
    contents: Result<(Seq<char>, Seq<u8>), KeyFault>,
    is_public: bool,
) -> Result<Seq<u8>, KeyFault> {
    match contents {
        Ok((label, data)) => labelled_key(algorithm, label, data, is_public),
        Err(fault) => Err(fault),
    }
}

fn has_key_info_label(label: &str, is_public: bool) -> (has: bool)
    ensures
        has == is_key_info_label(label@, is_public),
{
    if is_public {
        same_text(label, "PUBLIC KEY") || same_text(label, "RSA-PSS PUBLIC KEY")
    } else {
        same_text(label, "PRIVATE KEY") || same_text(label, "RSA-PSS PRIVATE KEY")
    }
}

fn has_bare_key_label(label: &str, is_public: bool) -> (has: bool)
    ensures
        has == is_bare_key_label(label@, is_public),
{
    if is_public {
        same_text(label, "RSA PUBLIC KEY")
    } else {
        same_text(label, "RSA PRIVATE KEY")
    }
}

impl RsaPssJwsAlgorithm {
    /// The DER of the key with its algorithm that a DER document gives.
    pub fn key_from_der(&self, input: &[u8], is_public: bool) -> (der: Result<
        Vec<u8>,
        KeyFormatError,
    >)
        ensures
            as_key_der(der) == der_key(*self, input@, is_public),
    {
        match self.detect_pkcs8(input, is_public) {
            Ok(true) => Ok(slice_to_vec(input)),
            Ok(false) => Ok(self.to_pkcs8(input, is_public)),
            Err(error) => Err(error),
        }
    }

    /// The DER of the key with its algorithm that the label and the data of a PEM document give.
    pub fn key_from_pem_contents(&self, label: &str, data: &[u8], is_public: bool) -> (der: Result<
        Vec<u8>,
        KeyFormatError,
    >)
        ensures
            as_key_der(der) == labelled_key(*self, label@, data@, is_public),
    {
        if has_key_info_label(label, is_public) {
            match self.detect_pkcs8(data, is_public) {
                Ok(true) => Ok(slice_to_vec(data)),
                Ok(false) => Err(KeyFormatError::InvalidPemContents),
                Err(error) => Err(error),
            }
        } else if has_bare_key_label(label, is_public) {
            Ok(self.to_pkcs8(data, is_public))
        } else {
            Err(KeyFormatError::InappropriateAlgorithm(label.to_owned()))
        }
    }
}

} // verus!
