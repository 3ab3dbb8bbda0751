//! Keys that OpenSSL has read.
use crate::crypto::{
    digest_nid, private_key_readable, private_key_size, public_key_readable, public_key_size,
};
use crate::error::{Fault, KeyFault, KeyFormatError};
use crate::rsapss::RsaPssJwsAlgorithm;
use openssl::error::ErrorStack;
use openssl::hash::MessageDigest;
use vstd::prelude::*;

verus! {

/// What a signer or a verifier holds.
pub struct KeyModel {
    /// The algorithm.
    pub algorithm: RsaPssJwsAlgorithm,
    /// The DER of the key with its algorithm.
    pub der: Seq<u8>,
    /// The identifier of the key.
    pub key_id: Option<Seq<char>>,
}

/// Whether a modulus of that many octets is long enough, where the size can be had at all.
pub open spec fn size_suits(size: Option<u32>) -> Result<(), KeyFault> {
    match size {
        None => Err(KeyFault::OpenSsl),
        Some(octets) => if octets * 8 < 2048 {
            Err(KeyFault::KeyTooShort)
        } else {
            Ok(())
        },
    }
}

/// The size of a modulus in mathematical terms.
pub open spec fn as_size(size: Result<u32, ErrorStack>) -> Option<u32> {
    match size {
        Ok(octets) => Some(octets),
        Err(_) => None,
    }
}

/// Whether OpenSSL reads a private key from DER and it is long enough.
pub open spec fn private_key_suits(der: Seq<u8>) -> Result<(), KeyFault> {
    if private_key_readable(der) {
        size_suits(private_key_size(der))
    } else {
        Err(KeyFault::OpenSsl)
    }
}

/// Whether OpenSSL reads a public key from DER and it is long enough.
pub open spec fn public_key_suits(der: Seq<u8>) -> Result<(), KeyFault> {
    if public_key_readable(der) {
        size_suits(public_key_size(der))
    } else {
        Err(KeyFault::OpenSsl)
    }
}

/// What making a signer or a verifier comes to, from what a document gives and from whether the key
/// suits.
pub open spec fn made_key(
    algorithm: RsaPssJwsAlgorithm,
    der: Result<Seq<u8>, KeyFault>,
    suits: spec_fn(Seq<u8>) -> Result<(), KeyFault>,
    key_id: Option<Seq<char>>,
) -> Result<KeyModel, Fault> {
    match der {
        Ok(der) => match suits(der) {
            Ok(()) => Ok(KeyModel { algorithm, der, key_id }),
            Err(fault) => Err(Fault::InvalidKeyFormat(fault)),
        },
        Err(fault) => Err(Fault::InvalidKeyFormat(fault)),
    }
}

/// The part of a message that is fed in next after the first `at` octets: 1024 octets, or what is
/// left.
pub open spec fn chunk(message: Seq<u8>, at: int) -> Seq<u8> {
    if at + 1024 <= message.len() {
        message.subrange(at, at + 1024)
    } else {
        message.skip(at)
    }
}

/// The end of the part of a message that is fed in next.
pub(crate) fn chunk_end(message: &[u8], at: usize) -> (end: usize)
    requires
        at < message@.len(),
    ensures
        at < end <= message@.len(),
        end == at + 1024 || end == message@.len(),
        message@.subrange(at as int, end as int) == chunk(message@, at as int),
        message@.take(end as int) == message@.take(at as int) + chunk(message@, at as int),
{
    let end = if message.len() - at < 1024 {
        message.len()
    } else {
        at + 1024
    };
    proof {
        assert(message@.subrange(at as int, end as int) == chunk(message@, at as int));
        assert(message@.take(end as int) == message@.take(at as int) + chunk(message@, at as int));
    }
    end
}

impl RsaPssJwsAlgorithm {
    /// Checks that the modulus of a key, whose size in octets is given where it can be had, has at
    /// least 2048 bits.
    pub fn check_key(&self, size: Result<u32, ErrorStack>) -> (outcome: Result<(), KeyFormatError>)
        ensures
            match outcome {
                Ok(()) => size_suits(as_size(size)) is Ok,
                Err(error) => size_suits(as_size(size)) == Err::<(), KeyFault>(error@),
            },
            size matches Err(error) ==> outcome == Err::<(), KeyFormatError>(
                KeyFormatError::OpenSsl(error),
            ),
    {
        match size {
            Err(error) => Err(KeyFormatError::OpenSsl(error)),
            Ok(octets) => if octets < 256 {
                Err(KeyFormatError::KeyTooShort)
            } else {
                Ok(())
            },
        }
    }

    /// The digest.
    pub(crate) fn message_digest(&self) -> (digest: MessageDigest)
        ensures
            digest_nid(digest) == self.nid(),
    {
        match self {
            RsaPssJwsAlgorithm::PS256 => MessageDigest::sha256(),
            RsaPssJwsAlgorithm::PS384 => MessageDigest::sha384(),
            RsaPssJwsAlgorithm::PS512 => MessageDigest::sha512(),
        }
    }
}

} // verus!
