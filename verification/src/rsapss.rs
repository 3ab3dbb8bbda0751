//! The algorithms PS256, PS384 and PS512.
pub mod detect;
pub mod import;
pub mod jwk_key;
pub mod keys;
pub mod pkcs1;
pub mod pkcs8;
pub mod signing;
pub mod verifying;

use crate::der::oid::{valid_arcs, ObjectIdentifier};
use vstd::prelude::*;

verus! {

/// RSASSA-PSS with one of the SHA-2 digests, also as the digest of MGF1.
#[derive(Debug, Clone, Copy, PartialEq, Eq, Structural)]
pub enum RsaPssJwsAlgorithm {
    /// RSASSA-PSS using SHA-256 and MGF1 with SHA-256
    PS256,
    /// RSASSA-PSS using SHA-384 and MGF1 with SHA-384
    PS384,
    /// RSASSA-PSS using SHA-512 and MGF1 with SHA-512
    PS512,
}

/// What a key is used for.
#[derive(Debug, Clone, Copy, PartialEq, Eq, Structural)]
pub enum KeyOperation {
    /// To make signatures.
    Sign,
    /// To check signatures.
    Verify,
}

impl KeyOperation {
    /// The name of the operation in text.
    pub open spec fn name_text(self) -> Seq<char> {
        match self {
            KeyOperation::Sign => "sign"@,
            KeyOperation::Verify => "verify"@,
        }
    }

    /// The name of the operation, as the parameter `key_ops` has it.
    pub fn name(&self) -> (name: &str)
        ensures
            name@ == self.name_text(),
    {
        match self {
            KeyOperation::Sign => "sign",
            KeyOperation::Verify => "verify",
        }
    }
}

/// The arcs of id-RSASSA-PSS.
pub open spec fn rsassa_pss_arcs() -> Seq<u64> {
    seq![1u64, 2, 840, 113549, 1, 1, 10]
}

/// The arcs of id-mgf1.
pub open spec fn mgf1_arcs() -> Seq<u64> {
    seq![1u64, 2, 840, 113549, 1, 1, 8]
}

impl RsaPssJwsAlgorithm {
    /// The arcs of the object identifier of the digest.
    pub open spec fn digest_arcs(self) -> Seq<u64> {
        match self {
            RsaPssJwsAlgorithm::PS256 => seq![2u64, 16, 840, 1, 101, 3, 4, 2, 1],
            RsaPssJwsAlgorithm::PS384 => seq![2u64, 16, 840, 1, 101, 3, 4, 2, 2],
            RsaPssJwsAlgorithm::PS512 => seq![2u64, 16, 840, 1, 101, 3, 4, 2, 3],
        }
    }

    /// The length of a salt, which is that of a digest, in octets.
    pub open spec fn salt_octets(self) -> u8 {
        match self {
            RsaPssJwsAlgorithm::PS256 => 32,
            RsaPssJwsAlgorithm::PS384 => 48,
            RsaPssJwsAlgorithm::PS512 => 64,
        }
    }

    /// The number that OpenSSL gives the digest.
    pub open spec fn nid(self) -> int {
        match self {
            RsaPssJwsAlgorithm::PS256 => 672,
            RsaPssJwsAlgorithm::PS384 => 673,
            RsaPssJwsAlgorithm::PS512 => 674,
        }
    }

    /// The name of the algorithm in text.
    pub open spec fn name_text(self) -> Seq<char> {
        match self {
            RsaPssJwsAlgorithm::PS256 => "PS256"@,
            RsaPssJwsAlgorithm::PS384 => "PS384"@,
            RsaPssJwsAlgorithm::PS512 => "PS512"@,
        }
    }

    /// The name of the algorithm, as the parameter `alg` has it.
    pub fn name(&self) -> (name: &str)
        ensures
            name@ == self.name_text(),
    {
        match self {
            RsaPssJwsAlgorithm::PS256 => "PS256",
            RsaPssJwsAlgorithm::PS384 => "PS384",
            RsaPssJwsAlgorithm::PS512 => "PS512",
        }
    }

    /// The type of the keys, as the parameter `kty` has it.
    pub fn key_type(&self) -> (key_type: &str)
        ensures
            key_type@ == "RSA"@,
    {
        "RSA"
    }

    /// The object identifier of the digest.
    pub fn digest(&self) -> (oid: ObjectIdentifier)
        ensures
            oid@ == self.digest_arcs(),
            valid_arcs(oid@),
    {
        match self {
            RsaPssJwsAlgorithm::PS256 => {
                ObjectIdentifier::from_slice(&[2, 16, 840, 1, 101, 3, 4, 2, 1])
            },
            RsaPssJwsAlgorithm::PS384 => {
                ObjectIdentifier::from_slice(&[2, 16, 840, 1, 101, 3, 4, 2, 2])
            },
            RsaPssJwsAlgorithm::PS512 => {
                ObjectIdentifier::from_slice(&[2, 16, 840, 1, 101, 3, 4, 2, 3])
            },
        }
    }

    /// The length of a salt in octets.
    pub fn salt_len(&self) -> (length: u8)
        ensures
            length == self.salt_octets(),
    {
        match self {
            RsaPssJwsAlgorithm::PS256 => 32,
            RsaPssJwsAlgorithm::PS384 => 48,
            RsaPssJwsAlgorithm::PS512 => 64,
        }
    }
}

/// The object identifier id-RSASSA-PSS.
pub(crate) fn oid_rsassa_pss() -> (oid: ObjectIdentifier)
    ensures
        oid@ == rsassa_pss_arcs(),
        valid_arcs(oid@),
{
    ObjectIdentifier::from_slice(&[1, 2, 840, 113549, 1, 1, 10])
}

/// The object identifier id-mgf1.
pub(crate) fn oid_mgf1() -> (oid: ObjectIdentifier)
    ensures
        oid@ == mgf1_arcs(),
        valid_arcs(oid@),
{
    ObjectIdentifier::from_slice(&[1, 2, 840, 113549, 1, 1, 8])
}

} // verus!
