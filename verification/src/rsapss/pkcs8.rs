//! Keys with their algorithm: PKCS#8 PrivateKeyInfo and SubjectPublicKeyInfo.
use crate::der::builder::DerBuilder;
use crate::der::header::value_octets;
use crate::der::number::integer_contents;
use crate::der::oid::oid_contents;
use crate::der::types::{DerClass, DerType};
use crate::rsapss::{mgf1_arcs, oid_mgf1, oid_rsassa_pss, rsassa_pss_arcs, RsaPssJwsAlgorithm};
use vstd::prelude::*;

verus! {

/// A SEQUENCE with the given contents.
pub open spec fn sequence(contents: Seq<u8>) -> Seq<u8> {
    value_octets(DerType::Sequence, true, contents)
}

/// A value under the explicit context-specific tag `number`.
pub open spec fn tagged(number: u64, value: Seq<u8>) -> Seq<u8> {
    value_octets(DerType::Other(DerClass::ContextSpecific, number), true, value)
}

/// The INTEGER `n`.
pub open spec fn integer(n: nat) -> Seq<u8> {
    value_octets(DerType::Integer, false, integer_contents(n))
}

/// An OBJECT IDENTIFIER.
pub open spec fn object_identifier(arcs: Seq<u64>) -> Seq<u8> {
    value_octets(DerType::ObjectIdentifier, false, oid_contents(arcs))
}

/// The parameters of RSASSA-PSS, in the order of the standard: the digest, MGF1 with the same
/// digest, and the length of the salt.
pub open spec fn pss_parameters(algorithm: RsaPssJwsAlgorithm) -> Seq<u8> {
    let digest = sequence(object_identifier(algorithm.digest_arcs()));
    let mask = sequence(object_identifier(mgf1_arcs()) + digest);
    tagged(0, digest) + tagged(1, mask) + tagged(2, integer(algorithm.salt_octets() as nat))
}

/// The AlgorithmIdentifier of RSASSA-PSS with its parameters.
pub open spec fn algorithm_identifier(algorithm: RsaPssJwsAlgorithm) -> Seq<u8> {
    sequence(object_identifier(rsassa_pss_arcs()) + sequence(pss_parameters(algorithm)))
}

/// A PKCS#1 key with its algorithm: SubjectPublicKeyInfo around a public key, PrivateKeyInfo
/// around a private one.
pub open spec fn key_info(algorithm: RsaPssJwsAlgorithm, key: Seq<u8>, is_public: bool) -> Seq<u8> {
    if is_public {
        sequence(
            algorithm_identifier(algorithm) + value_octets(
                DerType::BitString,
                false,
                seq![0u8] + key,
            ),
        )
    } else {
        sequence(
            integer(0) + algorithm_identifier(algorithm) + value_octets(
                DerType::OctetString,
                false,
                key,
            ),
        )
    }
}

/// A PrivateKeyInfo around a PKCS#1 private key, with attributes behind the key.
pub open spec fn private_key_info(
    algorithm: RsaPssJwsAlgorithm,
    key: Seq<u8>,
    attributes: Seq<u8>,
) -> Seq<u8> {
    sequence(
        integer(0) + algorithm_identifier(algorithm) + value_octets(
            DerType::OctetString,
            false,
            key,
        ) + attributes,
    )
}

/// Whether a document is a SubjectPublicKeyInfo or a PrivateKeyInfo that holds the PKCS#1 key
/// `key` with the algorithm. A PrivateKeyInfo may hold attributes too.
pub open spec fn holds_key(
    algorithm: RsaPssJwsAlgorithm,
    key: Seq<u8>,
    is_public: bool,
    document: Seq<u8>,
) -> bool {
    if is_public {
        document == key_info(algorithm, key, true)
    } else {
        exists|attributes: Seq<u8>| document == #[trigger] private_key_info(
            algorithm,
            key,
            attributes,
        )
    }
}

/// A key that is written with its algorithm is held by what is written.
pub proof fn lemma_written_key_is_held(
    algorithm: RsaPssJwsAlgorithm,
    key: Seq<u8>,
    is_public: bool,
)
    ensures
        holds_key(algorithm, key, is_public, key_info(algorithm, key, is_public)),
{
    let members = integer(0) + algorithm_identifier(algorithm) + value_octets(
        DerType::OctetString,
        false,
        key,
    );
    assert(members + Seq::<u8>::empty() == members);
    assert(key_info(algorithm, key, false) == private_key_info(algorithm, key, Seq::empty()));
}

impl RsaPssJwsAlgorithm {
    /// The PKCS#1 key `input` with this algorithm: SubjectPublicKeyInfo around a public key,
    /// PKCS#8 PrivateKeyInfo around a private one.
    pub fn to_pkcs8(&self, input: &[u8], is_public: bool) -> (info: Vec<u8>)
        ensures
            info@ == key_info(*self, input@, is_public),
    {
        let mut builder = DerBuilder::new();
        builder.begin(DerType::Sequence);
        {
            if !is_public {
                builder.append_integer_from_u8(0);
            }
            builder.begin(DerType::Sequence);
            {
                builder.append_object_identifier(&oid_rsassa_pss());
                builder.begin(DerType::Sequence);
                {
                    builder.begin(DerType::Other(DerClass::ContextSpecific, 0));
                    {
                        builder.begin(DerType::Sequence);
                        {
                            builder.append_object_identifier(&self.digest());
                        }
                        builder.end();
                    }
                    builder.end();

                    builder.begin(DerType::Other(DerClass::ContextSpecific, 1));
                    {
                        builder.begin(DerType::Sequence);
                        {
                            builder.append_object_identifier(&oid_mgf1());
                            builder.begin(DerType::Sequence);
                            {
                                builder.append_object_identifier(&self.digest());
                            }
                            builder.end();
                        }
                        builder.end();
                    }
                    builder.end();

                    builder.begin(DerType::Other(DerClass::ContextSpecific, 2));
                    {
                        builder.append_integer_from_u8(self.salt_len());
                    }
                    builder.end();
                }
                builder.end();
            }
            builder.end();

            if is_public {
                builder.append_bit_string_from_slice(input, 0);
            } else {
                builder.append_octed_string_from_slice(input);
            }
        }
        builder.end();
        builder.build()
    }
}

} // verus!
