//! The documents that hold a key, and what they have in common.
use crate::error::KeyFault;
use crate::jwk::JwkModel;
use crate::laws::detection::{law_bare_key_is_detected, law_key_is_detected};
use crate::pem::pem_contents;
use crate::rsapss::import::{
    der_key, is_bare_key_label, is_key_info_label, labelled_key, pem_key,
};
use crate::rsapss::jwk_key::{
    jwk_key, jwk_numbers, jwk_suits, numbers_key, operation_names, private_names, public_names,
};
use crate::rsapss::pkcs1::bare_key;
use crate::rsapss::pkcs8::{holds_key, lemma_written_key_is_held};
use crate::rsapss::{KeyOperation, RsaPssJwsAlgorithm};
use vstd::prelude::*;

verus! {

/// A document that holds a key with its algorithm is used as it is, in DER and in a PEM document
/// under a label for it. A bare key, in DER and in a PEM document under a label for it, gives the
/// key that its numbers give.
pub proof fn law_documents_of_a_key_agree(
    algorithm: RsaPssJwsAlgorithm,
    numbers: Seq<nat>,
    is_public: bool,
    document: Seq<u8>,
)
    requires
        numbers.len() > 0,
        holds_key(algorithm, bare_key(numbers, is_public), is_public, document),
        document.len() <= u64::MAX,
    ensures
        ({
            let key = numbers_key(algorithm, numbers, is_public);
            let bare = bare_key(numbers, is_public);
            &&& der_key(algorithm, document, is_public) == Ok::<Seq<u8>, KeyFault>(document)
            &&& bare.len() <= u64::MAX ==> der_key(algorithm, bare, is_public) == Ok::<
                Seq<u8>,
                KeyFault,
            >(key)
            &&& forall|label: Seq<char>| #[trigger]
                is_key_info_label(label, is_public) ==> labelled_key(
                    algorithm,
                    label,
                    document,
                    is_public,
                ) == Ok::<Seq<u8>, KeyFault>(document)
            &&& forall|label: Seq<char>| #[trigger]
                is_bare_key_label(label, is_public) ==> labelled_key(
                    algorithm,
                    label,
                    bare,
                    is_public,
                ) == Ok::<Seq<u8>, KeyFault>(key)
            &&& holds_key(algorithm, bare, is_public, key)
        }),
{
    let bare = bare_key(numbers, is_public);
    law_key_is_detected(algorithm, algorithm, bare, is_public, document);
    if bare.len() <= u64::MAX {
        law_bare_key_is_detected(algorithm, numbers, is_public);
    }
    lemma_written_key_is_held(algorithm, bare, is_public);
    lemma_labels_differ(is_public);
}

/// No label is both for a key with its algorithm and for a bare key.
proof fn lemma_labels_differ(is_public: bool)
    ensures
        forall|label: Seq<char>| #[trigger]
            is_bare_key_label(label, is_public) ==> !is_key_info_label(label, is_public),
{
    reveal_strlit("PRIVATE KEY");
    reveal_strlit("RSA-PSS PRIVATE KEY");
    reveal_strlit("RSA PRIVATE KEY");
    reveal_strlit("PUBLIC KEY");
    reveal_strlit("RSA-PSS PUBLIC KEY");
    reveal_strlit("RSA PUBLIC KEY");
    assert("RSA PRIVATE KEY"@.len() != "PRIVATE KEY"@.len());
    assert("RSA PRIVATE KEY"@.len() != "RSA-PSS PRIVATE KEY"@.len());
    assert("RSA PUBLIC KEY"@.len() != "PUBLIC KEY"@.len());
    assert("RSA PUBLIC KEY"@.len() != "RSA-PSS PUBLIC KEY"@.len());
}

/// What a key is made from.
pub enum KeySource {
    /// A DER document.
    Der(Seq<u8>),
    /// A PEM document.
    Pem(Seq<u8>),
    /// A JWK.
    Jwk(JwkModel),
}

impl KeySource {
    /// The DER of the key with its algorithm that this gives for an operation.
    pub open spec fn key(
        self,
        algorithm: RsaPssJwsAlgorithm,
        operation: KeyOperation,
    ) -> Result<Seq<u8>, KeyFault> {
        let is_public = operation == KeyOperation::Verify;
        match self {
            KeySource::Der(document) => der_key(algorithm, document, is_public),
            KeySource::Pem(document) => pem_key(algorithm, pem_contents(document), is_public),
            KeySource::Jwk(jwk) => jwk_key(algorithm, jwk, operation),
        }
    }

    /// The identifier of the key.
    pub open spec fn key_id(self) -> Option<Seq<char>> {
        match self {
            KeySource::Jwk(jwk) => jwk.key_id,
            _ => None,
        }
    }

    /// Whether this has the RSA key with the given numbers for an operation: with its algorithm or
    /// bare in a DER document, either of them in a PEM document under a label for it, or as the
    /// parameters of a JWK.
    pub open spec fn has(
        self,
        algorithm: RsaPssJwsAlgorithm,
        operation: KeyOperation,
        numbers: Seq<nat>,
    ) -> bool {
        let is_public = operation == KeyOperation::Verify;
        let bare = bare_key(numbers, is_public);
        match self {
            KeySource::Der(document) => {
                &&& document.len() <= u64::MAX
                &&& document == bare || holds_key(algorithm, bare, is_public, document)
            },
            KeySource::Pem(document) => match pem_contents(document) {
                Ok((label, data)) => {
                    &&& data.len() <= u64::MAX
                    &&& is_bare_key_label(label, is_public) && data == bare || is_key_info_label(
                        label,
                        is_public,
                    ) && holds_key(algorithm, bare, is_public, data)
                },
                Err(_) => false,
            },
            KeySource::Jwk(jwk) => jwk_numbers(jwk.parameters, operation_names(operation)) == Ok::<
                Seq<nat>,
                KeyFault,
            >(numbers),
        }
    }
}

/// Whatever has a key gives a document that holds that key; only a JWK can be refused, and only
/// where it is not for the algorithm and the operation.
pub proof fn law_source_gives_its_key(
    algorithm: RsaPssJwsAlgorithm,
    operation: KeyOperation,
    numbers: Seq<nat>,
    source: KeySource,
)
    requires
        numbers.len() > 0,
        source.has(algorithm, operation, numbers),
    ensures
        ({
            let is_public = operation == KeyOperation::Verify;
            match source.key(algorithm, operation) {
                Ok(key) => holds_key(algorithm, bare_key(numbers, is_public), is_public, key),
                Err(fault) => source matches KeySource::Jwk(jwk) && jwk_suits(
                    algorithm,
                    jwk,
                    operation,
                ) == Err::<(), KeyFault>(fault),
            }
        }),
{
    let is_public = operation == KeyOperation::Verify;
    let bare = bare_key(numbers, is_public);
    lemma_written_key_is_held(algorithm, bare, is_public);
    lemma_labels_differ(is_public);
    match source {
        KeySource::Der(document) => {
            if document == bare {
                law_bare_key_is_detected(algorithm, numbers, is_public);
            } else {
                law_key_is_detected(algorithm, algorithm, bare, is_public, document);
            }
        },
        KeySource::Pem(document) => {
            let (label, data) = pem_contents(document)->Ok_0;
            if is_key_info_label(label, is_public) {
                law_key_is_detected(algorithm, algorithm, bare, is_public, data);
            }
        },
        KeySource::Jwk(_) => {},
    }
}

proof fn lemma_numbers_of_first_names(
    parameters: Map<Seq<char>, Option<Seq<char>>>,
    names: Seq<Seq<char>>,
    count: int,
)
    requires
        0 <= count <= names.len(),
        jwk_numbers(parameters, names) is Ok,
    ensures
        jwk_numbers(parameters, names)->Ok_0.len() == names.len(),
        jwk_numbers(parameters, names.take(count)) == Ok::<Seq<nat>, KeyFault>(
            jwk_numbers(parameters, names)->Ok_0.take(count),
        ),
    decreases names.len(),
{
    let numbers = jwk_numbers(parameters, names)->Ok_0;
    if names.len() > 0 {
        let front = jwk_numbers(parameters, names.drop_last())->Ok_0;
        lemma_numbers_of_first_names(parameters, names.drop_last(), if count < names.len() {
            count
        } else {
            count - 1
        });
        assert(numbers.drop_last() == front);
        if count < names.len() {
            assert(names.drop_last().take(count) == names.take(count));
            assert(front.take(count) == numbers.take(count));
        }
    }
    if count == names.len() {
        assert(names.take(count) == names);
        assert(numbers.take(count) == numbers);
    }
}

/// The parameters of a private JWK hold the public key too.
pub proof fn law_private_jwk_holds_the_public_key(
    parameters: Map<Seq<char>, Option<Seq<char>>>,
    numbers: Seq<nat>,
)
    requires
        jwk_numbers(parameters, private_names()) == Ok::<Seq<nat>, KeyFault>(numbers),
    ensures
        jwk_numbers(parameters, public_names()) == Ok::<Seq<nat>, KeyFault>(numbers.take(2)),
{
    lemma_numbers_of_first_names(parameters, private_names(), 2);
    assert(private_names().take(2) == public_names());
}

} // verus!
