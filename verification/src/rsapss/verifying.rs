//! Checking signatures.
use crate::crypto::{
    feed_verifier, finish_verifier, public_key_der, public_modulus_size, read_public_key,
    start_verifier, verifier_operation, verifier_starts, verifier_takes, verifier_verdict,
    Operation,
};
use crate::der::number::shortest_octets;
use crate::error::{
    Fault, JoseError, KeyFault, KeyFormatError, SignatureError, SignatureFault,
};
use crate::jwk::{optional_text, Jwk};
use crate::pem::{parse_pem, pem_contents};
use crate::rsapss::import::{as_key_der, der_key, pem_key};
use crate::rsapss::jwk_key::{can_be_decoded, jwk_key, public_names};
use crate::rsapss::keys::{chunk, chunk_end, made_key, public_key_suits, KeyModel};
use crate::rsapss::pkcs1::rsa_public_key;
use crate::rsapss::pkcs8::holds_key;
use crate::rsapss::{KeyOperation, RsaPssJwsAlgorithm};
use openssl::error::ErrorStack;
use openssl::pkey::{PKey, Public};
use openssl::sign::Verifier;
use vstd::prelude::*;
use vstd::slice::slice_subrange;

verus! {

/// Checks signatures with a public key.
pub struct RsaPssJwsVerifier {
    algorithm: RsaPssJwsAlgorithm,
    public_key: PKey<Public>,
    key_id: Option<String>,
}

impl View for RsaPssJwsVerifier {
    type V = KeyModel;

    closed spec fn view(&self) -> KeyModel {
        KeyModel {
            algorithm: self.algorithm,
            der: public_key_der(self.public_key),
            key_id: optional_text(self.key_id),
        }
    }
}

/// A verifier, or why there is none, in mathematical terms.
pub open spec fn as_verifier(made: Result<RsaPssJwsVerifier, JoseError>) -> Result<
    KeyModel,
    Fault,
> {
    match made {
        Ok(verifier) => Ok(verifier@),
        Err(error) => Err(error@),
    }
}

/// What making a verifier comes to, from what a document gives.
pub open spec fn made_verifier(
    algorithm: RsaPssJwsAlgorithm,
    der: Result<Seq<u8>, KeyFault>,
    key_id: Option<Seq<char>>,
) -> Result<KeyModel, Fault> {
    made_key(algorithm, der, |der: Seq<u8>| public_key_suits(der), key_id)
}

/// Whether OpenSSL takes each part of a message.
pub open spec fn verifier_takes_all(key: Seq<u8>, digest: int, message: Seq<u8>) -> bool {
    forall|at: int|
        0 <= at < message.len() && at % 1024 == 0 ==> verifier_takes(
            Operation { key, digest, fed: message.take(at) },
            #[trigger] chunk(message, at),
        )
}

/// What a check of a signature finds: whether the signature matches the message, or nothing where
/// OpenSSL fails before it can tell.
pub open spec fn finding(key: KeyModel, message: Seq<u8>, signature: Seq<u8>) -> Option<bool> {
    let digest = key.algorithm.nid();
    if verifier_starts(key.der, digest) && verifier_takes_all(key.der, digest, message) {
        verifier_verdict(Operation { key: key.der, digest, fed: message }, signature)
    } else {
        None
    }
}

/// Whether a DER document that holds an RSA public key has a modulus of at least 256 octets.
pub open spec fn has_long_modulus(der: Seq<u8>) -> bool {
    forall|algorithm: RsaPssJwsAlgorithm, numbers: Seq<nat>|
        #[trigger] holds_key(algorithm, rsa_public_key(numbers), true, der) && numbers.len() == 2
            && numbers[0] > 0 ==> shortest_octets(numbers[0]).len() >= 256
}

/// Whether a DER document that holds an RSA public key has a modulus of less than 256 octets.
pub open spec fn has_short_modulus(der: Seq<u8>) -> bool {
    forall|algorithm: RsaPssJwsAlgorithm, numbers: Seq<nat>|
        #[trigger] holds_key(algorithm, rsa_public_key(numbers), true, der) && numbers.len() == 2
            && numbers[0] > 0 ==> shortest_octets(numbers[0]).len() < 256
}

/// What is answered to the verdict of OpenSSL on a signature: success where the signature matches,
/// an error where it does not, and the error of OpenSSL where it came to no verdict.
pub fn answer_to_verdict(verdict: Result<bool, ErrorStack>) -> (answer: Result<(), JoseError>)
    ensures
        match verdict {
            Ok(true) => answer is Ok,
            Ok(false) => answer == Err::<(), JoseError>(
                JoseError::InvalidSignature(SignatureError::Mismatch),
            ),
            Err(error) => answer == Err::<(), JoseError>(
                JoseError::InvalidSignature(SignatureError::OpenSsl(error)),
            ),
        },
{
    match verdict {
        Ok(true) => Ok(()),
        Ok(false) => Err(JoseError::InvalidSignature(SignatureError::Mismatch)),
        Err(error) => Err(JoseError::InvalidSignature(SignatureError::OpenSsl(error))),
    }
}

/// What is answered to a check of a signature that finds the given thing.
pub open spec fn answer_to_finding(finding: Option<bool>) -> Result<(), Fault> {
    match finding {
        Some(true) => Ok(()),
        Some(false) => Err(Fault::InvalidSignature(SignatureFault::Mismatch)),
        None => Err(Fault::InvalidSignature(SignatureFault::OpenSsl)),
    }
}

/// The outcome of a step of a check, in mathematical terms.
pub open spec fn as_answer(outcome: Result<(), JoseError>) -> Result<(), Fault> {
    match outcome {
        Ok(()) => Ok(()),
        Err(error) => Err(error@),
    }
}

/// A check of a signature in the making. The message is fed in piece by piece.
pub struct MessageVerifier<'a> {
    verifier: Verifier<'a>,
}

impl<'a> View for MessageVerifier<'a> {
    type V = Operation;

    closed spec fn view(&self) -> Operation {
        verifier_operation(self.verifier)
    }
}

impl<'a> MessageVerifier<'a> {
    /// Feeds in the next piece of the message.
    pub fn update(&mut self, data: &[u8]) -> (outcome: Result<(), JoseError>)
        ensures
            as_answer(outcome) == if verifier_takes(old(self)@, data@) {
                Ok::<(), Fault>(())
            } else {
                Err(Fault::InvalidSignature(SignatureFault::OpenSsl))
            },
            outcome is Ok ==> final(self)@ == (Operation {
                fed: old(self)@.fed + data@,
                ..old(self)@
            }),
    {
        match feed_verifier(&mut self.verifier, data) {
            Ok(()) => Ok(()),
            Err(error) => Err(JoseError::InvalidSignature(SignatureError::OpenSsl(error))),
        }
    }

    /// Checks the signature of the message that was fed in. It succeeds if and only if OpenSSL
    /// finds that the signature matches.
    pub fn finish(self, signature: &[u8]) -> (outcome: Result<(), JoseError>)
        ensures
            as_answer(outcome) == answer_to_finding(verifier_verdict(self@, signature@)),
    {
        answer_to_verdict(finish_verifier(&self.verifier, signature))
    }
}

impl RsaPssJwsAlgorithm {
    fn make_verifier(&self, der: Result<Vec<u8>, KeyFormatError>, key_id: Option<String>) -> (made:
        Result<RsaPssJwsVerifier, JoseError>)
        ensures
            as_verifier(made) == made_verifier(*self, as_key_der(der), optional_text(key_id)),
            der matches Err(error) ==> made == Err::<RsaPssJwsVerifier, JoseError>(
                JoseError::InvalidKeyFormat(error),
            ),
            made matches Ok(verifier) ==> has_long_modulus(verifier@.der),
            as_key_der(der) matches Ok(der) ==> (
            as_verifier(made) == Err::<KeyModel, Fault>(
                Fault::InvalidKeyFormat(KeyFault::KeyTooShort),
            ) ==> has_short_modulus(der)),
    {
        match der {
            Ok(der) => match read_public_key(der.as_slice()) {
                Ok(public_key) => match self.check_key(public_modulus_size(&public_key)) {
                    Ok(()) => Ok(RsaPssJwsVerifier { algorithm: *self, public_key, key_id }),
                    Err(error) => Err(JoseError::InvalidKeyFormat(error)),
                },
                Err(error) => Err(JoseError::InvalidKeyFormat(KeyFormatError::OpenSsl(error))),
            },
            Err(error) => Err(JoseError::InvalidKeyFormat(error)),
        }
    }

    /// Return a verifier from a public key of common or traditional PEM format.
    ///
    /// Common PEM format is a DER and Base64 encoded SubjectPublicKeyInfo that is surrounded by
    /// "-----BEGIN/END PUBLIC KEY-----".
    ///
    /// Traditional PEM format is a DER and Base64 encoded SubjectPublicKeyInfo or PKCS#1
    /// RSAPublicKey that is surrounded by "-----BEGIN/END RSA-PSS/RSA PUBLIC KEY-----".
    pub fn verifier_from_pem(&self, input: &[u8]) -> (made: Result<RsaPssJwsVerifier, JoseError>)
        requires
            input@.len() * 4 <= usize::MAX,
        ensures
            as_verifier(made) == made_verifier(
                *self,
                pem_key(*self, pem_contents(input@), true),
                None,
            ),
            made matches Ok(verifier) ==> has_long_modulus(verifier@.der),
            pem_key(*self, pem_contents(input@), true) matches Ok(der) ==> (
            as_verifier(made) == Err::<KeyModel, Fault>(
                Fault::InvalidKeyFormat(KeyFault::KeyTooShort),
            ) ==> has_short_modulus(der)),
    {
        match parse_pem(input) {
            Ok((label, data)) => self.make_verifier(
                self.key_from_pem_contents(label.as_str(), data.as_slice(), true),
                None,
            ),
            Err(error) => Err(JoseError::InvalidKeyFormat(error)),
        }
    }

    /// Return a verifier from a public key that is a DER encoded SubjectPublicKeyInfo or PKCS#1
    /// RSAPublicKey.
    pub fn verifier_from_der(&self, input: &[u8]) -> (made: Result<RsaPssJwsVerifier, JoseError>)
        ensures
            as_verifier(made) == made_verifier(*self, der_key(*self, input@, true), None),
            made matches Ok(verifier) ==> has_long_modulus(verifier@.der),
            der_key(*self, input@, true) matches Ok(der) ==> (
            as_verifier(made) == Err::<KeyModel, Fault>(
                Fault::InvalidKeyFormat(KeyFault::KeyTooShort),
            ) ==> has_short_modulus(der)),
    {
        self.make_verifier(self.key_from_der(input, true), None)
    }

    /// Return a verifier from a public key that is a JWK. The verifier has its key identifier.
    pub fn verifier_from_jwk(&self, jwk: &Jwk) -> (made: Result<RsaPssJwsVerifier, JoseError>)
        requires
            can_be_decoded(jwk@.parameters, public_names()),
        ensures
            as_verifier(made) == made_verifier(
                *self,
                jwk_key(*self, jwk@, KeyOperation::Verify),
                jwk@.key_id,
            ),
            made matches Ok(verifier) ==> has_long_modulus(verifier@.der),
            jwk_key(*self, jwk@, KeyOperation::Verify) matches Ok(der) ==> (
            as_verifier(made) == Err::<KeyModel, Fault>(
                Fault::InvalidKeyFormat(KeyFault::KeyTooShort),
            ) ==> has_short_modulus(der)),
    {
        let key_id = match jwk.key_id() {
            Some(key_id) => Some(key_id.to_owned()),
            None => None,
        };
        self.make_verifier(self.key_from_jwk(jwk, KeyOperation::Verify), key_id)
    }
}

impl RsaPssJwsVerifier {
    /// The algorithm.
    pub fn algorithm(&self) -> (algorithm: &RsaPssJwsAlgorithm)
        ensures
            *algorithm == self@.algorithm,
    {
        &self.algorithm
    }

    /// The identifier of the key.
    pub fn key_id(&self) -> (key_id: Option<&str>)
        ensures
            match key_id {
                Some(key_id) => self@.key_id == Some(key_id@),
                None => self@.key_id is None,
            },
    {
        match &self.key_id {
            Some(key_id) => Some(key_id.as_str()),
            None => None,
        }
    }

    /// Sets the identifier of the key.
    pub fn set_key_id(&mut self, key_id: &str)
        ensures
            final(self)@ == (KeyModel { key_id: Some(key_id@), ..old(self)@ }),
    {
        self.key_id = Some(key_id.to_owned());
    }

    /// Takes the identifier of the key away.
    pub fn unset_key_id(&mut self)
        ensures
            final(self)@ == (KeyModel { key_id: None, ..old(self)@ }),
    {
        self.key_id = None;
    }

    /// Starts a check of a signature.
    pub fn start<'a>(&'a self) -> (started: Result<MessageVerifier<'a>, JoseError>)
        ensures
            match started {
                Ok(check) => verifier_starts(self@.der, self@.algorithm.nid()) && check@ == (
                Operation {
                    key: self@.der,
                    digest: self@.algorithm.nid(),
                    fed: Seq::empty(),
                }),
                Err(error) => !verifier_starts(self@.der, self@.algorithm.nid()) && error@
                    == Fault::InvalidSignature(SignatureFault::OpenSsl),
            },
    {
        match start_verifier(self.algorithm.message_digest(), &self.public_key) {
            Ok(verifier) => Ok(MessageVerifier { verifier }),
            Err(error) => Err(JoseError::InvalidSignature(SignatureError::OpenSsl(error))),
        }
    }

    /// Checks the signature of the message. It succeeds if and only if OpenSSL carries the check
    /// out and finds that the signature matches.
    pub fn verify(&self, message: &[u8], signature: &[u8]) -> (outcome: Result<(), JoseError>)
        ensures
            match outcome {
                Ok(()) => finding(self@, message@, signature@) == Some(true),
                Err(error) => match finding(self@, message@, signature@) {
                    Some(matches) => !matches && error@ == Fault::InvalidSignature(
                        SignatureFault::Mismatch,
                    ),
                    None => error@ == Fault::InvalidSignature(SignatureFault::OpenSsl),
                },
            },
    {
        let ghost key = self@.der;
        let ghost digest = self@.algorithm.nid();
        let mut check = match self.start() {
            Ok(check) => check,
            Err(error) => {
                return Err(error);
            },
        };
        let mut at: usize = 0;
        assert(message@.take(0) == Seq::<u8>::empty());
        while at < message.len()
            invariant
                at <= message@.len(),
                at % 1024 == 0 || at == message@.len(),
                key == self@.der,
                digest == self@.algorithm.nid(),
                check@ == (Operation { key, digest, fed: message@.take(at as int) }),
                forall|earlier: int|
                    0 <= earlier < at && earlier % 1024 == 0 ==> verifier_takes(
                        Operation { key, digest, fed: message@.take(earlier) },
                        #[trigger] chunk(message@, earlier),
                    ),
            decreases message.len() - at,
        {
            let end = chunk_end(message, at);
            match check.update(slice_subrange(message, at, end)) {
                Ok(()) => {},
                Err(error) => {
                    assert(!verifier_takes(
                        Operation { key, digest, fed: message@.take(at as int) },
                        chunk(message@, at as int),
                    ));
                    return Err(error);
                },
            }
            at = end;
        }
        assert(message@.take(at as int) == message@);
        check.finish(signature)
    }
}

} // verus!
