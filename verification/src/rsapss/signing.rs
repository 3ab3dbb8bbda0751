//! Making signatures.
use crate::crypto::{
    checks_out, feed_signer, finish_signer, is_key_pair, private_key_der, private_modulus_size,
    public_key_readable, read_private_key, signer_operation, signer_starts, signer_takes,
    signer_yields, start_signer, Operation,
};
use crate::der::number::shortest_octets;
use crate::error::{
    Fault, JoseError, KeyFault, KeyFormatError, SignatureError, SignatureFault,
};
use crate::jwk::{optional_text, Jwk};
use crate::pem::{parse_pem, pem_contents};
use crate::rsapss::import::{as_key_der, der_key, pem_key};
use crate::rsapss::jwk_key::{can_be_decoded, jwk_key, private_names};
use crate::rsapss::keys::{chunk, chunk_end, made_key, private_key_suits, KeyModel};
use crate::rsapss::pkcs1::rsa_private_key;
use crate::rsapss::pkcs8::holds_key;
use crate::rsapss::{KeyOperation, RsaPssJwsAlgorithm};
use openssl::error::ErrorStack;
use openssl::pkey::{PKey, Private};
use openssl::sign::Signer;
use vstd::prelude::*;
use vstd::slice::slice_subrange;

verus! {

/// Makes signatures with a private key.
pub struct RsaPssJwsSigner {
    algorithm: RsaPssJwsAlgorithm,
    private_key: PKey<Private>,
    key_id: Option<String>,
}

impl View for RsaPssJwsSigner {
    type V = KeyModel;

    closed spec fn view(&self) -> KeyModel {
        KeyModel {
            algorithm: self.algorithm,
            der: private_key_der(self.private_key),
            key_id: optional_text(self.key_id),
        }
    }
}

/// A signer, or why there is none, in mathematical terms.
pub open spec fn as_signer(made: Result<RsaPssJwsSigner, JoseError>) -> Result<KeyModel, Fault> {
    match made {
        Ok(signer) => Ok(signer@),
        Err(error) => Err(error@),
    }
}

/// What making a signer comes to, from what a document gives.
pub open spec fn made_signer(
    algorithm: RsaPssJwsAlgorithm,
    der: Result<Seq<u8>, KeyFault>,
    key_id: Option<Seq<char>>,
) -> Result<KeyModel, Fault> {
    made_key(algorithm, der, |der: Seq<u8>| private_key_suits(der), key_id)
}

/// Whether OpenSSL takes each part of a message.
pub open spec fn signer_takes_all(key: Seq<u8>, digest: int, message: Seq<u8>) -> bool {
    forall|at: int|
        0 <= at < message.len() && at % 1024 == 0 ==> signer_takes(
            Operation { key, digest, fed: message.take(at) },
            #[trigger] chunk(message, at),
        )
}

/// Whether a signature is one that can be made of what was fed in. The other half of the key, where
/// it is that of an RSA key, checks it and finds that it matches.
pub open spec fn is_signature(
    algorithm: RsaPssJwsAlgorithm,
    operation: Operation,
    signature: Seq<u8>,
) -> bool {
    &&& signer_yields(operation, Ok(signature))
    &&& forall|numbers: Seq<nat>, public_key: Seq<u8>| #[trigger]
        is_key_pair(algorithm, numbers, operation.key, public_key) && public_key_readable(
            public_key,
        ) && operation.digest == algorithm.nid() ==> checks_out(
            public_key,
            operation.digest,
            operation.fed,
            signature,
        )
}

/// Whether a signature is one that can be made of a message with a key.
pub open spec fn is_signed(key: KeyModel, message: Seq<u8>, signature: Seq<u8>) -> bool {
    let digest = key.algorithm.nid();
    &&& signer_starts(key.der, digest)
    &&& signer_takes_all(key.der, digest, message)
    &&& is_signature(key.algorithm, Operation { key: key.der, digest, fed: message }, signature)
}

/// Whether OpenSSL can report an error of a signature of a message: it does not start the
/// signature, it does not take a part of the message, or it fails to finish the signature of the
/// whole message, with this very error.
pub open spec fn can_fail(key: KeyModel, message: Seq<u8>, error: ErrorStack) -> bool {
    let digest = key.algorithm.nid();
    ||| !signer_starts(key.der, digest)
    ||| !signer_takes_all(key.der, digest, message)
    ||| signer_yields(Operation { key: key.der, digest, fed: message }, Err(error))
}

/// Whether what is answered to a message is a signature of it, or an error that OpenSSL can report
/// of that signature.
pub open spec fn is_answer_to_message(
    key: KeyModel,
    message: Seq<u8>,
    answer: Result<Vec<u8>, JoseError>,
) -> bool {
    match answer {
        Ok(signature) => is_signed(key, message, signature@),
        Err(JoseError::InvalidSignature(SignatureError::OpenSsl(error))) => can_fail(
            key,
            message,
            error,
        ),
        Err(_) => false,
    }
}

/// Whether a DER document that holds an RSA private key has a modulus of at least 256 octets.
pub open spec fn has_long_modulus(der: Seq<u8>) -> bool {
    forall|algorithm: RsaPssJwsAlgorithm, numbers: Seq<nat>|
        #[trigger] holds_key(algorithm, rsa_private_key(numbers), false, der) && numbers.len() == 8
            && numbers[0] > 0 ==> shortest_octets(numbers[0]).len() >= 256
}

/// Whether a DER document that holds an RSA private key has a modulus of less than 256 octets.
pub open spec fn has_short_modulus(der: Seq<u8>) -> bool {
    forall|algorithm: RsaPssJwsAlgorithm, numbers: Seq<nat>|
        #[trigger] holds_key(algorithm, rsa_private_key(numbers), false, der) && numbers.len() == 8
            && numbers[0] > 0 ==> shortest_octets(numbers[0]).len() < 256
}

/// What is answered to what OpenSSL makes of a signature: the signature, or an error where it made
/// none.
pub fn answer_to_signature(signature: Result<Vec<u8>, ErrorStack>) -> (answer: Result<
    Vec<u8>,
    JoseError,
>)
    ensures
        match signature {
            Ok(signature) => answer == Ok::<Vec<u8>, JoseError>(signature),
            Err(error) => answer == Err::<Vec<u8>, JoseError>(
                JoseError::InvalidSignature(SignatureError::OpenSsl(error)),
            ),
        },
{
    match signature {
        Ok(signature) => Ok(signature),
        Err(error) => Err(JoseError::InvalidSignature(SignatureError::OpenSsl(error))),
    }
}

/// A signature in the making. The message is fed in piece by piece.
pub struct MessageSigner<'a> {
    signer: Signer<'a>,
}

impl<'a> View for MessageSigner<'a> {
    type V = Operation;

    closed spec fn view(&self) -> Operation {
        signer_operation(self.signer)
    }
}

impl<'a> MessageSigner<'a> {
    /// Feeds in the next piece of the message.
    pub fn update(&mut self, data: &[u8]) -> (outcome: Result<(), JoseError>)
        ensures
            match outcome {
                Ok(()) => signer_takes(old(self)@, data@) && final(self)@ == (Operation {
                    fed: old(self)@.fed + data@,
                    ..old(self)@
                }),
                Err(error) => !signer_takes(old(self)@, data@) && error@
                    == Fault::InvalidSignature(SignatureFault::OpenSsl),
            },
    {
        match feed_signer(&mut self.signer, data) {
            Ok(()) => Ok(()),
            Err(error) => Err(JoseError::InvalidSignature(SignatureError::OpenSsl(error))),
        }
    }

    /// Return a signature of the message that was fed in.
    ///
    /// OpenSSL draws a salt at random, so whether it returns a signature, and which, is not
    /// determined by the key and the message.
    pub fn finish(self) -> (signature: Result<Vec<u8>, JoseError>)
        ensures
            match signature {
                Ok(signature) => forall|algorithm: RsaPssJwsAlgorithm| #[trigger]
                    is_signature(algorithm, self@, signature@),
                Err(error) => error@ == Fault::InvalidSignature(SignatureFault::OpenSsl),
            },
            signature is Ok || exists|error: ErrorStack|
                signature == Err::<Vec<u8>, JoseError>(
                    JoseError::InvalidSignature(SignatureError::OpenSsl(error)),
                ) && #[trigger] signer_yields(self@, Err(error)),
    {
        let signature = finish_signer(&self.signer);
        assert(signature matches Err(error) ==> signer_yields(self@, Err(error)));
        answer_to_signature(signature)
    }
}

impl RsaPssJwsAlgorithm {
    fn make_signer(&self, der: Result<Vec<u8>, KeyFormatError>, key_id: Option<String>) -> (made:
        Result<RsaPssJwsSigner, JoseError>)
        ensures
            as_signer(made) == made_signer(*self, as_key_der(der), optional_text(key_id)),
            der matches Err(error) ==> made == Err::<RsaPssJwsSigner, JoseError>(
                JoseError::InvalidKeyFormat(error),
            ),
            made matches Ok(signer) ==> has_long_modulus(signer@.der),
            as_key_der(der) matches Ok(der) ==> (
            as_signer(made) == Err::<KeyModel, Fault>(
                Fault::InvalidKeyFormat(KeyFault::KeyTooShort),
            ) ==> has_short_modulus(der)),
    {
        match der {
            Ok(der) => match read_private_key(der.as_slice()) {
                Ok(private_key) => match self.check_key(private_modulus_size(&private_key)) {
                    Ok(()) => Ok(RsaPssJwsSigner { algorithm: *self, private_key, key_id }),
                    Err(error) => Err(JoseError::InvalidKeyFormat(error)),
                },
                Err(error) => Err(JoseError::InvalidKeyFormat(KeyFormatError::OpenSsl(error))),
            },
            Err(error) => Err(JoseError::InvalidKeyFormat(error)),
        }
    }

    /// Return a signer from a private key of common or traditional PEM format.
    ///
    /// Common PEM format is a DER and Base64 encoded PKCS#8 PrivateKeyInfo that is surrounded by
    /// "-----BEGIN/END PRIVATE KEY-----".
    ///
    /// Traditional PEM format is a DER and Base64 encoded PKCS#8 PrivateKeyInfo or PKCS#1
    /// RSAPrivateKey that is surrounded by "-----BEGIN/END RSA-PSS/RSA PRIVATE KEY-----".
    pub fn signer_from_pem(&self, input: &[u8]) -> (made: Result<RsaPssJwsSigner, JoseError>)
        requires
            input@.len() * 4 <= usize::MAX,
        ensures
            as_signer(made) == made_signer(
                *self,
                pem_key(*self, pem_contents(input@), false),
                None,
            ),
            made matches Ok(signer) ==> has_long_modulus(signer@.der),
            pem_key(*self, pem_contents(input@), false) matches Ok(der) ==> (
            as_signer(made) == Err::<KeyModel, Fault>(
                Fault::InvalidKeyFormat(KeyFault::KeyTooShort),
            ) ==> has_short_modulus(der)),
    {
        match parse_pem(input) {
            Ok((label, data)) => self.make_signer(
                self.key_from_pem_contents(label.as_str(), data.as_slice(), false),
                None,
            ),
            Err(error) => Err(JoseError::InvalidKeyFormat(error)),
        }
    }

    /// Return a signer from a private key that is a DER encoded PKCS#8 PrivateKeyInfo or PKCS#1
    /// RSAPrivateKey.
    pub fn signer_from_der(&self, input: &[u8]) -> (made: Result<RsaPssJwsSigner, JoseError>)
        ensures
            as_signer(made) == made_signer(*self, der_key(*self, input@, false), None),
            made matches Ok(signer) ==> has_long_modulus(signer@.der),
            der_key(*self, input@, false) matches Ok(der) ==> (
            as_signer(made) == Err::<KeyModel, Fault>(
                Fault::InvalidKeyFormat(KeyFault::KeyTooShort),
            ) ==> has_short_modulus(der)),
    {
        self.make_signer(self.key_from_der(input, false), None)
    }

    /// Return a signer from a private key that is a JWK. The signer has its key identifier.
    pub fn signer_from_jwk(&self, jwk: &Jwk) -> (made: Result<RsaPssJwsSigner, JoseError>)
        requires
            can_be_decoded(jwk@.parameters, private_names()),
        ensures
            as_signer(made) == made_signer(
                *self,
                jwk_key(*self, jwk@, KeyOperation::Sign),
                jwk@.key_id,
            ),
            made matches Ok(signer) ==> has_long_modulus(signer@.der),
            jwk_key(*self, jwk@, KeyOperation::Sign) matches Ok(der) ==> (
            as_signer(made) == Err::<KeyModel, Fault>(
                Fault::InvalidKeyFormat(KeyFault::KeyTooShort),
            ) ==> has_short_modulus(der)),
    {
        let key_id = match jwk.key_id() {
            Some(key_id) => Some(key_id.to_owned()),
            None => None,
        };
        self.make_signer(self.key_from_jwk(jwk, KeyOperation::Sign), key_id)
    }
}

impl RsaPssJwsSigner {
    /// The algorithm.
    pub fn algorithm(&self) -> (algorithm: &RsaPssJwsAlgorithm)
        ensures
            *algorithm == self@.algorithm,
    {
        &self.algorithm
    }

    /// The identifier of the key.
    pub fn key_id(&self) -> (key_id: Option<&str>)
        ensures
            match key_id {
                Some(key_id) => self@.key_id == Some(key_id@),
                None => self@.key_id is None,
            },
    {
        match &self.key_id {
            Some(key_id) => Some(key_id.as_str()),
            None => None,
        }
    }

    /// Sets the identifier of the key.
    pub fn set_key_id(&mut self, key_id: &str)
        ensures
            final(self)@ == (KeyModel { key_id: Some(key_id@), ..old(self)@ }),
    {
        self.key_id = Some(key_id.to_owned());
    }

    /// Takes the identifier of the key away.
    pub fn remove_key_id(&mut self)
        ensures
            final(self)@ == (KeyModel { key_id: None, ..old(self)@ }),
    {
        self.key_id = None;
    }

    /// Starts a signature.
    pub fn start<'a>(&'a self) -> (started: Result<MessageSigner<'a>, JoseError>)
        ensures
            match started {
                Ok(signing) => signer_starts(self@.der, self@.algorithm.nid()) && signing@ == (
                Operation {
                    key: self@.der,
                    digest: self@.algorithm.nid(),
                    fed: Seq::empty(),
                }),
                Err(error) => !signer_starts(self@.der, self@.algorithm.nid()) && error@
                    == Fault::InvalidSignature(SignatureFault::OpenSsl),
            },
    {
        match start_signer(self.algorithm.message_digest(), &self.private_key) {
            Ok(signer) => Ok(MessageSigner { signer }),
            Err(error) => Err(JoseError::InvalidSignature(SignatureError::OpenSsl(error))),
        }
    }

    /// Return a signature of the message.
    ///
    /// Where OpenSSL starts the signature and takes the message, it still draws a salt at random,
    /// so whether it then returns a signature, and which, is not determined by the key and the
    /// message.
    pub fn sign(&self, message: &[u8]) -> (signature: Result<Vec<u8>, JoseError>)
        ensures
            match signature {
                Ok(signature) => is_signed(self@, message@, signature@),
                Err(error) => error@ == Fault::InvalidSignature(SignatureFault::OpenSsl),
            },
            is_answer_to_message(self@, message@, signature),
            ({
                ||| signature is Ok
                ||| !signer_starts(self@.der, self@.algorithm.nid())
                ||| !signer_takes_all(self@.der, self@.algorithm.nid(), message@)
                ||| exists|error: ErrorStack|
                    signature == Err::<Vec<u8>, JoseError>(
                        JoseError::InvalidSignature(SignatureError::OpenSsl(error)),
                    ) && #[trigger] signer_yields(
                        Operation { key: self@.der, digest: self@.algorithm.nid(), fed: message@ },
                        Err(error),
                    )
            }),
    {
        let ghost key = self@.der;
        let ghost digest = self@.algorithm.nid();
        let mut signing = match self.start() {
            Ok(signing) => signing,
            Err(error) => {
                return Err(error);
            },
        };
        let mut at: usize = 0;
        assert(message@.take(0) == Seq::<u8>::empty());
        while at < message.len()
            invariant
                at <= message@.len(),
                at % 1024 == 0 || at == message@.len(),
                key == self@.der,
                digest == self@.algorithm.nid(),
                signing@ == (Operation { key, digest, fed: message@.take(at as int) }),
                forall|earlier: int|
                    0 <= earlier < at && earlier % 1024 == 0 ==> signer_takes(
                        Operation { key, digest, fed: message@.take(earlier) },
                        #[trigger] chunk(message@, earlier),
                    ),
            decreases message.len() - at,
        {
            let end = chunk_end(message, at);
            match signing.update(slice_subrange(message, at, end)) {
                Ok(()) => {},
                Err(error) => {
                    assert(!signer_takes(
                        Operation { key, digest, fed: message@.take(at as int) },
                        chunk(message@, at as int),
                    ));
                    return Err(error);
                },
            }
            at = end;
        }
        assert(message@.take(at as int) == message@);
        let signature = signing.finish();
        assert(signature matches Ok(signature) ==> is_signature(
            self@.algorithm,
            Operation { key, digest, fed: message@ },
            signature@,
        ));
        signature
    }
}

} // verus!
