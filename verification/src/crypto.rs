//! RSA keys and signatures, as OpenSSL has them.
//!
//! What is said here of OpenSSL is said of the one that is linked, which is the same for all calls.
use crate::der::number::shortest_octets;
use crate::rsapss::pkcs1::{rsa_private_key, rsa_public_key};
use crate::rsapss::pkcs8::holds_key;
use crate::rsapss::RsaPssJwsAlgorithm;
use openssl::error::ErrorStack;
use openssl::hash::MessageDigest;
use openssl::pkey::{PKey, Private, Public};
use openssl::sign::{Signer, Verifier};
use vstd::prelude::*;

verus! {

/// `openssl::error::ErrorStack`: what OpenSSL reports of a call that failed.
#[verifier::external_type_specification]
#[verifier::external_body]
pub struct ExErrorStack(ErrorStack);

/// `openssl::hash::MessageDigest`: a digest.
#[verifier::external_type_specification]
#[verifier::external_body]
pub struct ExMessageDigest(MessageDigest);

/// `openssl::pkey::Private`: marks a key with private components.
#[verifier::external_type_specification]
#[verifier::external_body]
pub struct ExPrivate(Private);

/// `openssl::pkey::Public`: marks a key with public components only.
#[verifier::external_type_specification]
#[verifier::external_body]
pub struct ExPublic(Public);

/// `openssl::pkey::PKey`: a key that OpenSSL holds.
#[verifier::external_type_specification]
#[verifier::external_body]
#[verifier::reject_recursive_types(T)]
pub struct ExPKey<T>(PKey<T>);

/// `openssl::sign::Signer`: a signature in the making.
#[verifier::external_type_specification]
#[verifier::external_body]
pub struct ExSigner<'a>(Signer<'a>);

/// `openssl::sign::Verifier`: a check of a signature in the making.
#[verifier::external_type_specification]
#[verifier::external_body]
pub struct ExVerifier<'a>(Verifier<'a>);

/// A digest by the number that OpenSSL gives it, as `MessageDigest::type_` returns it.
pub uninterp spec fn digest_nid(digest: MessageDigest) -> int;

/// The DER that a private key was read from.
pub uninterp spec fn private_key_der(key: PKey<Private>) -> Seq<u8>;

/// The DER that a public key was read from.
pub uninterp spec fn public_key_der(key: PKey<Public>) -> Seq<u8>;

/// Whether `PKey::private_key_from_der` reads a key from DER.
pub uninterp spec fn private_key_readable(der: Seq<u8>) -> bool;

/// Whether `PKey::public_key_from_der` reads a key from DER.
pub uninterp spec fn public_key_readable(der: Seq<u8>) -> bool;

/// The size of the modulus that `PKeyRef::rsa` and `RsaRef::size` give of the private key read
/// from DER, in octets, where it is an RSA key.
pub uninterp spec fn private_key_size(der: Seq<u8>) -> Option<u32>;

/// The size of the modulus that `PKeyRef::rsa` and `RsaRef::size` give of the public key read from
/// DER, in octets, where it is an RSA key.
pub uninterp spec fn public_key_size(der: Seq<u8>) -> Option<u32>;

/// A signature or a check of one in the making.
pub struct Operation {
    /// The DER of the key.
    pub key: Seq<u8>,
    /// The number of the digest.
    pub digest: int,
    /// The part of the message that was fed in.
    pub fed: Seq<u8>,
}

/// What a signature in the making holds.
pub uninterp spec fn signer_operation(signer: Signer) -> Operation;

/// What a check in the making holds.
pub uninterp spec fn verifier_operation(verifier: Verifier) -> Operation;

/// Whether `Signer::new` starts a signature with a key and a digest.
pub uninterp spec fn signer_starts(key: Seq<u8>, digest: int) -> bool;

/// Whether `Signer::update` takes more of the message.
pub uninterp spec fn signer_takes(operation: Operation, data: Seq<u8>) -> bool;

/// Whether `Signer::sign_to_vec` can come to an outcome, a signature or an error. Of one message
/// there are many signatures, as a salt drawn at random goes into each.
pub uninterp spec fn signer_yields(
    operation: Operation,
    outcome: Result<Seq<u8>, ErrorStack>,
) -> bool;

/// Whether `Verifier::new` starts a check with a key and a digest.
pub uninterp spec fn verifier_starts(key: Seq<u8>, digest: int) -> bool;

/// Whether `Verifier::update` takes more of the message.
pub uninterp spec fn verifier_takes(operation: Operation, data: Seq<u8>) -> bool;

/// What `Verifier::verify` finds of a signature: whether it matches, or nothing where it fails.
pub uninterp spec fn verifier_verdict(operation: Operation, signature: Seq<u8>) -> Option<bool>;

/// Whether `d` divides `n`.
pub open spec fn divides(d: nat, n: nat) -> bool {
    d > 0 && n % d == 0
}

/// Whether `n` is a prime number.
pub open spec fn is_prime(n: nat) -> bool {
    n > 1 && forall|d: nat| #[trigger] divides(d, n) ==> d == 1 || d == n
}

/// Whether the numbers n, e, d, p, q, d mod (p - 1), d mod (q - 1) and the inverse of q mod p
/// belong together as an RSA key, of a size and with an exponent that OpenSSL works with in both
/// directions: a modulus of 256 to 2048 octets, and, where the modulus has more than 384 octets, an
/// exponent of at most 64 bits.
pub open spec fn is_rsa_key(numbers: Seq<nat>) -> bool {
    &&& numbers.len() == 8
    &&& is_prime(numbers[3])
    &&& is_prime(numbers[4])
    &&& numbers[3] != numbers[4]
    &&& numbers[0] == numbers[3] * numbers[4]
    &&& 256 <= shortest_octets(numbers[0]).len() <= 2048
    &&& 3 <= numbers[1] < numbers[0]
    &&& numbers[1] <= u64::MAX || shortest_octets(numbers[0]).len() <= 384
    &&& numbers[2] < numbers[0]
    &&& (numbers[1] * numbers[2]) as int % (numbers[3] - 1) == 1
    &&& (numbers[1] * numbers[2]) as int % (numbers[4] - 1) == 1
    &&& numbers[5] == numbers[2] as int % (numbers[3] - 1)
    &&& numbers[6] == numbers[2] as int % (numbers[4] - 1)
    &&& numbers[7] < numbers[3]
    &&& (numbers[7] * numbers[4]) as int % numbers[3] as int == 1
}

/// Whether DER documents of a private and of a public key hold the two halves of one RSA key, with
/// one algorithm.
pub open spec fn is_key_pair(
    algorithm: RsaPssJwsAlgorithm,
    numbers: Seq<nat>,
    private_key: Seq<u8>,
    public_key: Seq<u8>,
) -> bool {
    &&& is_rsa_key(numbers)
    &&& holds_key(algorithm, rsa_private_key(numbers), false, private_key)
    &&& holds_key(algorithm, rsa_public_key(numbers.take(2)), true, public_key)
}

/// Whether a check with a key goes through to its end and finds that the signature matches the
/// message, in whatever pieces the message is fed in.
pub open spec fn checks_out(
    key: Seq<u8>,
    digest: int,
    message: Seq<u8>,
    signature: Seq<u8>,
) -> bool {
    &&& verifier_starts(key, digest)
    &&& forall|fed: Seq<u8>, data: Seq<u8>| #[trigger]
        verifier_takes(Operation { key, digest, fed }, data) || !(fed + data).is_prefix_of(message)
    &&& verifier_verdict(Operation { key, digest, fed: message }, signature) == Some(true)
}

/// `MessageDigest::sha256` is the digest that OpenSSL numbers 672.
pub assume_specification[ MessageDigest::sha256 ]() -> (digest: MessageDigest)
    ensures
        digest_nid(digest) == 672,
;

/// `MessageDigest::sha384` is the digest that OpenSSL numbers 673.
pub assume_specification[ MessageDigest::sha384 ]() -> (digest: MessageDigest)
    ensures
        digest_nid(digest) == 673,
;

/// `MessageDigest::sha512` is the digest that OpenSSL numbers 674.
pub assume_specification[ MessageDigest::sha512 ]() -> (digest: MessageDigest)
    ensures
        digest_nid(digest) == 674,
;

/// Calls `PKey::private_key_from_der`. Whether it reads a key is determined by the DER alone, and
/// the key is the one that the DER holds.
#[verifier::external_body]
pub(crate) fn read_private_key(der: &[u8]) -> (key: Result<PKey<Private>, ErrorStack>)
    ensures
        key is Ok <==> private_key_readable(der@),
        key matches Ok(key) ==> private_key_der(key) == der@,
{
    PKey::private_key_from_der(der)
}

/// Calls `PKey::public_key_from_der`. Whether it reads a key is determined by the DER alone, and
/// the key is the one that the DER holds.
#[verifier::external_body]
pub(crate) fn read_public_key(der: &[u8]) -> (key: Result<PKey<Public>, ErrorStack>)
    ensures
        key is Ok <==> public_key_readable(der@),
        key matches Ok(key) ==> public_key_der(key) == der@,
{
    PKey::public_key_from_der(der)
}

/// Calls `PKeyRef::rsa` and, of what it returns, `RsaRef::size`. The outcome is determined by the
/// key alone. Of a document that holds an RSA key it is the number of octets of the modulus.
#[verifier::external_body]
pub(crate) fn private_modulus_size(key: &PKey<Private>) -> (size: Result<u32, ErrorStack>)
    ensures
        match size {
            Ok(octets) => private_key_size(private_key_der(*key)) == Some(octets),
            Err(_) => private_key_size(private_key_der(*key)) is None,
        },
        forall|algorithm: RsaPssJwsAlgorithm, numbers: Seq<nat>|
            #[trigger] holds_key(
                algorithm,
                rsa_private_key(numbers),
                false,
                private_key_der(*key),
            ) && numbers.len() == 8 && numbers[0] > 0 && size is Ok ==> size->Ok_0
                == shortest_octets(numbers[0]).len(),
{
    Ok(key.rsa()?.size())
}

/// Calls `PKeyRef::rsa` and, of what it returns, `RsaRef::size`. The outcome is determined by the
/// key alone. Of a document that holds an RSA key it is the number of octets of the modulus.
#[verifier::external_body]
pub(crate) fn public_modulus_size(key: &PKey<Public>) -> (size: Result<u32, ErrorStack>)
    ensures
        match size {
            Ok(octets) => public_key_size(public_key_der(*key)) == Some(octets),
            Err(_) => public_key_size(public_key_der(*key)) is None,
        },
        forall|algorithm: RsaPssJwsAlgorithm, numbers: Seq<nat>|
            #[trigger] holds_key(
                algorithm,
                rsa_public_key(numbers),
                true,
                public_key_der(*key),
            ) && numbers.len() == 2 && numbers[0] > 0 && size is Ok ==> size->Ok_0
                == shortest_octets(numbers[0]).len(),
{
    Ok(key.rsa()?.size())
}

/// Calls `Signer::new`. Whether it starts a signature is determined by the key and the digest.
#[verifier::external_body]
pub(crate) fn start_signer<'a>(digest: MessageDigest, key: &PKey<Private>) -> (signer: Result<
    Signer<'a>,
    ErrorStack,
>)
    ensures
        signer is Ok <==> signer_starts(private_key_der(*key), digest_nid(digest)),
        signer matches Ok(signer) ==> signer_operation(signer) == (Operation {
            key: private_key_der(*key),
            digest: digest_nid(digest),
            fed: Seq::empty(),
        }),
{
    Signer::new(digest, key)
}

/// Calls `Signer::update`. Where it succeeds, the data stands behind what was fed in before.
#[verifier::external_body]
pub(crate) fn feed_signer(signer: &mut Signer<'_>, data: &[u8]) -> (fed: Result<(), ErrorStack>)
    ensures
        fed is Ok <==> signer_takes(signer_operation(*old(signer)), data@),
        fed is Ok ==> signer_operation(*final(signer)) == (Operation {
            fed: signer_operation(*old(signer)).fed + data@,
            ..signer_operation(*old(signer))
        }),
{
    signer.update(data)
}

/// Calls `Signer::sign_to_vec`. What it returns is a signature of what was fed in. The other half
/// of an RSA key with the same algorithm, where it can be read, checks such a signature to its end
/// and finds that it matches. Whether a signature is returned is left open: a salt is drawn at
/// random. What is left open too is a modulus of more than 2048 octets, and an exponent of more
/// than 64 bits where the modulus has more than 384 octets, which OpenSSL does not check
/// signatures with.
#[verifier::external_body]
pub(crate) fn finish_signer(signer: &Signer<'_>) -> (signature: Result<Vec<u8>, ErrorStack>)
    ensures
        match signature {
            Ok(signature) => signer_yields(signer_operation(*signer), Ok(signature@)),
            Err(error) => signer_yields(signer_operation(*signer), Err(error)),
        },
        signature matches Ok(signature) ==> forall|
            algorithm: RsaPssJwsAlgorithm,
            numbers: Seq<nat>,
            public_key: Seq<u8>,
        | #[trigger]
            is_key_pair(
                algorithm,
                numbers,
                signer_operation(*signer).key,
                public_key,
            ) && public_key_readable(public_key) && signer_operation(*signer).digest
                == algorithm.nid() ==> checks_out(
                public_key,
                signer_operation(*signer).digest,
                signer_operation(*signer).fed,
                signature@,
            ),
{
    signer.sign_to_vec()
}

/// Calls `Verifier::new`. Whether it starts a check is determined by the key and the digest.
#[verifier::external_body]
pub(crate) fn start_verifier<'a>(digest: MessageDigest, key: &'a PKey<Public>) -> (verifier: Result<
    Verifier<'a>,
    ErrorStack,
>)
    ensures
        verifier is Ok <==> verifier_starts(public_key_der(*key), digest_nid(digest)),
        verifier matches Ok(verifier) ==> verifier_operation(verifier) == (Operation {
            key: public_key_der(*key),
            digest: digest_nid(digest),
            fed: Seq::empty(),
        }),
{
    Verifier::new(digest, key)
}

/// Calls `Verifier::update`. Where it succeeds, the data stands behind what was fed in before.
#[verifier::external_body]
pub(crate) fn feed_verifier(verifier: &mut Verifier<'_>, data: &[u8]) -> (fed: Result<
    (),
    ErrorStack,
>)
    ensures
        fed is Ok <==> verifier_takes(verifier_operation(*old(verifier)), data@),
        fed is Ok ==> verifier_operation(*final(verifier)) == (Operation {
            fed: verifier_operation(*old(verifier)).fed + data@,
            ..verifier_operation(*old(verifier))
        }),
{
    verifier.update(data)
}

/// Calls `Verifier::verify`. What it finds is determined by the key, the digest, what was fed in
/// and the signature.
#[verifier::external_body]
pub(crate) fn finish_verifier(verifier: &Verifier<'_>, signature: &[u8]) -> (verdict: Result<
    bool,
    ErrorStack,
>)
    ensures
        match verdict {
            Ok(matches) => verifier_verdict(verifier_operation(*verifier), signature@) == Some(
                matches,
            ),
            Err(_) => verifier_verdict(verifier_operation(*verifier), signature@) is None,
        },
{
    verifier.verify(signature)
}

} // verus!
