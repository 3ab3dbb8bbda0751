use openssl::bn::{BigNum, BigNumRef};
use openssl::error::ErrorStack;
use openssl::hash::MessageDigest;
use openssl::pkey::{Id, PKey, Private};
use openssl::rsa::Rsa;
use openssl::sign::Verifier;
use rsapss_jws::der::builder::DerBuilder;
use rsapss_jws::der::oid::ObjectIdentifier;
use rsapss_jws::der::types::{DerClass, DerType};
use rsapss_jws::error::{JoseError, KeyFormatError, SignatureError};
use rsapss_jws::jwk::{Jwk, JwkValue};
use rsapss_jws::rsapss::pkcs1::{to_rsa_private_key, to_rsa_public_key};
use rsapss_jws::rsapss::signing::{answer_to_signature, RsaPssJwsSigner};
use rsapss_jws::rsapss::verifying::{answer_to_verdict, RsaPssJwsVerifier};
use rsapss_jws::rsapss::RsaPssJwsAlgorithm;

const ALGORITHMS: [RsaPssJwsAlgorithm; 3] = [
    RsaPssJwsAlgorithm::PS256,
    RsaPssJwsAlgorithm::PS384,
    RsaPssJwsAlgorithm::PS512,
];

const PUBLIC_NAMES: [&str; 2] = ["n", "e"];
const PRIVATE_NAMES: [&str; 8] = ["n", "e", "d", "p", "q", "dp", "dq", "qi"];

fn generate(bits: u32) -> Rsa<Private> {
    Rsa::generate(bits).unwrap()
}

fn numbers(rsa: &Rsa<Private>) -> Vec<Vec<u8>> {
    let all: [&BigNumRef; 8] = [
        rsa.n(),
        rsa.e(),
        rsa.d(),
        rsa.p().unwrap(),
        rsa.q().unwrap(),
        rsa.dmp1().unwrap(),
        rsa.dmq1().unwrap(),
        rsa.iqmp().unwrap(),
    ];
    all.iter().map(|n| n.to_vec()).collect()
}

fn public_numbers(rsa: &Rsa<Private>) -> Vec<Vec<u8>> {
    numbers(rsa).into_iter().take(2).collect()
}

fn jwk(names: &[&str], numbers: &[Vec<u8>]) -> Jwk {
    let mut jwk = Jwk::new("RSA");
    for (name, number) in names.iter().zip(numbers) {
        let text = base64::encode_config(number, base64::URL_SAFE_NO_PAD);
        jwk.set_parameter(name, JwkValue::Text(text));
    }
    jwk
}

fn private_jwk(rsa: &Rsa<Private>) -> Jwk {
    jwk(&PRIVATE_NAMES, &numbers(rsa))
}

fn public_jwk(rsa: &Rsa<Private>) -> Jwk {
    jwk(&PUBLIC_NAMES, &public_numbers(rsa))
}

fn pem(label: &str, data: &[u8]) -> Vec<u8> {
    let text = base64::encode(data);
    let mut document = format!("-----BEGIN {}-----\n", label).into_bytes();
    for line in text.as_bytes().chunks(64) {
        document.extend_from_slice(line);
        document.push(b'\n');
    }
    document.extend_from_slice(format!("-----END {}-----\n", label).as_bytes());
    document
}

fn check(signer: &RsaPssJwsSigner, verifier: &RsaPssJwsVerifier) {
    let input = b"abcde12345";
    let signature = signer.sign(input).unwrap();
    verifier.verify(input, &signature).unwrap();
}

fn digest(algorithm: RsaPssJwsAlgorithm) -> MessageDigest {
    match algorithm {
        RsaPssJwsAlgorithm::PS256 => MessageDigest::sha256(),
        RsaPssJwsAlgorithm::PS384 => MessageDigest::sha384(),
        RsaPssJwsAlgorithm::PS512 => MessageDigest::sha512(),
    }
}

fn openssl_verdict(
    algorithm: RsaPssJwsAlgorithm,
    rsa: &Rsa<Private>,
    message: &[u8],
    signature: &[u8],
) -> bool {
    let der = algorithm.key_from_numbers(&public_numbers(rsa), true);
    let key = PKey::public_key_from_der(&der).unwrap();
    let mut verifier = Verifier::new(digest(algorithm), &key).unwrap();
    verifier.update(message).unwrap();
    verifier.verify(signature).unwrap()
}

fn key_error<T>(made: Result<T, JoseError>) -> KeyFormatError {
    match made {
        Err(JoseError::InvalidKeyFormat(error)) => error,
        Err(JoseError::InvalidSignature(_)) => panic!("not an error of a key"),
        Ok(_) => panic!("no error"),
    }
}

#[test]
fn sign_and_verify_rsspss_jwt() {
    let rsa = generate(2048);
    for alg in &ALGORITHMS {
        let signer = alg.signer_from_jwk(&private_jwk(&rsa)).unwrap();
        let verifier = alg.verifier_from_jwk(&public_jwk(&rsa)).unwrap();
        check(&signer, &verifier);
    }
}

#[test]
fn sign_and_verify_rsspss_pkcs8_pem() {
    let rsa = generate(2048);
    for alg in &ALGORITHMS {
        let private_key = pem("PRIVATE KEY", &alg.key_from_numbers(&numbers(&rsa), false));
        let public_key = pem("PUBLIC KEY", &alg.key_from_numbers(&public_numbers(&rsa), true));
        let signer = alg.signer_from_pem(&private_key).unwrap();
        let verifier = alg.verifier_from_pem(&public_key).unwrap();
        check(&signer, &verifier);
    }
}

#[test]
fn sign_and_verify_rsspss_pkcs8_der() {
    let rsa = generate(2048);
    for alg in &ALGORITHMS {
        let private_key = alg.key_from_numbers(&numbers(&rsa), false);
        let public_key = alg.key_from_numbers(&public_numbers(&rsa), true);
        let signer = alg.signer_from_der(&private_key).unwrap();
        let verifier = alg.verifier_from_der(&public_key).unwrap();
        check(&signer, &verifier);
    }
}

#[test]
fn openssl_reads_keys_with_their_algorithm() {
    let rsa = generate(2048);
    for alg in &ALGORITHMS {
        let der = alg.key_from_numbers(&numbers(&rsa), false);
        let key = PKey::private_key_from_der(&der).unwrap();
        assert_eq!(key.id(), Id::RSA_PSS);
        let bare = rsa.private_key_to_der().unwrap();
        assert_eq!(key.rsa().unwrap().private_key_to_der().unwrap(), bare);
        let der = alg.key_from_numbers(&public_numbers(&rsa), true);
        let key = PKey::public_key_from_der(&der).unwrap();
        assert_eq!(key.id(), Id::RSA_PSS);
        let bare = rsa.public_key_to_der_pkcs1().unwrap();
        assert_eq!(key.rsa().unwrap().public_key_to_der_pkcs1().unwrap(), bare);
    }
}

#[test]
fn openssl_writes_bare_keys_alike() {
    let rsa = generate(2048);
    assert_eq!(
        to_rsa_private_key(&numbers(&rsa)),
        rsa.private_key_to_der().unwrap()
    );
    assert_eq!(
        to_rsa_public_key(&public_numbers(&rsa)),
        rsa.public_key_to_der_pkcs1().unwrap()
    );
}

#[test]
fn every_document_of_a_key_gives_the_key() {
    let rsa = generate(2048);
    let alg = RsaPssJwsAlgorithm::PS384;
    let bare_private = rsa.private_key_to_der().unwrap();
    let bare_public = rsa.public_key_to_der_pkcs1().unwrap();
    let private_info = alg.to_pkcs8(&bare_private, false);
    let public_info = alg.to_pkcs8(&bare_public, true);
    let signers = [
        alg.signer_from_jwk(&private_jwk(&rsa)).unwrap(),
        alg.signer_from_der(&private_info).unwrap(),
        alg.signer_from_der(&bare_private).unwrap(),
        alg.signer_from_pem(&pem("PRIVATE KEY", &private_info)).unwrap(),
        alg.signer_from_pem(&pem("RSA-PSS PRIVATE KEY", &private_info)).unwrap(),
        alg.signer_from_pem(&pem("RSA PRIVATE KEY", &bare_private)).unwrap(),
    ];
    let verifiers = [
        alg.verifier_from_jwk(&public_jwk(&rsa)).unwrap(),
        alg.verifier_from_jwk(&private_jwk(&rsa)).unwrap(),
        alg.verifier_from_der(&public_info).unwrap(),
        alg.verifier_from_der(&bare_public).unwrap(),
        alg.verifier_from_pem(&pem("PUBLIC KEY", &public_info)).unwrap(),
        alg.verifier_from_pem(&pem("RSA-PSS PUBLIC KEY", &public_info)).unwrap(),
        alg.verifier_from_pem(&pem("RSA PUBLIC KEY", &bare_public)).unwrap(),
    ];
    for signer in &signers {
        let signature = signer.sign(b"message").unwrap();
        assert!(openssl_verdict(alg, &rsa, b"message", &signature));
        for verifier in &verifiers {
            verifier.verify(b"message", &signature).unwrap();
        }
    }
}

#[test]
fn messages_of_many_lengths_are_signed_whole() {
    let rsa = generate(2048);
    let alg = RsaPssJwsAlgorithm::PS256;
    let signer = alg.signer_from_jwk(&private_jwk(&rsa)).unwrap();
    let verifier = alg.verifier_from_jwk(&public_jwk(&rsa)).unwrap();
    for length in [0usize, 1, 1023, 1024, 1025, 2048, 3000] {
        let message: Vec<u8> = (0..length).map(|i| (i % 251) as u8).collect();
        let signature = signer.sign(&message).unwrap();
        assert_eq!(signature.len(), 256);
        assert!(openssl_verdict(alg, &rsa, &message, &signature));
        verifier.verify(&message, &signature).unwrap();
        let mut longer = message.clone();
        longer.push(0);
        assert!(!openssl_verdict(alg, &rsa, &longer, &signature));
    }
}

#[test]
fn salts_differ_and_so_do_signatures() {
    let rsa = generate(2048);
    for alg in &ALGORITHMS {
        let signer = alg.signer_from_jwk(&private_jwk(&rsa)).unwrap();
        let first = signer.sign(b"message").unwrap();
        let second = signer.sign(b"message").unwrap();
        assert_ne!(first, second);
        assert!(openssl_verdict(*alg, &rsa, b"message", &first));
        assert!(openssl_verdict(*alg, &rsa, b"message", &second));
    }
}

fn signature_error(outcome: Result<(), JoseError>) -> SignatureError {
    match outcome {
        Err(JoseError::InvalidSignature(error)) => error,
        Err(JoseError::InvalidKeyFormat(_)) => panic!("not an error of a signature"),
        Ok(()) => panic!("no error"),
    }
}

#[test]
fn signatures_that_do_not_match_are_refused() {
    let rsa = generate(2048);
    let other = generate(2048);
    for alg in &ALGORITHMS {
        let signer = alg.signer_from_jwk(&private_jwk(&rsa)).unwrap();
        let verifier = alg.verifier_from_jwk(&public_jwk(&rsa)).unwrap();
        let signature = signer.sign(b"message").unwrap();
        verifier.verify(b"message", &signature).unwrap();

        let error = signature_error(verifier.verify(b"massage", &signature));
        assert!(matches!(error, SignatureError::Mismatch));
        assert_eq!(error.message().unwrap(), "The signature does not match.");

        let mut changed = signature.clone();
        changed[100] ^= 1;
        assert!(verifier.verify(b"message", &changed).is_err());
        assert!(verifier.verify(b"message", &[]).is_err());

        let stranger = alg.verifier_from_jwk(&public_jwk(&other)).unwrap();
        assert!(stranger.verify(b"message", &signature).is_err());
    }
}

#[test]
fn signatures_of_another_algorithm_are_refused() {
    let rsa = generate(2048);
    let signer = RsaPssJwsAlgorithm::PS256.signer_from_jwk(&private_jwk(&rsa)).unwrap();
    let verifier = RsaPssJwsAlgorithm::PS512.verifier_from_jwk(&public_jwk(&rsa)).unwrap();
    let signature = signer.sign(b"message").unwrap();
    assert!(verifier.verify(b"message", &signature).is_err());
}

#[test]
fn verdicts_are_answered() {
    assert!(answer_to_verdict(Ok(true)).is_ok());
    assert!(matches!(
        signature_error(answer_to_verdict(Ok(false))),
        SignatureError::Mismatch
    ));
    let error = signature_error(answer_to_verdict(Err(ErrorStack::get())));
    assert!(matches!(error, SignatureError::OpenSsl(_)));
    assert_eq!(error.message(), None);
}

#[test]
fn signatures_are_answered_as_they_are() {
    assert_eq!(answer_to_signature(Ok(vec![1, 2, 3])).unwrap(), vec![1, 2, 3]);
    assert!(matches!(
        answer_to_signature(Err(ErrorStack::get())),
        Err(JoseError::InvalidSignature(SignatureError::OpenSsl(_)))
    ));
}

#[test]
fn messages_may_be_fed_in_pieces() {
    let rsa = generate(2048);
    let alg = RsaPssJwsAlgorithm::PS384;
    let mut signer = alg.signer_from_jwk(&private_jwk(&rsa)).unwrap();
    let mut verifier = alg.verifier_from_jwk(&public_jwk(&rsa)).unwrap();
    signer.set_key_id("one");
    verifier.set_key_id("other");
    let message: Vec<u8> = (0..3000).map(|i| (i % 251) as u8).collect();

    let mut signing = signer.start().unwrap();
    for piece in message.chunks(7) {
        signing.update(piece).unwrap();
    }
    signing.update(&[]).unwrap();
    let signature = signing.finish().unwrap();

    verifier.verify(&message, &signature).unwrap();
    let mut check = verifier.start().unwrap();
    for piece in message.chunks(1000) {
        check.update(piece).unwrap();
    }
    check.finish(&signature).unwrap();

    let mut check = verifier.start().unwrap();
    check.update(&message[1..]).unwrap();
    assert!(matches!(
        signature_error(check.finish(&signature)),
        SignatureError::Mismatch
    ));
}

#[test]
fn private_keys_with_attributes_are_used() {
    let rsa = generate(2048);
    let alg = RsaPssJwsAlgorithm::PS256;
    let plain = alg.key_from_numbers(&numbers(&rsa), false);
    let mut builder = DerBuilder::new();
    builder.begin(DerType::Other(DerClass::ContextSpecific, 0));
    builder.begin(DerType::Sequence);
    builder.append_object_identifier(&ObjectIdentifier::from_slice(&[2, 5, 29, 15]));
    builder.begin(DerType::Other(DerClass::Universal, 17));
    builder.append_bit_string_from_slice(&[0x80], 7);
    builder.end();
    builder.end();
    builder.end();
    let attributes = builder.build();
    let length = plain.len() - 4 + attributes.len();
    let mut document = vec![0x30, 0x82, (length / 256) as u8, (length % 256) as u8];
    document.extend_from_slice(&plain[4..]);
    document.extend_from_slice(&attributes);

    assert_eq!(alg.key_from_der(&document, false).unwrap(), document);
    let verifier = alg.verifier_from_jwk(&public_jwk(&rsa)).unwrap();
    check(&alg.signer_from_der(&document).unwrap(), &verifier);
    check(&alg.signer_from_pem(&pem("PRIVATE KEY", &document)).unwrap(), &verifier);
}

#[test]
fn exponents_of_more_than_64_bits_are_used() {
    let e = BigNum::from_dec_str("4722366482869645213711").unwrap();
    let rsa = Rsa::generate_with_e(2048, &e).unwrap();
    let alg = RsaPssJwsAlgorithm::PS256;
    let signer = alg.signer_from_jwk(&private_jwk(&rsa)).unwrap();
    let verifier = alg.verifier_from_jwk(&public_jwk(&rsa)).unwrap();
    check(&signer, &verifier);
}

#[test]
fn algorithms_do_not_accept_each_others_keys() {
    let rsa = generate(2048);
    for alg in &ALGORITHMS {
        for other in &ALGORITHMS {
            let private_key = other.key_from_numbers(&numbers(&rsa), false);
            let public_key = other.key_from_numbers(&public_numbers(&rsa), true);
            let signer = alg.signer_from_der(&private_key);
            let verifier = alg.verifier_from_der(&public_key);
            if alg == other {
                assert!(signer.is_ok());
                assert!(verifier.is_ok());
            } else {
                match key_error(signer) {
                    KeyFormatError::IncompatibleOid(oid) => assert_eq!(oid, other.digest()),
                    _ => panic!("another error"),
                }
                match key_error(verifier) {
                    KeyFormatError::IncompatibleOid(oid) => assert_eq!(oid, other.digest()),
                    _ => panic!("another error"),
                }
            }
        }
    }
}

#[test]
fn short_keys_are_refused() {
    let alg = RsaPssJwsAlgorithm::PS256;
    for bits in [1024u32, 2040] {
        let rsa = generate(bits);
        let bare_private = rsa.private_key_to_der().unwrap();
        let bare_public = rsa.public_key_to_der_pkcs1().unwrap();
        assert!(matches!(
            key_error(alg.signer_from_jwk(&private_jwk(&rsa))),
            KeyFormatError::KeyTooShort
        ));
        assert!(matches!(
            key_error(alg.verifier_from_jwk(&public_jwk(&rsa))),
            KeyFormatError::KeyTooShort
        ));
        assert!(matches!(
            key_error(alg.signer_from_der(&bare_private)),
            KeyFormatError::KeyTooShort
        ));
        assert!(matches!(
            key_error(alg.verifier_from_der(&bare_public)),
            KeyFormatError::KeyTooShort
        ));
        assert!(matches!(
            key_error(alg.signer_from_pem(&pem("RSA PRIVATE KEY", &bare_private))),
            KeyFormatError::KeyTooShort
        ));
        assert!(matches!(
            key_error(alg.verifier_from_pem(&pem("RSA PUBLIC KEY", &bare_public))),
            KeyFormatError::KeyTooShort
        ));
    }
}

#[test]
fn a_modulus_that_fills_256_octets_is_long_enough() {
    let alg = RsaPssJwsAlgorithm::PS256;
    let rsa = generate(2041);
    let signer = alg.signer_from_jwk(&private_jwk(&rsa)).unwrap();
    let verifier = alg.verifier_from_jwk(&public_jwk(&rsa)).unwrap();
    check(&signer, &verifier);
    assert!(alg.check_key(Ok(256)).is_ok());
    assert!(matches!(alg.check_key(Ok(255)), Err(KeyFormatError::KeyTooShort)));
    assert!(matches!(alg.check_key(Ok(0)), Err(KeyFormatError::KeyTooShort)));
    assert!(matches!(
        alg.check_key(Err(ErrorStack::get())),
        Err(KeyFormatError::OpenSsl(_))
    ));
}

#[test]
fn errors_of_openssl_are_handed_on() {
    let alg = RsaPssJwsAlgorithm::PS256;
    let failure = PKey::private_key_from_der(b"no key").unwrap_err();
    assert!(!failure.errors().is_empty());
    let text = failure.to_string();
    match alg.check_key(Err(failure.clone())) {
        Err(KeyFormatError::OpenSsl(error)) => assert_eq!(error.to_string(), text),
        _ => panic!("another outcome"),
    }
    match signature_error(answer_to_verdict(Err(failure))) {
        SignatureError::OpenSsl(error) => assert_eq!(error.to_string(), text),
        SignatureError::Mismatch => panic!("another error"),
    }
}

#[test]
fn what_openssl_does_not_read_is_refused() {
    let alg = RsaPssJwsAlgorithm::PS512;
    assert!(matches!(
        key_error(alg.signer_from_der(b"no key")),
        KeyFormatError::OpenSsl(_)
    ));
    assert!(matches!(
        key_error(alg.verifier_from_der(b"no key")),
        KeyFormatError::OpenSsl(_)
    ));
    assert!(matches!(
        key_error(alg.signer_from_pem(&pem("RSA PRIVATE KEY", b"no key"))),
        KeyFormatError::OpenSsl(_)
    ));
    assert!(matches!(
        key_error(alg.verifier_from_pem(&pem("RSA PUBLIC KEY", b"no key"))),
        KeyFormatError::OpenSsl(_)
    ));
}

#[test]
fn keys_of_other_algorithms_are_refused() {
    let rsa = generate(2048);
    let alg = RsaPssJwsAlgorithm::PS256;
    let key = PKey::from_rsa(rsa).unwrap();
    let private_info = key.private_key_to_pkcs8().unwrap();
    let public_info = key.public_key_to_der().unwrap();
    for error in [
        key_error(alg.signer_from_der(&private_info)),
        key_error(alg.verifier_from_der(&public_info)),
        key_error(alg.signer_from_pem(&pem("PRIVATE KEY", &private_info))),
        key_error(alg.verifier_from_pem(&pem("PUBLIC KEY", &public_info))),
    ] {
        assert_eq!(
            error.message().unwrap(),
            "Incompatible oid: 1.2.840.113549.1.1.1"
        );
    }
}

#[test]
fn signers_and_verifiers_keep_a_key_identifier() {
    let rsa = generate(2048);
    let alg = RsaPssJwsAlgorithm::PS256;
    let mut private_key = private_jwk(&rsa);
    private_key.set_key_id("key 1");
    let mut public_key = public_jwk(&rsa);
    public_key.set_key_id("key 2");

    let mut signer = alg.signer_from_jwk(&private_key).unwrap();
    assert_eq!(signer.key_id(), Some("key 1"));
    signer.set_key_id("other");
    assert_eq!(signer.key_id(), Some("other"));
    signer.remove_key_id();
    assert_eq!(signer.key_id(), None);
    assert_eq!(*signer.algorithm(), alg);

    let mut verifier = alg.verifier_from_jwk(&public_key).unwrap();
    assert_eq!(verifier.key_id(), Some("key 2"));
    verifier.set_key_id("other");
    assert_eq!(verifier.key_id(), Some("other"));
    verifier.unset_key_id();
    assert_eq!(verifier.key_id(), None);
    assert_eq!(*verifier.algorithm(), alg);
    check(&signer, &verifier);

    let der = rsa.private_key_to_der().unwrap();
    assert_eq!(alg.signer_from_der(&der).unwrap().key_id(), None);
}
