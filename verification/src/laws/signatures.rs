//! A signature that was made is accepted.
use crate::crypto::{
    checks_out, is_key_pair, is_rsa_key, public_key_readable, signer_starts, signer_takes,
    signer_yields, verifier_starts, verifier_takes, verifier_verdict, Operation,
};
use crate::error::{Fault, JoseError, SignatureError, SignatureFault};
use crate::laws::documents::{law_source_gives_its_key, KeySource};
use crate::rsapss::keys::{chunk, KeyModel};
use crate::rsapss::signing::{is_answer_to_message, is_signature, is_signed, made_signer};
use crate::rsapss::verifying::{answer_to_finding, finding, made_verifier, verifier_takes_all};
use crate::rsapss::{KeyOperation, RsaPssJwsAlgorithm};
use openssl::error::ErrorStack;
use vstd::prelude::*;

verus! {

/// A signature that was made of a message matches that message for a key with the other half of
/// the same RSA key and the same algorithm, in whatever pieces the message is fed in on either
/// side.
pub proof fn law_signature_is_accepted(
    numbers: Seq<nat>,
    signer: KeyModel,
    verifier: KeyModel,
    message: Seq<u8>,
    signature: Seq<u8>,
)
    requires
        signer.algorithm == verifier.algorithm,
        is_key_pair(signer.algorithm, numbers, signer.der, verifier.der),
        public_key_readable(verifier.der),
        is_signature(
            signer.algorithm,
            Operation { key: signer.der, digest: signer.algorithm.nid(), fed: message },
            signature,
        ),
    ensures
        checks_out(verifier.der, verifier.algorithm.nid(), message, signature),
        finding(verifier, message, signature) == Some(true),
{
    let key = verifier.der;
    let digest = verifier.algorithm.nid();
    let operation = Operation { key: signer.der, digest, fed: message };
    assert(is_key_pair(signer.algorithm, numbers, operation.key, key));
    assert(checks_out(key, digest, message, signature));
    assert forall|at: int| 0 <= at < message.len() && at % 1024 == 0 implies verifier_takes(
        Operation { key, digest, fed: message.take(at) },
        #[trigger] chunk(message, at),
    ) by {
        lemma_chunk(message, at);
    }
    assert(verifier_takes_all(key, digest, message));
}

/// A signature that was made by a signer is accepted by a verifier that has the other half of its
/// RSA key and the same algorithm. Each half may come from DER, PEM or a JWK, and the identifiers
/// of the keys do not matter.
pub proof fn law_signer_and_verifier_agree(
    algorithm: RsaPssJwsAlgorithm,
    numbers: Seq<nat>,
    private_source: KeySource,
    public_source: KeySource,
    signer: KeyModel,
    verifier: KeyModel,
    message: Seq<u8>,
    signature: Seq<u8>,
)
    requires
        is_rsa_key(numbers),
        private_source.has(algorithm, KeyOperation::Sign, numbers),
        public_source.has(algorithm, KeyOperation::Verify, numbers.take(2)),
        made_signer(
            algorithm,
            private_source.key(algorithm, KeyOperation::Sign),
            private_source.key_id(),
        ) == Ok::<KeyModel, Fault>(KeyModel { key_id: private_source.key_id(), ..signer }),
        made_verifier(
            algorithm,
            public_source.key(algorithm, KeyOperation::Verify),
            public_source.key_id(),
        ) == Ok::<KeyModel, Fault>(KeyModel { key_id: public_source.key_id(), ..verifier }),
        is_signed(signer, message, signature),
    ensures
        answer_to_finding(finding(verifier, message, signature)) == Ok::<(), Fault>(()),
{
    law_source_gives_its_key(algorithm, KeyOperation::Sign, numbers, private_source);
    law_source_gives_its_key(algorithm, KeyOperation::Verify, numbers.take(2), public_source);
    law_signature_is_accepted(numbers, signer, verifier, message, signature);
}

/// A message is signed wherever OpenSSL signs it: where OpenSSL starts a signature with the key and
/// takes each next piece of the message, what is answered is a signature, or the very error with
/// which OpenSSL fails to finish the signature of the whole message.
pub proof fn law_signing_fails_only_with_openssl(
    key: KeyModel,
    message: Seq<u8>,
    answer: Result<Vec<u8>, JoseError>,
)
    requires
        is_answer_to_message(key, message, answer),
        signer_starts(key.der, key.algorithm.nid()),
        forall|fed: Seq<u8>, data: Seq<u8>|
            (fed + data).is_prefix_of(message) ==> #[trigger] signer_takes(
                Operation { key: key.der, digest: key.algorithm.nid(), fed },
                data,
            ),
    ensures
        ({
            let operation = Operation {
                key: key.der,
                digest: key.algorithm.nid(),
                fed: message,
            };
            match answer {
                Ok(signature) => signer_yields(operation, Ok(signature@)),
                Err(JoseError::InvalidSignature(SignatureError::OpenSsl(error))) => signer_yields(
                    operation,
                    Err(error),
                ),
                Err(_) => false,
            }
        }),
        (forall|error: ErrorStack|
            !#[trigger] signer_yields(
                Operation { key: key.der, digest: key.algorithm.nid(), fed: message },
                Err(error),
            )) ==> answer is Ok,
{
    assert forall|at: int| 0 <= at < message.len() && at % 1024 == 0 implies signer_takes(
        Operation { key: key.der, digest: key.algorithm.nid(), fed: message.take(at) },
        #[trigger] chunk(message, at),
    ) by {
        lemma_chunk(message, at);
    }
}

/// What is signed is the whole message: where a signature is answered, OpenSSL started it with the
/// key and the digest, and can yield it of the message from its first octet to its last.
pub proof fn law_whole_message_is_signed(
    key: KeyModel,
    message: Seq<u8>,
    answer: Result<Vec<u8>, JoseError>,
)
    requires
        is_answer_to_message(key, message, answer),
        answer is Ok,
    ensures
        signer_starts(key.der, key.algorithm.nid()),
        signer_yields(
            Operation { key: key.der, digest: key.algorithm.nid(), fed: message },
            Ok(answer->Ok_0@),
        ),
{
}

/// A signature is accepted only where OpenSSL, with the key and the digest, finds that it matches
/// the whole message, and it is refused as one that does not match only where OpenSSL finds that.
pub proof fn law_verdict_is_on_the_whole_message(
    key: KeyModel,
    message: Seq<u8>,
    signature: Seq<u8>,
)
    ensures
        ({
            let digest = key.algorithm.nid();
            let verdict = verifier_verdict(
                Operation { key: key.der, digest, fed: message },
                signature,
            );
            let takes = forall|fed: Seq<u8>, data: Seq<u8>|
                (fed + data).is_prefix_of(message) ==> #[trigger] verifier_takes(
                    Operation { key: key.der, digest, fed },
                    data,
                );
            let answer = answer_to_finding(finding(key, message, signature));
            &&& answer is Ok ==> verifier_starts(key.der, digest) && verdict == Some(true)
            &&& answer == Err::<(), Fault>(Fault::InvalidSignature(SignatureFault::Mismatch))
                ==> verifier_starts(key.der, digest) && verdict == Some(false)
            &&& verifier_starts(key.der, digest) && takes ==> finding(key, message, signature)
                == verdict
            &&& verifier_starts(key.der, digest) && takes ==> (answer is Ok <==> verdict == Some(
                true,
            ))
            &&& !verifier_starts(key.der, digest) ==> finding(key, message, signature) is None
        }),
        answer_to_finding(Some(true)) is Ok,
        answer_to_finding(Some(false)) == Err::<(), Fault>(
            Fault::InvalidSignature(SignatureFault::Mismatch),
        ),
        answer_to_finding(None) == Err::<(), Fault>(
            Fault::InvalidSignature(SignatureFault::OpenSsl),
        ),
{
    let digest = key.algorithm.nid();
    let takes = forall|fed: Seq<u8>, data: Seq<u8>|
        (fed + data).is_prefix_of(message) ==> #[trigger] verifier_takes(
            Operation { key: key.der, digest, fed },
            data,
        );
    if takes {
        assert forall|at: int| 0 <= at < message.len() && at % 1024 == 0 implies verifier_takes(
            Operation { key: key.der, digest, fed: message.take(at) },
            #[trigger] chunk(message, at),
        ) by {
            lemma_chunk(message, at);
        }
    }
}

/// Where a check of a message finds nothing, OpenSSL did not start it, did not take some piece of
/// the message, or came to no verdict on the whole of it.
pub proof fn law_no_finding_is_openssls(key: KeyModel, message: Seq<u8>, signature: Seq<u8>)
    requires
        finding(key, message, signature) is None,
    ensures
        ({
            let digest = key.algorithm.nid();
            ||| !verifier_starts(key.der, digest)
            ||| verifier_verdict(
                Operation { key: key.der, digest, fed: message },
                signature,
            ) is None
            ||| exists|fed: Seq<u8>, data: Seq<u8>|
                (fed + data).is_prefix_of(message) && !#[trigger] verifier_takes(
                    Operation { key: key.der, digest, fed },
                    data,
                )
        }),
{
    let digest = key.algorithm.nid();
    if verifier_starts(key.der, digest) && !verifier_takes_all(key.der, digest, message) {
        let at = choose|at: int|
            0 <= at < message.len() && at % 1024 == 0 && !verifier_takes(
                Operation { key: key.der, digest, fed: message.take(at) },
                #[trigger] chunk(message, at),
            );
        lemma_chunk(message, at);
        assert(!verifier_takes(
            Operation { key: key.der, digest, fed: message.take(at) },
            chunk(message, at),
        ));
    }
}

/// What stands in front of a piece of a message and the piece are again the start of the message.
proof fn lemma_chunk(message: Seq<u8>, at: int)
    requires
        0 <= at < message.len(),
    ensures
        (message.take(at) + chunk(message, at)).is_prefix_of(message),
{
    let end = if at + 1024 <= message.len() {
        at + 1024
    } else {
        message.len() as int
    };
    assert(message.take(at) + chunk(message, at) == message.take(end));
}

/// The pieces of a message, one after the other from its start, are the message: each begins where
/// the one in front of it ends, none is empty and none has more than 1024 octets.
pub proof fn law_pieces_are_the_message(message: Seq<u8>, at: int)
    requires
        0 <= at < message.len(),
    ensures
        0 < chunk(message, at).len() <= 1024,
        chunk(message, at).len() == 1024 || at + chunk(message, at).len() == message.len(),
        message.take(at) + chunk(message, at) == message.take(at + chunk(message, at).len()),
{
}

} // verus!
