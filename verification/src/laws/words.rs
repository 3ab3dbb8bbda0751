//! What errors say in words.
use crate::error::{KeyFault, SignatureFault};
use crate::message::{signature_words, words};
use crate::rsapss::{KeyOperation, RsaPssJwsAlgorithm};
use crate::text::{decimal, dotted};
use vstd::prelude::*;

verus! {

/// The number that decimal digits stand for.
pub open spec fn digits_value(digits: Seq<char>) -> int
    decreases digits.len(),
{
    if digits.len() == 0 {
        0
    } else {
        digits_value(digits.drop_last()) * 10 + (digits.last() as int - '0' as int)
    }
}

/// A number in decimal is digits only, stands for the number, and has no zero in front but for
/// zero itself.
pub proof fn law_decimal_stands_for_its_number(n: nat)
    ensures
        decimal(n).len() > 0,
        forall|i: int| 0 <= i < decimal(n).len() ==> '0' <= #[trigger] decimal(n)[i] <= '9',
        digits_value(decimal(n)) == n,
        n > 0 ==> decimal(n)[0] != '0',
        n == 0 ==> decimal(n).len() == 1,
    decreases n,
{
    reveal_with_fuel(digits_value, 2);
    if n < 10 {
        assert(decimal(n).drop_last() == Seq::<char>::empty());
    } else {
        law_decimal_stands_for_its_number(n / 10);
        assert(decimal(n).drop_last() == decimal(n / 10));
    }
}

/// Numbers with dots between them: one more number brings a dot and that number.
pub proof fn law_dots_stand_between_numbers(numbers: Seq<u64>, n: u64)
    ensures
        dotted(Seq::empty()) == Seq::<char>::empty(),
        dotted(seq![n]) == decimal(n as nat),
        numbers.len() > 0 ==> dotted(numbers.push(n)) == dotted(numbers) + seq!['.'] + decimal(
            n as nat,
        ),
{
    assert(numbers.push(n).drop_last() == numbers);
    assert(dotted(numbers).push('.') == dotted(numbers) + seq!['.']);
}

/// Each fault of a key that the library finds itself says what was found, behind words of its own.
pub proof fn law_faults_say_what_was_found(
    octet: u8,
    arcs: Seq<u64>,
    text: Seq<char>,
)
    ensures
        words(KeyFault::UnrecognizedVersion(octet)) == Some(
            "Unrecognized version: "@ + decimal(octet as nat),
        ),
        words(KeyFault::IncompatibleOid(arcs)) == Some("Incompatible oid: "@ + dotted(arcs)),
        words(KeyFault::IncompatibleSaltLength(octet)) == Some(
            "Incompatible salt length: "@ + decimal(octet as nat),
        ),
        words(KeyFault::InappropriateAlgorithm(text)) == Some("Inappropriate algorithm: "@ + text),
        words(KeyFault::KeyTypeMismatch(text)) == Some("A parameter kty must be RSA: "@ + text),
        words(KeyFault::KeyUseMismatch(text)) == Some("A parameter use must be sig: "@ + text),
        words(KeyFault::ParameterNotString(text)) == Some(
            "A parameter "@ + text + " must be a string."@,
        ),
        words(KeyFault::ParameterMissing(text)) == Some(
            "A parameter "@ + text + " is required."@,
        ),
        words(KeyFault::AlgorithmMismatch(RsaPssJwsAlgorithm::PS256, text)) == Some(
            "A parameter alg must be "@ + "PS256"@ + " but "@ + text,
        ),
        words(KeyFault::AlgorithmMismatch(RsaPssJwsAlgorithm::PS384, text)) == Some(
            "A parameter alg must be "@ + "PS384"@ + " but "@ + text,
        ),
        words(KeyFault::AlgorithmMismatch(RsaPssJwsAlgorithm::PS512, text)) == Some(
            "A parameter alg must be "@ + "PS512"@ + " but "@ + text,
        ),
{
}

/// The faults that carry nothing have words of their own, and those of Base64 and OpenSSL none.
pub proof fn law_faults_have_words()
    ensures
        words(KeyFault::InvalidPemFormat) == Some("Invalid PEM format."@),
        words(KeyFault::MismatchedPemLabels) == Some(
            "Mismatched the beginning and ending label."@,
        ),
        words(KeyFault::InvalidPemContents) == Some("Invalid PEM contents."@),
        words(KeyFault::KeyTooShort) == Some("key length must be 2048 or more."@),
        words(KeyFault::KeyOperationMissing(KeyOperation::Sign)) == Some(
            "A parameter key_ops must contains "@ + "sign"@ + "."@,
        ),
        words(KeyFault::KeyOperationMissing(KeyOperation::Verify)) == Some(
            "A parameter key_ops must contains "@ + "verify"@ + "."@,
        ),
        words(KeyFault::Base64) is None,
        words(KeyFault::OpenSsl) is None,
        signature_words(SignatureFault::Mismatch) == Some("The signature does not match."@),
        signature_words(SignatureFault::OpenSsl) is None,
{
}

} // verus!
