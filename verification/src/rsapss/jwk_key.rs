//! From JSON Web Keys to the DER of a key with its algorithm.
use crate::der::number::octets_value;
use crate::encoding::{decode_url_safe, url_safe_decoded};
use crate::error::{KeyFault, KeyFormatError};
use crate::jwk::{texts, Jwk, JwkModel, JwkValue};
use crate::rsapss::import::as_key_der;
use crate::rsapss::pkcs1::{bare_key, octets_values, to_rsa_private_key, to_rsa_public_key};
use crate::rsapss::pkcs8::key_info;
use crate::rsapss::{KeyOperation, RsaPssJwsAlgorithm};
use crate::text::same_text;
use vstd::prelude::*;
use vstd::utf8::encode_utf8;

verus! {

/// Whether a JWK is for the algorithm and the operation, or the first thing in it that speaks
/// against it.
pub open spec fn jwk_suits(
    algorithm: RsaPssJwsAlgorithm,
    jwk: JwkModel,
    operation: KeyOperation,
) -> Result<(), KeyFault> {
    if jwk.key_type != "RSA"@ {
        Err(KeyFault::KeyTypeMismatch(jwk.key_type))
    } else if jwk.key_use is Some && jwk.key_use->0 != "sig"@ {
        Err(KeyFault::KeyUseMismatch(jwk.key_use->0))
    } else if jwk.key_operations is Some && !jwk.key_operations->0.contains(
        operation.name_text(),
    ) {
        Err(KeyFault::KeyOperationMissing(operation))
    } else if jwk.algorithm is Some && jwk.algorithm->0 != algorithm.name_text() {
        Err(KeyFault::AlgorithmMismatch(algorithm, jwk.algorithm->0))
    } else {
        Ok(())
    }
}

/// The number that a parameter of a JWK holds.
pub open spec fn jwk_number(
    parameters: Map<Seq<char>, Option<Seq<char>>>,
    name: Seq<char>,
) -> Result<nat, KeyFault> {
    if !parameters.contains_key(name) {
        Err(KeyFault::ParameterMissing(name))
    } else {
        match parameters[name] {
            None => Err(KeyFault::ParameterNotString(name)),
            Some(text) => match url_safe_decoded(text) {
                Some(octets) => Ok(octets_value(octets)),
                None => Err(KeyFault::Base64),
            },
        }
    }
}

/// The numbers that parameters of a JWK hold, or what is wrong with the first that holds none.
pub open spec fn jwk_numbers(
    parameters: Map<Seq<char>, Option<Seq<char>>>,
    names: Seq<Seq<char>>,
) -> Result<Seq<nat>, KeyFault>
    decreases names.len(),
{
    if names.len() == 0 {
        Ok(Seq::empty())
    } else {
        match jwk_numbers(parameters, names.drop_last()) {
            Ok(numbers) => match jwk_number(parameters, names.last()) {
                Ok(number) => Ok(numbers.push(number)),
                Err(fault) => Err(fault),
            },
            Err(fault) => Err(fault),
        }
    }
}

/// The names of the numbers of a public key.
pub open spec fn public_names() -> Seq<Seq<char>> {
    seq!["n"@, "e"@]
}

/// The names of the numbers of a private key.
pub open spec fn private_names() -> Seq<Seq<char>> {
    seq!["n"@, "e"@, "d"@, "p"@, "q"@, "dp"@, "dq"@, "qi"@]
}

/// Whether four times the octets of each of the parameters can be counted, as decoding them asks
/// for.
pub open spec fn can_be_decoded(
    parameters: Map<Seq<char>, Option<Seq<char>>>,
    names: Seq<Seq<char>>,
) -> bool {
    forall|i: int, text: Seq<char>|
        0 <= i < names.len() && #[trigger] parameters.contains_pair(names[i], Some(text))
            ==> encode_utf8(text).len() * 4 <= usize::MAX
}

/// The names of the numbers that an operation takes.
pub open spec fn operation_names(operation: KeyOperation) -> Seq<Seq<char>> {
    match operation {
        KeyOperation::Sign => private_names(),
        KeyOperation::Verify => public_names(),
    }
}

/// The key with its algorithm that has the given numbers.
pub open spec fn numbers_key(
    algorithm: RsaPssJwsAlgorithm,
    numbers: Seq<nat>,
    is_public: bool,
) -> Seq<u8> {
    key_info(algorithm, bare_key(numbers, is_public), is_public)
}

/// The key with its algorithm that a JWK gives for an operation: a private key to make signatures,
/// a public key to check them.
pub open spec fn jwk_key(
    algorithm: RsaPssJwsAlgorithm,
    jwk: JwkModel,
    operation: KeyOperation,
) -> Result<Seq<u8>, KeyFault> {
    match jwk_suits(algorithm, jwk, operation) {
        Err(fault) => Err(fault),
        Ok(()) => {
            match jwk_numbers(jwk.parameters, operation_names(operation)) {
                Ok(numbers) => Ok(
                    numbers_key(algorithm, numbers, operation == KeyOperation::Verify),
                ),
                Err(fault) => Err(fault),
            }
        },
    }
}

fn contains_text(list: &Vec<String>, text: &str) -> (contains: bool)
    ensures
        contains == texts(list@).contains(text@),
{
    let mut i: usize = 0;
    while i < list.len()
        invariant
            i <= list@.len(),
            forall|k: int| 0 <= k < i ==> #[trigger] texts(list@)[k] != text@,
        decreases list.len() - i,
    {
        if same_text(list[i].as_str(), text) {
            assert(texts(list@)[i as int] == text@);
            return true;
        }
        i = i + 1;
    }
    false
}

fn read_number(jwk: &Jwk, name: &str) -> (number: Result<Vec<u8>, KeyFormatError>)
    requires
        can_be_decoded(jwk@.parameters, seq![name@]),
    ensures
        match number {
            Ok(octets) => jwk_number(jwk@.parameters, name@) == Ok::<nat, KeyFault>(
                octets_value(octets@),
            ),
            Err(error) => jwk_number(jwk@.parameters, name@) == Err::<nat, KeyFault>(error@),
        },
{
    match jwk.parameter(name) {
        Some(JwkValue::Text(text)) => {
            assert(jwk@.parameters.contains_pair(seq![name@][0], Some(text@)));
            match decode_url_safe(text.as_str()) {
                Ok(octets) => Ok(octets),
                Err(error) => Err(KeyFormatError::Base64(error)),
            }
        },
        Some(JwkValue::Other) => Err(KeyFormatError::ParameterNotString(name.to_owned())),
        None => Err(KeyFormatError::ParameterMissing(name.to_owned())),
    }
}

spec fn views(names: Seq<&str>) -> Seq<Seq<char>> {
    names.map_values(|name: &str| name@)
}

/// What is wrong with the first parameter that holds no number is what is wrong with them all.
pub proof fn lemma_first_fault_decides(
    parameters: Map<Seq<char>, Option<Seq<char>>>,
    names: Seq<Seq<char>>,
    i: int,
)
    requires
        0 <= i <= names.len(),
        jwk_numbers(parameters, names.take(i)) is Err,
    ensures
        jwk_numbers(parameters, names) == jwk_numbers(parameters, names.take(i)),
    decreases names.len() - i,
{
    if i < names.len() {
        assert(names.take(i + 1).drop_last() == names.take(i));
        lemma_first_fault_decides(parameters, names, i + 1);
    } else {
        assert(names.take(i) == names);
    }
}

fn read_numbers(jwk: &Jwk, names: &[&str]) -> (numbers: Result<Vec<Vec<u8>>, KeyFormatError>)
    requires
        can_be_decoded(jwk@.parameters, views(names@)),
    ensures
        match numbers {
            Ok(octets) => jwk_numbers(jwk@.parameters, views(names@)) == Ok::<Seq<nat>, KeyFault>(
                octets_values(octets@),
            ),
            Err(error) => jwk_numbers(jwk@.parameters, views(names@)) == Err::<Seq<nat>, KeyFault>(
                error@,
            ),
        },
{
    let mut numbers: Vec<Vec<u8>> = Vec::new();
    let mut i: usize = 0;
    proof {
        assert(views(names@).take(0) == Seq::<Seq<char>>::empty());
        assert(octets_values(numbers@) == Seq::<nat>::empty());
    }
    while i < names.len()
        invariant
            i <= names@.len(),
            can_be_decoded(jwk@.parameters, views(names@)),
            jwk_numbers(jwk@.parameters, views(names@).take(i as int)) == Ok::<Seq<nat>, KeyFault>(
                octets_values(numbers@),
            ),
        decreases names.len() - i,
    {
        assert(views(names@).take(i + 1).drop_last() == views(names@).take(i as int));
        assert(views(names@)[i as int] == names@[i as int]@);
        match read_number(jwk, names[i]) {
            Ok(number) => {
                let ghost before = numbers@;
                numbers.push(number);
                assert(octets_values(numbers@) == octets_values(before).push(
                    octets_value(number@),
                ));
            },
            Err(error) => {
                proof {
                    lemma_first_fault_decides(jwk@.parameters, views(names@), i + 1);
                }
                return Err(error);
            },
        }
        i = i + 1;
    }
    assert(views(names@).take(i as int) == views(names@));
    Ok(numbers)
}

impl RsaPssJwsAlgorithm {
    /// Checks that a JWK is for this algorithm and for the operation.
    pub fn check_jwk(&self, jwk: &Jwk, operation: KeyOperation) -> (outcome: Result<
        (),
        KeyFormatError,
    >)
        ensures
            match outcome {
                Ok(()) => jwk_suits(*self, jwk@, operation) is Ok,
                Err(error) => jwk_suits(*self, jwk@, operation) == Err::<(), KeyFault>(error@),
            },
    {
        if !same_text(jwk.key_type(), self.key_type()) {
            return Err(KeyFormatError::KeyTypeMismatch(jwk.key_type().to_owned()));
        }
        match jwk.key_use() {
            Some(key_use) => {
                if !same_text(key_use, "sig") {
                    return Err(KeyFormatError::KeyUseMismatch(key_use.to_owned()));
                }
            },
            None => {},
        }
        match jwk.key_operations() {
            Some(operations) => {
                if !contains_text(operations, operation.name()) {
                    return Err(KeyFormatError::KeyOperationMissing(operation));
                }
            },
            None => {},
        }
        match jwk.algorithm() {
            Some(algorithm) => {
                if !same_text(algorithm, self.name()) {
                    return Err(KeyFormatError::AlgorithmMismatch(*self, algorithm.to_owned()));
                }
            },
            None => {},
        }
        Ok(())
    }

    /// The DER of the key with its algorithm that has the given numbers, each in big-endian octets:
    /// n and e for a public key, n, e, d, p, q, d mod (p - 1), d mod (q - 1) and the inverse of
    /// q mod p for a private key.
    pub fn key_from_numbers(&self, numbers: &Vec<Vec<u8>>, is_public: bool) -> (der: Vec<u8>)
        ensures
            der@ == numbers_key(*self, octets_values(numbers@), is_public),
    {
        if is_public {
            self.to_pkcs8(to_rsa_public_key(numbers).as_slice(), true)
        } else {
            self.to_pkcs8(to_rsa_private_key(numbers).as_slice(), false)
        }
    }

    /// The DER of the key with its algorithm that a JWK gives for an operation.
    pub fn key_from_jwk(&self, jwk: &Jwk, operation: KeyOperation) -> (der: Result<
        Vec<u8>,
        KeyFormatError,
    >)
        requires
            can_be_decoded(jwk@.parameters, operation_names(operation)),
        ensures
            as_key_der(der) == jwk_key(*self, jwk@, operation),
    {
        match self.check_jwk(jwk, operation) {
            Ok(()) => {},
            Err(error) => {
                return Err(error);
            },
        }
        let is_public = operation == KeyOperation::Verify;
        let numbers = if is_public {
            let names = ["n", "e"];
            assert(views(names@) == public_names());
            read_numbers(jwk, &names)
        } else {
            let names = ["n", "e", "d", "p", "q", "dp", "dq", "qi"];
            assert(views(names@) == private_names());
            read_numbers(jwk, &names)
        };
        match numbers {
            Ok(numbers) => Ok(self.key_from_numbers(&numbers, is_public)),
            Err(error) => Err(error),
        }
    }
}

} // verus!
