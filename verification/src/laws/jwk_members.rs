//! Which JSON Web Keys are for an algorithm and an operation, and which key they hold.
use crate::der::number::octets_value;
use crate::encoding::url_safe_decoded;
use crate::error::KeyFault;
use crate::jwk::{texts, JwkModel};
use crate::rsapss::jwk_key::{
    jwk_key, jwk_numbers, jwk_suits, lemma_first_fault_decides, operation_names,
};
use crate::rsapss::pkcs1::bare_key;
use crate::rsapss::pkcs8::key_info;
use crate::rsapss::{KeyOperation, RsaPssJwsAlgorithm};
use vstd::prelude::*;

verus! {

/// The members of a JWK that say what it is for, and no others, decide whether it suits: the type
/// RSA, the use for signatures, the operation and the algorithm, the last three where they are
/// there. The first of them that does not is the one that is reported.
pub proof fn law_jwk_suits_by_its_members(
    algorithm: RsaPssJwsAlgorithm,
    jwk: JwkModel,
    operation: KeyOperation,
)
    ensures
        ({
            let name = match algorithm {
                RsaPssJwsAlgorithm::PS256 => "PS256"@,
                RsaPssJwsAlgorithm::PS384 => "PS384"@,
                RsaPssJwsAlgorithm::PS512 => "PS512"@,
            };
            let wanted = match operation {
                KeyOperation::Sign => "sign"@,
                KeyOperation::Verify => "verify"@,
            };
            let type_fits = jwk.key_type == "RSA"@;
            let use_fits = jwk.key_use is Some ==> jwk.key_use == Some("sig"@);
            let operation_fits = jwk.key_operations matches Some(names) ==> exists|i: int|
                0 <= i < names.len() && #[trigger] names[i] == wanted;
            let name_fits = jwk.algorithm is Some ==> jwk.algorithm == Some(name);
            let outcome = jwk_suits(algorithm, jwk, operation);
            &&& outcome is Ok <==> type_fits && use_fits && operation_fits && name_fits
            &&& !type_fits ==> outcome == Err::<(), KeyFault>(
                KeyFault::KeyTypeMismatch(jwk.key_type),
            )
            &&& type_fits && !use_fits ==> outcome == Err::<(), KeyFault>(
                KeyFault::KeyUseMismatch(jwk.key_use->0),
            )
            &&& type_fits && use_fits && !operation_fits ==> outcome == Err::<(), KeyFault>(
                KeyFault::KeyOperationMissing(operation),
            )
            &&& type_fits && use_fits && operation_fits && !name_fits ==> outcome == Err::<
                (),
                KeyFault,
            >(KeyFault::AlgorithmMismatch(algorithm, jwk.algorithm->0))
        }),
{
    if let Some(names) = jwk.key_operations {
        let wanted = operation.name_text();
        assert(names.contains(wanted) <==> exists|i: int|
            0 <= i < names.len() && #[trigger] names[i] == wanted);
    }
}

/// Of a JWK of type RSA without use and operations, its algorithm decides: it suits both operations
/// of the algorithm of that name, and no other algorithm.
pub proof fn law_jwk_is_for_the_algorithm_it_names(
    algorithm: RsaPssJwsAlgorithm,
    jwk: JwkModel,
    operation: KeyOperation,
    text: Seq<char>,
)
    requires
        jwk.key_type == "RSA"@,
        jwk.key_use is None,
        jwk.key_operations is None,
        jwk.algorithm == Some(text),
    ensures
        jwk_suits(algorithm, jwk, operation) is Ok <==> {
            ||| algorithm == RsaPssJwsAlgorithm::PS256 && text == "PS256"@
            ||| algorithm == RsaPssJwsAlgorithm::PS384 && text == "PS384"@
            ||| algorithm == RsaPssJwsAlgorithm::PS512 && text == "PS512"@
        },
        forall|other: RsaPssJwsAlgorithm| #[trigger]
            jwk_suits(other, jwk, operation) is Ok && jwk_suits(algorithm, jwk, operation) is Ok
                ==> other == algorithm,
{
    reveal_strlit("PS256");
    reveal_strlit("PS384");
    reveal_strlit("PS512");
    assert("PS256"@[2] == '2');
    assert("PS384"@[2] == '3');
    assert("PS512"@[2] == '5');
}

/// Of a JWK of type RSA without use and algorithm, its operations decide: it suits an operation
/// where it names it, and both where it names none at all.
pub proof fn law_jwk_is_for_the_operations_it_names(
    algorithm: RsaPssJwsAlgorithm,
    jwk: JwkModel,
    operations: Seq<Seq<char>>,
)
    requires
        jwk.key_type == "RSA"@,
        jwk.key_use is None,
        jwk.algorithm is None,
    ensures
        jwk.key_operations is None ==> jwk_suits(algorithm, jwk, KeyOperation::Sign) is Ok
            && jwk_suits(algorithm, jwk, KeyOperation::Verify) is Ok,
        jwk.key_operations == Some(operations) ==> {
            &&& jwk_suits(algorithm, jwk, KeyOperation::Sign) is Ok <==> operations.contains(
                "sign"@,
            )
            &&& jwk_suits(algorithm, jwk, KeyOperation::Verify) is Ok <==> operations.contains(
                "verify"@,
            )
        },
        jwk.key_operations == Some(seq!["sign"@]) ==> {
            &&& jwk_suits(algorithm, jwk, KeyOperation::Sign) is Ok
            &&& jwk_suits(algorithm, jwk, KeyOperation::Verify) is Err
        },
        jwk.key_operations == Some(seq!["verify"@]) ==> {
            &&& jwk_suits(algorithm, jwk, KeyOperation::Sign) is Err
            &&& jwk_suits(algorithm, jwk, KeyOperation::Verify) is Ok
        },
{
    reveal_strlit("sign");
    reveal_strlit("verify");
    assert("sign"@.len() == 4 && "verify"@.len() == 6);
    assert(seq!["sign"@][0] == "sign"@);
    assert(seq!["verify"@][0] == "verify"@);
    assert(seq!["sign"@].contains("sign"@));
    assert(seq!["verify"@].contains("verify"@));
}

/// A JWK that suits keeps suiting where a member that says what it is for is taken out, where
/// another operation is named too, and whatever its identifier and its parameters are.
pub proof fn law_jwk_keeps_suiting(
    algorithm: RsaPssJwsAlgorithm,
    jwk: JwkModel,
    other: JwkModel,
    operation: KeyOperation,
)
    requires
        jwk_suits(algorithm, jwk, operation) is Ok,
        other.key_type == jwk.key_type,
        other.key_use is None || other.key_use == jwk.key_use,
        other.algorithm is None || other.algorithm == jwk.algorithm,
        other.key_operations is Some ==> jwk.key_operations is Some && forall|name: Seq<char>|
            #[trigger] jwk.key_operations->0.contains(name) ==> other.key_operations->0.contains(
                name,
            ),
    ensures
        jwk_suits(algorithm, other, operation) is Ok,
{
}

/// The names of the numbers that an operation takes, written out.
proof fn lemma_names(operation: KeyOperation)
    ensures
        operation_names(operation) == match operation {
            KeyOperation::Sign => seq!["n"@, "e"@, "d"@, "p"@, "q"@, "dp"@, "dq"@, "qi"@],
            KeyOperation::Verify => seq!["n"@, "e"@],
        },
{
}

proof fn lemma_numbers_of_decoded(
    parameters: Map<Seq<char>, Option<Seq<char>>>,
    names: Seq<Seq<char>>,
    octets: Seq<Seq<u8>>,
    count: int,
)
    requires
        0 <= count <= names.len(),
        count <= octets.len(),
        forall|i: int|
            0 <= i < count ==> parameters.contains_key(#[trigger] names[i])
                && parameters[names[i]] is Some && url_safe_decoded(parameters[names[i]]->0)
                == Some(octets[i]),
    ensures
        jwk_numbers(parameters, names.take(count)) == Ok::<Seq<nat>, KeyFault>(
            Seq::new(count as nat, |i: int| octets_value(octets[i])),
        ),
    decreases count,
{
    let numbers = Seq::new(count as nat, |i: int| octets_value(octets[i]));
    if count > 0 {
        lemma_numbers_of_decoded(parameters, names, octets, count - 1);
        let upto = names.take(count);
        assert(upto.drop_last() == names.take(count - 1));
        assert(upto.last() == names[count - 1]);
        assert(numbers == Seq::new((count - 1) as nat, |i: int| octets_value(octets[i])).push(
            octets_value(octets[count - 1]),
        ));
    } else {
        assert(numbers == Seq::<nat>::empty());
    }
}

/// A JWK that suits, and whose parameters n, e, d, p, q, dp, dq and qi, or for a public key n and
/// e, are all decoded, gives the key with the numbers that the octets stand for, in that order.
/// Where it does not suit, it gives nothing.
pub proof fn law_jwk_gives_its_numbers(
    algorithm: RsaPssJwsAlgorithm,
    jwk: JwkModel,
    operation: KeyOperation,
    names: Seq<Seq<char>>,
    octets: Seq<Seq<u8>>,
)
    requires
        names == match operation {
            KeyOperation::Sign => seq!["n"@, "e"@, "d"@, "p"@, "q"@, "dp"@, "dq"@, "qi"@],
            KeyOperation::Verify => seq!["n"@, "e"@],
        },
        octets.len() == names.len(),
        forall|i: int|
            0 <= i < names.len() ==> jwk.parameters.contains_key(#[trigger] names[i])
                && jwk.parameters[names[i]] is Some && url_safe_decoded(
                jwk.parameters[names[i]]->0,
            ) == Some(octets[i]),
    ensures
        jwk_key(algorithm, jwk, operation) == match jwk_suits(algorithm, jwk, operation) {
            Ok(()) => Ok::<Seq<u8>, KeyFault>(
                key_info(
                    algorithm,
                    bare_key(
                        octets.map_values(|number: Seq<u8>| octets_value(number)),
                        operation == KeyOperation::Verify,
                    ),
                    operation == KeyOperation::Verify,
                ),
            ),
            Err(fault) => Err(fault),
        },
{
    lemma_names(operation);
    lemma_numbers_of_decoded(jwk.parameters, names, octets, names.len() as int);
    assert(names.take(names.len() as int) == names);
    assert(octets.map_values(|number: Seq<u8>| octets_value(number)) == Seq::new(
        octets.len(),
        |i: int| octets_value(octets[i]),
    ));
}

/// Where a JWK suits and the parameters in front of one are all decoded, that one is what is
/// reported: as missing, as no string or as no Base64.
pub proof fn law_first_bad_parameter_is_reported(
    algorithm: RsaPssJwsAlgorithm,
    jwk: JwkModel,
    operation: KeyOperation,
    names: Seq<Seq<char>>,
    octets: Seq<Seq<u8>>,
    bad: int,
)
    requires
        names == match operation {
            KeyOperation::Sign => seq!["n"@, "e"@, "d"@, "p"@, "q"@, "dp"@, "dq"@, "qi"@],
            KeyOperation::Verify => seq!["n"@, "e"@],
        },
        0 <= bad < names.len(),
        octets.len() == bad,
        forall|i: int|
            0 <= i < bad ==> jwk.parameters.contains_key(#[trigger] names[i])
                && jwk.parameters[names[i]] is Some && url_safe_decoded(
                jwk.parameters[names[i]]->0,
            ) == Some(octets[i]),
        jwk_suits(algorithm, jwk, operation) is Ok,
    ensures
        ({
            let key = jwk_key(algorithm, jwk, operation);
            let name = names[bad];
            &&& !jwk.parameters.contains_key(name) ==> key == Err::<Seq<u8>, KeyFault>(
                KeyFault::ParameterMissing(name),
            )
            &&& jwk.parameters.contains_key(name) && jwk.parameters[name] is None ==> key == Err::<
                Seq<u8>,
                KeyFault,
            >(KeyFault::ParameterNotString(name))
            &&& jwk.parameters.contains_key(name) && jwk.parameters[name] is Some
                && url_safe_decoded(jwk.parameters[name]->0) is None ==> key == Err::<
                Seq<u8>,
                KeyFault,
            >(KeyFault::Base64)
        }),
{
    lemma_names(operation);
    lemma_numbers_of_decoded(jwk.parameters, names, octets, bad);
    let upto = names.take(bad + 1);
    assert(upto.drop_last() == names.take(bad));
    assert(upto.last() == names[bad]);
    if jwk_numbers(jwk.parameters, upto) is Err {
        lemma_first_fault_decides(jwk.parameters, names, bad + 1);
    }
}

/// Texts keep their number, their order and what they say.
pub proof fn law_texts_keep_what_they_say(list: Seq<String>)
    ensures
        texts(list).len() == list.len(),
        forall|i: int| 0 <= i < list.len() ==> #[trigger] texts(list)[i] == list[i]@,
{
}

} // verus!
