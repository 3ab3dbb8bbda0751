//! What belongs to each algorithm.
use crate::rsapss::{mgf1_arcs, rsassa_pss_arcs, KeyOperation, RsaPssJwsAlgorithm};
use vstd::prelude::*;

verus! {

/// The three algorithms stand in a row: from one to the next, the salt grows by 16 octets, and the
/// digest goes on to the next one, both by its object identifier and by its number in OpenSSL.
pub proof fn law_algorithms_stand_in_a_row(algorithm: RsaPssJwsAlgorithm, place: int)
    requires
        place == match algorithm {
            RsaPssJwsAlgorithm::PS256 => 0int,
            RsaPssJwsAlgorithm::PS384 => 1,
            RsaPssJwsAlgorithm::PS512 => 2,
        },
    ensures
        algorithm.salt_octets() == 32 + 16 * place,
        algorithm.nid() == 672 + place,
        algorithm.digest_arcs() == seq![2u64, 16, 840, 1, 101, 3, 4, 2, (1 + place) as u64],
        rsassa_pss_arcs() == seq![1u64, 2, 840, 113549, 1, 1, 10],
        mgf1_arcs() == seq![1u64, 2, 840, 113549, 1, 1, 8],
{
}

/// The name of an algorithm is "PS" with the number of bits of its digest, which is that of its
/// salt.
pub proof fn law_names_say_the_digest(algorithm: RsaPssJwsAlgorithm)
    ensures
        algorithm.name_text() == "PS256"@ <==> algorithm.salt_octets() * 8 == 256,
        algorithm.name_text() == "PS384"@ <==> algorithm.salt_octets() * 8 == 384,
        algorithm.name_text() == "PS512"@ <==> algorithm.salt_octets() * 8 == 512,
        forall|other: RsaPssJwsAlgorithm| #[trigger]
            other.name_text() == algorithm.name_text() ==> other == algorithm,
        KeyOperation::Sign.name_text() == "sign"@,
        KeyOperation::Verify.name_text() == "verify"@,
{
    reveal_strlit("PS256");
    reveal_strlit("PS384");
    reveal_strlit("PS512");
    assert("PS256"@[2] == '2');
    assert("PS384"@[2] == '3');
    assert("PS512"@[2] == '5');
}

} // verus!
