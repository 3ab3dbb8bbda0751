//! Keys with other parameters than those of an algorithm, and what is reported of them.
use crate::der::number::integer_contents;
use crate::der::oid::{lemma_oid_reads_back, oid_contents, valid_arcs};
use crate::der::reader::{leave_ended, lemma_u8_reads_back};
use crate::der::types::{DerClass, DerType};
use crate::error::KeyFault;
use crate::laws::detection::{
    lemma_alone, lemma_enters, lemma_leaves, lemma_longer, lemma_met, lemma_passes,
};
use crate::rsapss::detect::{
    algorithm_marks, detected, finds, key_info_marks, lemma_finds_behind, looked_for, Mark,
};
use crate::rsapss::pkcs8::{integer, object_identifier, sequence, tagged};
use crate::rsapss::RsaPssJwsAlgorithm;
use vstd::prelude::*;

verus! {

/// What a key says of itself: the version of its information, an algorithm, and the parameters of
/// RSASSA-PSS.
pub struct Variant {
    /// The version.
    pub version: u8,
    /// The algorithm.
    pub algorithm: Seq<u64>,
    /// The digest.
    pub digest: Seq<u64>,
    /// The mask generation function.
    pub mask: Seq<u64>,
    /// The digest of the mask generation function.
    pub mask_digest: Seq<u64>,
    /// The length of the salt.
    pub salt: u8,
}

impl Variant {
    /// Whether each object identifier is one.
    pub open spec fn is_valid(self) -> bool {
        &&& valid_arcs(self.algorithm)
        &&& valid_arcs(self.digest)
        &&& valid_arcs(self.mask)
        &&& valid_arcs(self.mask_digest)
    }

    /// The digest under its tag.
    pub open spec fn first_parameter(self) -> Seq<u8> {
        tagged(0, sequence(object_identifier(self.digest)))
    }

    /// The mask generation function with its digest under its tag.
    pub open spec fn second_parameter(self) -> Seq<u8> {
        tagged(
            1,
            sequence(
                object_identifier(self.mask) + sequence(object_identifier(self.mask_digest)),
            ),
        )
    }

    /// The length of the salt under its tag.
    pub open spec fn third_parameter(self) -> Seq<u8> {
        tagged(2, integer(self.salt as nat))
    }

    /// The parameters, and whatever stands behind them.
    pub open spec fn parameters(self, behind: Seq<u8>) -> Seq<u8> {
        self.first_parameter() + (self.second_parameter() + (self.third_parameter() + behind))
    }

    /// The AlgorithmIdentifier, and whatever stands behind the parameters in it.
    pub open spec fn identifier(self, behind: Seq<u8>) -> Seq<u8> {
        sequence(object_identifier(self.algorithm) + sequence(self.parameters(behind)))
    }

    /// The key, and whatever stands behind the AlgorithmIdentifier in it.
    pub open spec fn information(
        self,
        behind_parameters: Seq<u8>,
        behind: Seq<u8>,
        is_public: bool,
    ) -> Seq<u8> {
        if is_public {
            sequence(self.identifier(behind_parameters) + behind)
        } else {
            sequence(
                integer(self.version as nat) + (self.identifier(behind_parameters) + behind),
            )
        }
    }

    /// What is to be reported of the parameters: the first that is not that of the algorithm.
    pub open spec fn report_on_parameters(
        self,
        digest: Seq<u64>,
        salt: int,
    ) -> Result<bool, KeyFault> {
        if self.digest != digest {
            Err(KeyFault::IncompatibleOid(self.digest))
        } else if self.mask != seq![1u64, 2, 840, 113549, 1, 1, 8] {
            Err(KeyFault::IncompatibleOid(self.mask))
        } else if self.mask_digest != digest {
            Err(KeyFault::IncompatibleOid(self.mask_digest))
        } else if self.salt != salt {
            Err(KeyFault::IncompatibleSaltLength(self.salt))
        } else {
            Ok(true)
        }
    }

    /// What is to be reported of the key: the first thing in it that is not as the algorithm has
    /// it.
    pub open spec fn report(
        self,
        digest: Seq<u64>,
        salt: int,
        is_public: bool,
    ) -> Result<bool, KeyFault> {
        if !is_public && self.version != 0 {
            Err(KeyFault::UnrecognizedVersion(self.version))
        } else if self.algorithm != seq![1u64, 2, 840, 113549, 1, 1, 10] {
            Err(KeyFault::IncompatibleOid(self.algorithm))
        } else {
            self.report_on_parameters(digest, salt)
        }
    }
}

proof fn lemma_first_parameter(
    outer: Seq<Seq<u8>>,
    wanted: RsaPssJwsAlgorithm,
    variant: Variant,
    tail: Seq<u8>,
)
    requires
        variant.is_valid(),
        tail.len() > 0,
        variant.first_parameter().len() <= u64::MAX,
    ensures
        finds(outer.push(variant.first_parameter() + tail), algorithm_marks(wanted), 3)
            == if variant.digest == wanted.digest_arcs() {
            finds(outer.push(tail), algorithm_marks(wanted), 7)
        } else {
            Err::<bool, KeyFault>(KeyFault::IncompatibleOid(variant.digest))
        },
{
    let none = Seq::<u8>::empty();
    let marks = algorithm_marks(wanted);
    let arcs = variant.digest;
    let oid = object_identifier(arcs);
    let digest = sequence(oid);
    let p3 = outer.push(tagged(0, digest) + tail);
    let p4 = outer.push(tail).push(digest);
    let p5 = outer.push(tail).push(none).push(oid);
    let p6 = outer.push(tail).push(none).push(none);
    let tag = DerType::Other(DerClass::ContextSpecific, 0);
    lemma_longer(tag, true, digest);
    lemma_longer(DerType::Sequence, true, oid);
    lemma_longer(DerType::ObjectIdentifier, false, oid_contents(arcs));
    lemma_alone(digest);
    lemma_alone(oid);
    lemma_oid_reads_back(arcs);
    lemma_enters(outer, tag, digest, tail);
    lemma_met(p3, marks, 3);
    lemma_enters(outer.push(tail), DerType::Sequence, oid, none);
    lemma_met(p4, marks, 4);
    lemma_passes(
        outer.push(tail).push(none),
        DerType::ObjectIdentifier,
        oid_contents(arcs),
        none,
    );
    assert(marks[5] == Mark::Oid(wanted.digest_arcs()));
    if arcs == wanted.digest_arcs() {
        lemma_met(p5, marks, 5);
        lemma_leaves(p6);
        reveal_with_fuel(leave_ended, 3);
        assert(p6.drop_last() == outer.push(tail).push(none));
        assert(p6.drop_last().drop_last() == outer.push(tail));
        assert(leave_ended(p6) == outer.push(tail));
        lemma_met(p6, marks, 6);
    } else {
        assert(looked_for(p5, marks[5]) == Err::<bool, KeyFault>(KeyFault::IncompatibleOid(arcs)));
    }
}

proof fn lemma_second_parameter(
    outer: Seq<Seq<u8>>,
    wanted: RsaPssJwsAlgorithm,
    variant: Variant,
    tail: Seq<u8>,
)
    requires
        variant.is_valid(),
        tail.len() > 0,
        variant.second_parameter().len() <= u64::MAX,
    ensures
        finds(outer.push(variant.second_parameter() + tail), algorithm_marks(wanted), 7)
            == if variant.mask != seq![1u64, 2, 840, 113549, 1, 1, 8] {
            Err::<bool, KeyFault>(KeyFault::IncompatibleOid(variant.mask))
        } else if variant.mask_digest != wanted.digest_arcs() {
            Err(KeyFault::IncompatibleOid(variant.mask_digest))
        } else {
            finds(outer.push(tail), algorithm_marks(wanted), 13)
        },
{
    let none = Seq::<u8>::empty();
    let marks = algorithm_marks(wanted);
    let arcs = variant.mask_digest;
    let oid = object_identifier(arcs);
    let digest = sequence(oid);
    let mgf = object_identifier(variant.mask);
    let mask = sequence(mgf + digest);
    let behind = outer.push(tail);
    let p7 = outer.push(tagged(1, mask) + tail);
    let p8 = behind.push(mask);
    let p9 = behind.push(none).push(mgf + digest);
    let p10 = behind.push(none).push(digest);
    let p11 = behind.push(none).push(none).push(oid);
    let p12 = behind.push(none).push(none).push(none);
    let tag = DerType::Other(DerClass::ContextSpecific, 1);
    lemma_longer(tag, true, mask);
    lemma_longer(DerType::Sequence, true, mgf + digest);
    lemma_longer(DerType::ObjectIdentifier, false, oid_contents(variant.mask));
    lemma_longer(DerType::Sequence, true, oid);
    lemma_longer(DerType::ObjectIdentifier, false, oid_contents(arcs));
    lemma_alone(mask);
    lemma_alone(digest);
    lemma_alone(oid);
    lemma_oid_reads_back(variant.mask);
    lemma_oid_reads_back(arcs);
    lemma_enters(outer, tag, mask, tail);
    lemma_met(p7, marks, 7);
    lemma_enters(behind, DerType::Sequence, mgf + digest, none);
    lemma_met(p8, marks, 8);
    lemma_passes(
        behind.push(none),
        DerType::ObjectIdentifier,
        oid_contents(variant.mask),
        digest,
    );
    if variant.mask != seq![1u64, 2, 840, 113549, 1, 1, 8] {
        assert(looked_for(p9, marks[9]) == Err::<bool, KeyFault>(
            KeyFault::IncompatibleOid(variant.mask),
        ));
    } else {
        lemma_met(p9, marks, 9);
        lemma_enters(behind.push(none), DerType::Sequence, oid, none);
        lemma_met(p10, marks, 10);
        lemma_passes(
            behind.push(none).push(none),
            DerType::ObjectIdentifier,
            oid_contents(arcs),
            none,
        );
        if arcs != wanted.digest_arcs() {
            assert(looked_for(p11, marks[11]) == Err::<bool, KeyFault>(
                KeyFault::IncompatibleOid(arcs),
            ));
        } else {
            lemma_met(p11, marks, 11);
            lemma_leaves(p12);
            reveal_with_fuel(leave_ended, 4);
            assert(p12.drop_last() == behind.push(none).push(none));
            assert(p12.drop_last().drop_last() == behind.push(none));
            assert(p12.drop_last().drop_last().drop_last() == behind);
            assert(leave_ended(p12) == behind);
            lemma_met(p12, marks, 12);
        }
    }
}

proof fn lemma_third_parameter(
    outer: Seq<Seq<u8>>,
    wanted: RsaPssJwsAlgorithm,
    variant: Variant,
    tail: Seq<u8>,
)
    requires
        variant.third_parameter().len() <= u64::MAX,
    ensures
        finds(outer.push(variant.third_parameter() + tail), algorithm_marks(wanted), 13)
            == if variant.salt != wanted.salt_octets() {
            Err::<bool, KeyFault>(KeyFault::IncompatibleSaltLength(variant.salt))
        } else {
            Ok(true)
        },
{
    let none = Seq::<u8>::empty();
    let marks = algorithm_marks(wanted);
    let contents = integer_contents(variant.salt as nat);
    let salt = integer(variant.salt as nat);
    let p13 = outer.push(tagged(2, salt) + tail);
    let p14 = outer.push(tail).push(salt);
    let tag = DerType::Other(DerClass::ContextSpecific, 2);
    lemma_longer(tag, true, salt);
    lemma_longer(DerType::Integer, false, contents);
    lemma_alone(salt);
    lemma_u8_reads_back(variant.salt);
    lemma_enters(outer, tag, salt, tail);
    lemma_met(p13, marks, 13);
    lemma_passes(outer.push(tail), DerType::Integer, contents, none);
    if variant.salt == wanted.salt_octets() {
        lemma_met(p14, marks, 14);
    } else {
        assert(looked_for(p14, marks[14]) == Err::<bool, KeyFault>(
            KeyFault::IncompatibleSaltLength(variant.salt),
        ));
    }
}

proof fn lemma_identifier(
    outer: Seq<Seq<u8>>,
    wanted: RsaPssJwsAlgorithm,
    variant: Variant,
    behind: Seq<u8>,
    tail: Seq<u8>,
)
    requires
        variant.is_valid(),
        variant.identifier(behind).len() <= u64::MAX,
    ensures
        finds(outer.push(variant.identifier(behind) + tail), algorithm_marks(wanted), 0)
            == if variant.algorithm != seq![1u64, 2, 840, 113549, 1, 1, 10] {
            Err::<bool, KeyFault>(KeyFault::IncompatibleOid(variant.algorithm))
        } else {
            variant.report_on_parameters(wanted.digest_arcs(), wanted.salt_octets() as int)
        },
{
    let none = Seq::<u8>::empty();
    let marks = algorithm_marks(wanted);
    let oid = object_identifier(variant.algorithm);
    let parameters = variant.parameters(behind);
    let p0 = outer.push(variant.identifier(behind) + tail);
    let p1 = outer.push(tail).push(oid + sequence(parameters));
    let p2 = outer.push(tail).push(sequence(parameters));
    let inside = outer.push(tail).push(none);
    let after_first = variant.second_parameter() + (variant.third_parameter() + behind);
    lemma_longer(DerType::Sequence, true, oid + sequence(parameters));
    lemma_longer(DerType::ObjectIdentifier, false, oid_contents(variant.algorithm));
    lemma_longer(DerType::Sequence, true, parameters);
    lemma_alone(sequence(parameters));
    lemma_oid_reads_back(variant.algorithm);
    lemma_enters(outer, DerType::Sequence, oid + sequence(parameters), tail);
    lemma_met(p0, marks, 0);
    lemma_passes(
        outer.push(tail),
        DerType::ObjectIdentifier,
        oid_contents(variant.algorithm),
        sequence(parameters),
    );
    if variant.algorithm != seq![1u64, 2, 840, 113549, 1, 1, 10] {
        assert(looked_for(p1, marks[1]) == Err::<bool, KeyFault>(
            KeyFault::IncompatibleOid(variant.algorithm),
        ));
    } else {
        lemma_met(p1, marks, 1);
        lemma_enters(outer.push(tail), DerType::Sequence, parameters, none);
        lemma_met(p2, marks, 2);
        lemma_first_parameter(inside, wanted, variant, after_first);
        lemma_second_parameter(inside, wanted, variant, variant.third_parameter() + behind);
        lemma_third_parameter(inside, wanted, variant, behind);
    }
}

/// A key that says of itself, in the right places, what it is for, is detected where all of it is
/// as the algorithm has it, whatever else stands in the key. Else the first thing that is not is
/// reported: the version of a private key, the algorithm RSASSA-PSS, the digest, MGF1, the digest
/// of MGF1 or the length of the salt, in this order.
pub proof fn law_first_difference_is_reported(
    algorithm: RsaPssJwsAlgorithm,
    place: int,
    variant: Variant,
    behind_parameters: Seq<u8>,
    behind: Seq<u8>,
    is_public: bool,
)
    requires
        place == match algorithm {
            RsaPssJwsAlgorithm::PS256 => 0int,
            RsaPssJwsAlgorithm::PS384 => 1,
            RsaPssJwsAlgorithm::PS512 => 2,
        },
        variant.is_valid(),
        variant.information(behind_parameters, behind, is_public).len() <= u64::MAX,
    ensures
        detected(
            algorithm,
            variant.information(behind_parameters, behind, is_public),
            is_public,
        ) == variant.report(
            seq![2u64, 16, 840, 1, 101, 3, 4, 2, (1 + place) as u64],
            32 + 16 * place,
            is_public,
        ),
{
    let none = Seq::<u8>::empty();
    let top = Seq::<Seq<u8>>::empty();
    let outer = top.push(none);
    let marks = key_info_marks(algorithm, is_public);
    let document = variant.information(behind_parameters, behind, is_public);
    let members = variant.identifier(behind_parameters) + behind;
    assert(algorithm.digest_arcs() == seq![2u64, 16, 840, 1, 101, 3, 4, 2, (1 + place) as u64]);
    lemma_alone(document);
    assert(seq![document] == top.push(document));
    if is_public {
        lemma_longer(DerType::Sequence, true, members);
        lemma_enters(top, DerType::Sequence, members, none);
        lemma_met(seq![document], marks, 0);
        lemma_identifier(outer, algorithm, variant, behind_parameters, behind);
        lemma_finds_behind(
            outer.push(members),
            seq![Mark::Type(DerType::Sequence)],
            algorithm_marks(algorithm),
            0,
        );
    } else {
        let version = integer(variant.version as nat);
        let contents = integer_contents(variant.version as nat);
        lemma_longer(DerType::Sequence, true, version + members);
        lemma_enters(top, DerType::Sequence, version + members, none);
        lemma_met(seq![document], marks, 0);
        lemma_longer(DerType::Integer, false, contents);
        lemma_u8_reads_back(variant.version);
        lemma_passes(outer, DerType::Integer, contents, members);
        if variant.version != 0 {
            assert(looked_for(outer.push(version + members), marks[1]) == Err::<bool, KeyFault>(
                KeyFault::UnrecognizedVersion(variant.version),
            ));
        } else {
            lemma_met(outer.push(version + members), marks, 1);
            lemma_identifier(outer, algorithm, variant, behind_parameters, behind);
            lemma_finds_behind(
                outer.push(members),
                seq![Mark::Type(DerType::Sequence), Mark::Version],
                algorithm_marks(algorithm),
                0,
            );
        }
    }
}

} // verus!
