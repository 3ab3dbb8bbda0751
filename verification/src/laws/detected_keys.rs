//! What a key holds that is detected.
use crate::der::header::{lemma_header_writes_back, read_header, value_octets};
use crate::der::oid::{lemma_oid_writes_back, read_oid};
use crate::der::reader::{leave_ended, lemma_u8_reads_back, read_u8};
use crate::der::types::{DerClass, DerType};
use crate::error::KeyFault;
use crate::rsapss::detect::{
    algorithm_marks, detected, finds, key_info_marks, lemma_finds_behind, looked_for, moved_on,
    Mark,
};
use crate::rsapss::pkcs8::{integer, object_identifier, sequence, tagged};
use crate::rsapss::{mgf1_arcs, rsassa_pss_arcs, RsaPssJwsAlgorithm};
use vstd::prelude::*;

verus! {

/// An AlgorithmIdentifier of RSASSA-PSS with the parameters of an algorithm, and with whatever else
/// may stand behind the length of the salt, behind the three parameters and behind them all.
pub open spec fn extended_algorithm_identifier(
    algorithm: RsaPssJwsAlgorithm,
    behind_salt: Seq<u8>,
    behind_parameters: Seq<u8>,
    behind: Seq<u8>,
) -> Seq<u8> {
    let digest = sequence(object_identifier(algorithm.digest_arcs()));
    let mask = sequence(object_identifier(mgf1_arcs()) + digest);
    let salt = integer(algorithm.salt_octets() as nat) + behind_salt;
    let parameters = tagged(0, digest) + tagged(1, mask) + tagged(2, salt) + behind_parameters;
    sequence(object_identifier(rsassa_pss_arcs()) + sequence(parameters) + behind)
}

/// Whether octets begin with the AlgorithmIdentifier of RSASSA-PSS with the parameters of an
/// algorithm.
pub open spec fn begins_with_algorithm(algorithm: RsaPssJwsAlgorithm, octets: Seq<u8>) -> bool {
    exists|behind_salt: Seq<u8>, behind_parameters: Seq<u8>, behind: Seq<u8>, tail: Seq<u8>|
        octets == #[trigger] (extended_algorithm_identifier(
            algorithm,
            behind_salt,
            behind_parameters,
            behind,
        ) + tail)
}

/// A SEQUENCE with the members behind the version, which stands in front where the key is private.
pub open spec fn key_information(members: Seq<u8>, is_public: bool) -> Seq<u8> {
    if is_public {
        sequence(members)
    } else {
        sequence(integer(0) + members)
    }
}

proof fn lemma_step(pending: Seq<Seq<u8>>, marks: Seq<Mark>, i: int)
    requires
        0 <= i < marks.len(),
        finds(pending, marks, i) == Ok::<bool, KeyFault>(true),
    ensures
        looked_for(pending, marks[i]) == Ok::<bool, KeyFault>(true),
        finds(moved_on(pending), marks, i + 1) == Ok::<bool, KeyFault>(true),
{
}

/// A constructed value that was looked for and found: what it holds, and what follows it.
proof fn lemma_entered(outer: Seq<Seq<u8>>, here: Seq<u8>, der_type: DerType) -> (parts: (
    Seq<u8>,
    Seq<u8>,
))
    requires
        der_type != DerType::EndOfContents,
        looked_for(outer.push(here), Mark::Type(der_type)) == Ok::<bool, KeyFault>(true),
    ensures
        here == value_octets(der_type, true, parts.0) + parts.1,
        moved_on(outer.push(here)) == outer.push(parts.1).push(parts.0),
{
    reveal(looked_for);
    reveal(moved_on);
    assert(outer.push(here).drop_last() == outer);
    let header = read_header(here)->Ok_0;
    lemma_header_writes_back(here);
    assert(here == here.take(header.end as int) + here.skip(header.end as int));
    (here.subrange(header.start as int, header.end as int), here.skip(header.end as int))
}

/// An object identifier that was looked for and found: what follows it.
proof fn lemma_passed_oid(outer: Seq<Seq<u8>>, here: Seq<u8>, arcs: Seq<u64>) -> (tail: Seq<u8>)
    requires
        looked_for(outer.push(here), Mark::Oid(arcs)) == Ok::<bool, KeyFault>(true),
    ensures
        here == object_identifier(arcs) + tail,
        moved_on(outer.push(here)) == outer.push(tail),
{
    reveal(looked_for);
    reveal(moved_on);
    assert(outer.push(here).drop_last() == outer);
    let header = read_header(here)->Ok_0;
    lemma_header_writes_back(here);
    lemma_oid_writes_back(here.subrange(header.start as int, header.end as int));
    assert(here == here.take(header.end as int) + here.skip(header.end as int));
    here.skip(header.end as int)
}

/// A number that was looked for and found: what follows it.
proof fn lemma_passed_number(outer: Seq<Seq<u8>>, here: Seq<u8>, mark: Mark, number: u8) -> (tail:
    Seq<u8>)
    requires
        mark == Mark::Salt(number) || mark == Mark::Version && number == 0,
        looked_for(outer.push(here), mark) == Ok::<bool, KeyFault>(true),
    ensures
        here == integer(number as nat) + tail,
        moved_on(outer.push(here)) == outer.push(tail),
{
    reveal(looked_for);
    reveal(moved_on);
    assert(outer.push(here).drop_last() == outer);
    let header = read_header(here)->Ok_0;
    lemma_header_writes_back(here);
    lemma_u8_reads_back(number);
    assert(here == here.take(header.end as int) + here.skip(header.end as int));
    here.skip(header.end as int)
}

proof fn lemma_leave_ended(pending: Seq<Seq<u8>>)
    requires
        pending.len() > 0,
    ensures
        0 < leave_ended(pending).len() <= pending.len(),
        leave_ended(pending) == pending.take(leave_ended(pending).len() as int),
        forall|i: int|
            leave_ended(pending).len() <= i < pending.len() ==> (#[trigger] pending[i]).len() == 0,
    decreases pending.len(),
{
    if pending.len() > 1 && pending.last().len() == 0 {
        lemma_leave_ended(pending.drop_last());
        assert forall|i: int| leave_ended(pending).len() <= i < pending.len() implies (
        #[trigger] pending[i]).len() == 0 by {
            if i < pending.len() - 1 {
                assert(pending[i] == pending.drop_last()[i]);
            }
        }
    }
}

/// The end of values that was looked for and found: nothing was left of them.
proof fn lemma_ended(pending: Seq<Seq<u8>>, count: nat)
    requires
        pending.len() > 0,
        looked_for(pending, Mark::End(count)) == Ok::<bool, KeyFault>(true),
    ensures
        count < pending.len(),
        moved_on(pending) == pending.take(pending.len() - count),
        forall|i: int|
            pending.len() - count <= i < pending.len() ==> (#[trigger] pending[i]).len() == 0,
{
    reveal(looked_for);
    reveal(moved_on);
    lemma_leave_ended(pending);
    if pending.last().len() > 0 {
        lemma_header_writes_back(pending.last());
    }
}

/// The digest under its tag, where it is found: what follows it.
proof fn lemma_digest_found(base: Seq<Seq<u8>>, here: Seq<u8>, algorithm: RsaPssJwsAlgorithm)
    -> (tail: Seq<u8>)
    requires
        finds(base.push(here), algorithm_marks(algorithm), 3) == Ok::<bool, KeyFault>(true),
    ensures
        here == tagged(0, sequence(object_identifier(algorithm.digest_arcs()))) + tail,
        finds(base.push(tail), algorithm_marks(algorithm), 7) == Ok::<bool, KeyFault>(true),
{
    let marks = algorithm_marks(algorithm);
    let none = Seq::<u8>::empty();
    let oid = object_identifier(algorithm.digest_arcs());
    lemma_step(base.push(here), marks, 3);
    let (c3, t3) = lemma_entered(base, here, DerType::Other(DerClass::ContextSpecific, 0));
    let p4 = base.push(t3);
    lemma_step(p4.push(c3), marks, 4);
    let (c4, t4) = lemma_entered(p4, c3, DerType::Sequence);
    let p5 = p4.push(t4);
    lemma_step(p5.push(c4), marks, 5);
    let t5 = lemma_passed_oid(p5, c4, algorithm.digest_arcs());
    let p6 = p5.push(t5);
    lemma_step(p6, marks, 6);
    lemma_ended(p6, 2);
    let depth = base.len() as int;
    assert(p6[depth + 1] == t4);
    assert(p6[depth + 2] == t5);
    assert(p6.take(depth + 1) == p4);
    assert(t4 == none && t5 == none);
    assert(oid + none == oid);
    assert(sequence(oid) + none == sequence(oid));
    t3
}

/// MGF1 with its digest under its tag, where it is found: what follows it.
proof fn lemma_mask_found(base: Seq<Seq<u8>>, here: Seq<u8>, algorithm: RsaPssJwsAlgorithm)
    -> (tail: Seq<u8>)
    requires
        finds(base.push(here), algorithm_marks(algorithm), 7) == Ok::<bool, KeyFault>(true),
    ensures
        ({
            let digest = sequence(object_identifier(algorithm.digest_arcs()));
            here == tagged(1, sequence(object_identifier(mgf1_arcs()) + digest)) + tail
        }),
        finds(base.push(tail), algorithm_marks(algorithm), 13) == Ok::<bool, KeyFault>(true),
{
    let marks = algorithm_marks(algorithm);
    let none = Seq::<u8>::empty();
    let oid = object_identifier(algorithm.digest_arcs());
    let mgf1 = object_identifier(mgf1_arcs());
    lemma_step(base.push(here), marks, 7);
    let (c7, t7) = lemma_entered(base, here, DerType::Other(DerClass::ContextSpecific, 1));
    let p8 = base.push(t7);
    lemma_step(p8.push(c7), marks, 8);
    let (c8, t8) = lemma_entered(p8, c7, DerType::Sequence);
    let p9 = p8.push(t8);
    lemma_step(p9.push(c8), marks, 9);
    let t9 = lemma_passed_oid(p9, c8, mgf1_arcs());
    lemma_step(p9.push(t9), marks, 10);
    let (c10, t10) = lemma_entered(p9, t9, DerType::Sequence);
    let p11 = p9.push(t10);
    lemma_step(p11.push(c10), marks, 11);
    let t11 = lemma_passed_oid(p11, c10, algorithm.digest_arcs());
    let p12 = p11.push(t11);
    lemma_step(p12, marks, 12);
    lemma_ended(p12, 3);
    let depth = base.len() as int;
    assert(p12[depth + 1] == t8);
    assert(p12[depth + 2] == t10);
    assert(p12[depth + 3] == t11);
    assert(p12.take(depth + 1) == p8);
    assert(t8 == none && t10 == none && t11 == none);
    assert(oid + none == oid);
    assert(sequence(oid) + none == sequence(oid));
    assert(sequence(mgf1 + sequence(oid)) + none == sequence(mgf1 + sequence(oid)));
    t7
}

proof fn lemma_algorithm_found(base: Seq<Seq<u8>>, here: Seq<u8>, algorithm: RsaPssJwsAlgorithm)
    requires
        finds(base.push(here), algorithm_marks(algorithm), 0) == Ok::<bool, KeyFault>(true),
    ensures
        begins_with_algorithm(algorithm, here),
{
    let marks = algorithm_marks(algorithm);
    let digest = sequence(object_identifier(algorithm.digest_arcs()));
    let mask = sequence(object_identifier(mgf1_arcs()) + digest);
    let pss = object_identifier(rsassa_pss_arcs());
    lemma_step(base.push(here), marks, 0);
    let (c0, tail) = lemma_entered(base, here, DerType::Sequence);
    let p1 = base.push(tail);
    lemma_step(p1.push(c0), marks, 1);
    let t1 = lemma_passed_oid(p1, c0, rsassa_pss_arcs());
    lemma_step(p1.push(t1), marks, 2);
    let (parameters, behind) = lemma_entered(p1, t1, DerType::Sequence);
    let inside = p1.push(behind);
    let t3 = lemma_digest_found(inside, parameters, algorithm);
    let t7 = lemma_mask_found(inside, t3, algorithm);
    lemma_step(inside.push(t7), marks, 13);
    let (salt, behind_parameters) = lemma_entered(
        inside,
        t7,
        DerType::Other(DerClass::ContextSpecific, 2),
    );
    let p14 = inside.push(behind_parameters);
    lemma_step(p14.push(salt), marks, 14);
    let behind_salt = lemma_passed_number(
        p14,
        salt,
        Mark::Salt(algorithm.salt_octets()),
        algorithm.salt_octets(),
    );
    assert(parameters == tagged(0, digest) + tagged(1, mask) + tagged(2, salt)
        + behind_parameters);
    assert(c0 == pss + sequence(parameters) + behind);
    assert(here == extended_algorithm_identifier(
        algorithm,
        behind_salt,
        behind_parameters,
        behind,
    ) + tail);
}

/// A key that is detected is a SEQUENCE that begins with the version zero, where the key is
/// private, and then with the AlgorithmIdentifier of RSASSA-PSS: the digest of the algorithm in a
/// value of its own, MGF1 with that digest in the next, and the length of the salt at the start of
/// the one behind it.
pub proof fn law_detected_key_has_the_parameters(
    algorithm: RsaPssJwsAlgorithm,
    octets: Seq<u8>,
    is_public: bool,
)
    requires
        detected(algorithm, octets, is_public) == Ok::<bool, KeyFault>(true),
    ensures
        exists|members: Seq<u8>, tail: Seq<u8>|
            octets == #[trigger] (key_information(members, is_public) + tail)
                && begins_with_algorithm(algorithm, members),
{
    let top = Seq::<Seq<u8>>::empty();
    let marks = key_info_marks(algorithm, is_public);
    assert(seq![octets] == top.push(octets));
    lemma_step(top.push(octets), marks, 0);
    let (contents, tail) = lemma_entered(top, octets, DerType::Sequence);
    let outer = top.push(tail);
    if is_public {
        lemma_finds_behind(
            outer.push(contents),
            seq![Mark::Type(DerType::Sequence)],
            algorithm_marks(algorithm),
            0,
        );
        lemma_algorithm_found(outer, contents, algorithm);
        assert(octets == key_information(contents, is_public) + tail);
    } else {
        lemma_step(outer.push(contents), marks, 1);
        let members = lemma_passed_number(outer, contents, Mark::Version, 0);
        lemma_finds_behind(
            outer.push(members),
            seq![Mark::Type(DerType::Sequence), Mark::Version],
            algorithm_marks(algorithm),
            0,
        );
        lemma_algorithm_found(outer, members, algorithm);
        assert(octets == key_information(members, is_public) + tail);
    }
}

/// An object identifier that is not the one that was looked for: which it is, and what follows it.
proof fn lemma_other_oid(outer: Seq<Seq<u8>>, here: Seq<u8>, arcs: Seq<u64>, fault: KeyFault)
    -> (found: (Seq<u64>, Seq<u8>))
    requires
        looked_for(outer.push(here), Mark::Oid(arcs)) == Err::<bool, KeyFault>(fault),
    ensures
        fault == KeyFault::IncompatibleOid(found.0),
        found.0 != arcs,
        here == object_identifier(found.0) + found.1,
{
    reveal(looked_for);
    assert(outer.push(here).drop_last() == outer);
    let header = read_header(here)->Ok_0;
    let contents = here.subrange(header.start as int, header.end as int);
    lemma_header_writes_back(here);
    lemma_oid_writes_back(contents);
    assert(here == here.take(header.end as int) + here.skip(header.end as int));
    (read_oid(contents)->0, here.skip(header.end as int))
}

/// A version that is not zero: which it is, and what follows it.
proof fn lemma_other_version(outer: Seq<Seq<u8>>, here: Seq<u8>, fault: KeyFault) -> (found: (
    u8,
    Seq<u8>,
))
    requires
        looked_for(outer.push(here), Mark::Version) == Err::<bool, KeyFault>(fault),
    ensures
        fault == KeyFault::UnrecognizedVersion(found.0),
        found.0 != 0,
        here == integer(found.0 as nat) + found.1,
{
    reveal(looked_for);
    assert(outer.push(here).drop_last() == outer);
    let header = read_header(here)->Ok_0;
    let contents = here.subrange(header.start as int, header.end as int);
    lemma_header_writes_back(here);
    lemma_u8_reads_back(read_u8(contents)->0);
    assert(here == here.take(header.end as int) + here.skip(header.end as int));
    (read_u8(contents)->0, here.skip(header.end as int))
}

proof fn lemma_fault_step(pending: Seq<Seq<u8>>, marks: Seq<Mark>, i: int, fault: KeyFault)
    requires
        0 <= i < marks.len(),
        finds(pending, marks, i) == Err::<bool, KeyFault>(fault),
    ensures
        looked_for(pending, marks[i]) == Err::<bool, KeyFault>(fault) || (looked_for(
            pending,
            marks[i],
        ) == Ok::<bool, KeyFault>(true) && finds(moved_on(pending), marks, i + 1) == Err::<
            bool,
            KeyFault,
        >(fault)),
{
}

proof fn lemma_faults_of_parameters(
    pending: Seq<Seq<u8>>,
    algorithm: RsaPssJwsAlgorithm,
    i: int,
    fault: KeyFault,
)
    requires
        2 <= i,
        finds(pending, algorithm_marks(algorithm), i) == Err::<bool, KeyFault>(fault),
    ensures
        fault is IncompatibleOid || (fault matches KeyFault::IncompatibleSaltLength(salt) && salt
            != algorithm.salt_octets()),
    decreases 15 - i,
{
    let marks = algorithm_marks(algorithm);
    if i < 15 {
        reveal(looked_for);
        if looked_for(pending, marks[i]) == Ok::<bool, KeyFault>(true) {
            lemma_faults_of_parameters(moved_on(pending), algorithm, i + 1, fault);
        }
    }
}

/// Whether a fault is what there is to report of octets that begin with an AlgorithmIdentifier:
/// the algorithm, where it is not RSASSA-PSS, and else one of its parameters.
pub open spec fn is_fault_of_algorithm(
    algorithm: RsaPssJwsAlgorithm,
    fault: KeyFault,
    octets: Seq<u8>,
) -> bool {
    exists|found: Seq<u64>, rest: Seq<u8>, tail: Seq<u8>|
        octets == #[trigger] (sequence(object_identifier(found) + rest) + tail) && if found
            != seq![1u64, 2, 840, 113549, 1, 1, 10] {
            fault == KeyFault::IncompatibleOid(found)
        } else {
            fault is IncompatibleOid || (fault matches KeyFault::IncompatibleSaltLength(salt)
                && salt != algorithm.salt_octets())
        }
}

proof fn lemma_fault_of_algorithm(
    outer: Seq<Seq<u8>>,
    here: Seq<u8>,
    algorithm: RsaPssJwsAlgorithm,
    fault: KeyFault,
)
    requires
        finds(outer.push(here), algorithm_marks(algorithm), 0) == Err::<bool, KeyFault>(fault),
    ensures
        is_fault_of_algorithm(algorithm, fault, here),
{
    let marks = algorithm_marks(algorithm);
    lemma_fault_step(outer.push(here), marks, 0, fault);
    assert(looked_for(outer.push(here), marks[0]) == Ok::<bool, KeyFault>(true)) by {
        reveal(looked_for);
    }
    let (contents, tail) = lemma_entered(outer, here, DerType::Sequence);
    let inside = outer.push(tail);
    lemma_fault_step(inside.push(contents), marks, 1, fault);
    if looked_for(inside.push(contents), marks[1]) == Ok::<bool, KeyFault>(true) {
        let rest = lemma_passed_oid(inside, contents, rsassa_pss_arcs());
        lemma_faults_of_parameters(inside.push(rest), algorithm, 2, fault);
        assert(here == sequence(object_identifier(rsassa_pss_arcs()) + rest) + tail);
    } else {
        let (found, rest) = lemma_other_oid(inside, contents, rsassa_pss_arcs(), fault);
        assert(here == sequence(object_identifier(found) + rest) + tail);
    }
}

/// A SEQUENCE that begins with a version.
pub open spec fn versioned_information(version: u8, members: Seq<u8>) -> Seq<u8> {
    sequence(integer(version as nat) + members)
}

/// Whether octets begin with such a SEQUENCE.
pub open spec fn begins_with_version(version: u8, octets: Seq<u8>) -> bool {
    exists|members: Seq<u8>, tail: Seq<u8>|
        octets == #[trigger] (versioned_information(version, members) + tail)
}

/// Octets are refused, and not taken for a bare key, only where they are a SEQUENCE that begins as
/// a key with its algorithm does: with a version other than zero, where the key is private, or with
/// an AlgorithmIdentifier that is not that of the algorithm. The fault says which.
pub proof fn law_refused_key_says_what_it_is_for(
    algorithm: RsaPssJwsAlgorithm,
    octets: Seq<u8>,
    is_public: bool,
    fault: KeyFault,
)
    requires
        detected(algorithm, octets, is_public) == Err::<bool, KeyFault>(fault),
    ensures
        fault matches KeyFault::UnrecognizedVersion(version) ==> version != 0 && !is_public
            && begins_with_version(version, octets),
        !(fault is UnrecognizedVersion) ==> exists|members: Seq<u8>, tail: Seq<u8>|
            octets == #[trigger] (key_information(members, is_public) + tail)
                && is_fault_of_algorithm(algorithm, fault, members),
{
    let top = Seq::<Seq<u8>>::empty();
    let marks = key_info_marks(algorithm, is_public);
    assert(seq![octets] == top.push(octets));
    lemma_fault_step(top.push(octets), marks, 0, fault);
    assert(looked_for(top.push(octets), marks[0]) == Ok::<bool, KeyFault>(true)) by {
        reveal(looked_for);
    }
    let (contents, tail) = lemma_entered(top, octets, DerType::Sequence);
    let outer = top.push(tail);
    lemma_fault_step(outer.push(contents), marks, 1, fault);
    if is_public {
        lemma_finds_behind(
            outer.push(contents),
            seq![Mark::Type(DerType::Sequence)],
            algorithm_marks(algorithm),
            0,
        );
        lemma_fault_of_algorithm(outer, contents, algorithm, fault);
        assert(octets == key_information(contents, is_public) + tail);
        assert(!(fault is UnrecognizedVersion));
    } else if looked_for(outer.push(contents), marks[1]) == Ok::<bool, KeyFault>(true) {
        let members = lemma_passed_number(outer, contents, Mark::Version, 0);
        lemma_finds_behind(
            outer.push(members),
            seq![Mark::Type(DerType::Sequence), Mark::Version],
            algorithm_marks(algorithm),
            0,
        );
        lemma_fault_of_algorithm(outer, members, algorithm, fault);
        assert(octets == key_information(members, is_public) + tail);
        assert(!(fault is UnrecognizedVersion));
    } else {
        let (version, members) = lemma_other_version(outer, contents, fault);
        assert(octets == versioned_information(version, members) + tail);
        assert(begins_with_version(version, octets));
    }
}

} // verus!
