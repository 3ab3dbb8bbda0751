//! What detection says of the keys that the library writes.
use crate::der::header::{lemma_header_reads_back, value_octets};
use crate::der::number::integer_contents;
use crate::der::oid::{lemma_oid_reads_back, oid_contents};
use crate::der::reader::{leave_ended, lemma_u8_reads_back, Event};
use crate::der::types::{DerClass, DerType};
use crate::error::KeyFault;
use crate::rsapss::detect::{
    algorithm_marks, detected, finds, key_info_marks, lemma_finds_behind, looked_for, meets,
    moved_on, Mark,
};
use crate::rsapss::pkcs1::{bare_key, integers};
use crate::rsapss::pkcs8::{
    algorithm_identifier, holds_key, integer, object_identifier, private_key_info, pss_parameters,
    sequence, tagged,
};
use crate::rsapss::{mgf1_arcs, rsassa_pss_arcs, RsaPssJwsAlgorithm};
use vstd::prelude::*;

verus! {

/// A reader that comes upon a constructed value enters it: what it holds is left to read, and then
/// what follows it.
pub proof fn lemma_enters(outer: Seq<Seq<u8>>, der_type: DerType, contents: Seq<u8>, tail: Seq<u8>)
    requires
        der_type.is_plain(),
        der_type.takes_form(true),
        contents.len() <= u64::MAX,
    ensures
        ({
            let pending = outer.push(value_octets(der_type, true, contents) + tail);
            &&& moved_on(pending) == outer.push(tail).push(contents)
            &&& forall|mark: Mark| #[trigger]
                looked_for(pending, mark) == meets(
                    Event { der_type, contents: None, ended: 0 },
                    mark,
                )
        }),
{
    reveal(looked_for);
    reveal(moved_on);
    let octets = value_octets(der_type, true, contents) + tail;
    lemma_header_reads_back(der_type, true, contents, tail);
    assert(outer.push(octets).drop_last() == outer);
}

/// A reader that comes upon another value has what follows it left to read.
pub proof fn lemma_passes(outer: Seq<Seq<u8>>, der_type: DerType, contents: Seq<u8>, tail: Seq<u8>)
    requires
        der_type.is_plain(),
        der_type.takes_form(false),
        contents.len() <= u64::MAX,
    ensures
        ({
            let pending = outer.push(value_octets(der_type, false, contents) + tail);
            &&& moved_on(pending) == outer.push(tail)
            &&& forall|mark: Mark| #[trigger]
                looked_for(pending, mark) == meets(
                    Event { der_type, contents: Some(contents), ended: 0 },
                    mark,
                )
        }),
{
    reveal(looked_for);
    reveal(moved_on);
    let octets = value_octets(der_type, false, contents) + tail;
    lemma_header_reads_back(der_type, false, contents, tail);
    assert(outer.push(octets).drop_last() == outer);
}

/// A reader at the end of contents leaves every value that ends there.
pub proof fn lemma_leaves(pending: Seq<Seq<u8>>)
    requires
        pending.len() > 1,
        pending.last().len() == 0,
    ensures
        moved_on(pending) == leave_ended(pending),
        forall|mark: Mark| #[trigger]
            looked_for(pending, mark) == meets(
                Event {
                    der_type: DerType::EndOfContents,
                    contents: None,
                    ended: (pending.len() - leave_ended(pending).len()) as nat,
                },
                mark,
            ),
{
    reveal(looked_for);
    reveal(moved_on);
}

/// Octets followed by nothing.
pub proof fn lemma_alone(octets: Seq<u8>)
    ensures
        octets + Seq::<u8>::empty() == octets,
{
}

/// A value is no shorter than what it holds.
pub proof fn lemma_longer(der_type: DerType, constructed: bool, contents: Seq<u8>)
    ensures
        contents.len() <= value_octets(der_type, constructed, contents).len(),
{
}

/// One mark that is met.
pub proof fn lemma_met(pending: Seq<Seq<u8>>, marks: Seq<Mark>, i: int)
    requires
        0 <= i < marks.len(),
        looked_for(pending, marks[i]) == Ok::<bool, KeyFault>(true),
    ensures
        finds(pending, marks, i) == finds(moved_on(pending), marks, i + 1),
{
}

/// The digest under its tag: it is entered twice, and left at once where it is the wanted one.
proof fn lemma_digest(
    outer: Seq<Seq<u8>>,
    wanted: RsaPssJwsAlgorithm,
    actual: RsaPssJwsAlgorithm,
    tail: Seq<u8>,
)
    requires
        tail.len() > 0,
        tagged(0, sequence(object_identifier(actual.digest_arcs()))).len() <= u64::MAX,
    ensures
        ({
            let digest = sequence(object_identifier(actual.digest_arcs()));
            let marks = algorithm_marks(wanted);
            finds(outer.push(tagged(0, digest) + tail), marks, 3) == if wanted == actual {
                finds(outer.push(tail), marks, 7)
            } else {
                Err::<bool, KeyFault>(KeyFault::IncompatibleOid(actual.digest_arcs()))
            }
        }),
{
    let none = Seq::<u8>::empty();
    let marks = algorithm_marks(wanted);
    let arcs = actual.digest_arcs();
    let oid = object_identifier(arcs);
    let digest = sequence(oid);
    let p3 = outer.push(tagged(0, digest) + tail);
    let p4 = outer.push(tail).push(digest);
    let p5 = outer.push(tail).push(none).push(oid);
    let p6 = outer.push(tail).push(none).push(none);
    let tag = DerType::Other(DerClass::ContextSpecific, 0);
    lemma_longer(tag, true, digest);
    lemma_longer(DerType::Sequence, true, oid);
    lemma_longer(DerType::ObjectIdentifier, false, oid_contents(arcs));
    lemma_alone(digest);
    lemma_alone(oid);
    lemma_oid_reads_back(arcs);
    lemma_enters(outer, tag, digest, tail);
    lemma_met(p3, marks, 3);
    lemma_enters(outer.push(tail), DerType::Sequence, oid, none);
    lemma_met(p4, marks, 4);
    lemma_passes(
        outer.push(tail).push(none),
        DerType::ObjectIdentifier,
        oid_contents(arcs),
        none,
    );
    assert(looked_for(p5, marks[5]) == meets(
        Event { der_type: DerType::ObjectIdentifier, contents: Some(oid_contents(arcs)), ended: 0 },
        Mark::Oid(wanted.digest_arcs()),
    ));
    if wanted == actual {
        lemma_met(p5, marks, 5);
        lemma_leaves(p6);
        reveal_with_fuel(leave_ended, 3);
        assert(p6.drop_last() == outer.push(tail).push(none));
        assert(p6.drop_last().drop_last() == outer.push(tail));
        assert(leave_ended(p6) == outer.push(tail));
        lemma_met(p6, marks, 6);
    } else {
        assert(wanted.digest_arcs()[8] != arcs[8]);
    }
}

/// MGF1 with its digest under its tag: it is entered three times, and left at once.
proof fn lemma_mask(outer: Seq<Seq<u8>>, algorithm: RsaPssJwsAlgorithm, tail: Seq<u8>)
    requires
        tail.len() > 0,
        tagged(
            1,
            sequence(
                object_identifier(mgf1_arcs()) + sequence(
                    object_identifier(algorithm.digest_arcs()),
                ),
            ),
        ).len() <= u64::MAX,
    ensures
        ({
            let digest = sequence(object_identifier(algorithm.digest_arcs()));
            let mask = sequence(object_identifier(mgf1_arcs()) + digest);
            let marks = algorithm_marks(algorithm);
            finds(outer.push(tagged(1, mask) + tail), marks, 7) == finds(
                outer.push(tail),
                marks,
                13,
            )
        }),
{
    let none = Seq::<u8>::empty();
    let marks = algorithm_marks(algorithm);
    let arcs = algorithm.digest_arcs();
    let oid = object_identifier(arcs);
    let digest = sequence(oid);
    let mgf1 = object_identifier(mgf1_arcs());
    let mask = sequence(mgf1 + digest);
    let behind = outer.push(tail);
    let p7 = outer.push(tagged(1, mask) + tail);
    let p8 = behind.push(mask);
    let p9 = behind.push(none).push(mgf1 + digest);
    let p10 = behind.push(none).push(digest);
    let p11 = behind.push(none).push(none).push(oid);
    let p12 = behind.push(none).push(none).push(none);
    let tag = DerType::Other(DerClass::ContextSpecific, 1);
    lemma_longer(tag, true, mask);
    lemma_longer(DerType::Sequence, true, mgf1 + digest);
    lemma_longer(DerType::ObjectIdentifier, false, oid_contents(mgf1_arcs()));
    lemma_longer(DerType::Sequence, true, oid);
    lemma_longer(DerType::ObjectIdentifier, false, oid_contents(arcs));
    lemma_alone(mask);
    lemma_alone(digest);
    lemma_alone(oid);
    lemma_oid_reads_back(mgf1_arcs());
    lemma_oid_reads_back(arcs);
    lemma_enters(outer, tag, mask, tail);
    lemma_met(p7, marks, 7);
    lemma_enters(behind, DerType::Sequence, mgf1 + digest, none);
    lemma_met(p8, marks, 8);
    lemma_passes(
        behind.push(none),
        DerType::ObjectIdentifier,
        oid_contents(mgf1_arcs()),
        digest,
    );
    lemma_met(p9, marks, 9);
    lemma_enters(behind.push(none), DerType::Sequence, oid, none);
    lemma_met(p10, marks, 10);
    lemma_passes(
        behind.push(none).push(none),
        DerType::ObjectIdentifier,
        oid_contents(arcs),
        none,
    );
    lemma_met(p11, marks, 11);
    lemma_leaves(p12);
    reveal_with_fuel(leave_ended, 4);
    assert(p12.drop_last() == behind.push(none).push(none));
    assert(p12.drop_last().drop_last() == behind.push(none));
    assert(p12.drop_last().drop_last().drop_last() == behind);
    assert(leave_ended(p12) == behind);
    lemma_met(p12, marks, 12);
}

/// The length of the salt under its tag.
proof fn lemma_salt(outer: Seq<Seq<u8>>, algorithm: RsaPssJwsAlgorithm, tail: Seq<u8>)
    requires
        tagged(2, integer(algorithm.salt_octets() as nat)).len() <= u64::MAX,
    ensures
        ({
            let salt = integer(algorithm.salt_octets() as nat);
            let marks = algorithm_marks(algorithm);
            finds(outer.push(tagged(2, salt) + tail), marks, 13) == Ok::<bool, KeyFault>(true)
        }),
{
    let none = Seq::<u8>::empty();
    let marks = algorithm_marks(algorithm);
    let contents = integer_contents(algorithm.salt_octets() as nat);
    let salt = integer(algorithm.salt_octets() as nat);
    let p13 = outer.push(tagged(2, salt) + tail);
    let p14 = outer.push(tail).push(salt);
    let tag = DerType::Other(DerClass::ContextSpecific, 2);
    lemma_longer(tag, true, salt);
    lemma_longer(DerType::Integer, false, contents);
    lemma_alone(salt);
    lemma_u8_reads_back(algorithm.salt_octets());
    lemma_enters(outer, tag, salt, tail);
    lemma_met(p13, marks, 13);
    lemma_passes(outer.push(tail), DerType::Integer, contents, none);
    lemma_met(p14, marks, 14);
}

/// The algorithm with its parameters.
proof fn lemma_algorithm(
    outer: Seq<Seq<u8>>,
    wanted: RsaPssJwsAlgorithm,
    actual: RsaPssJwsAlgorithm,
    tail: Seq<u8>,
)
    requires
        algorithm_identifier(actual).len() <= u64::MAX,
    ensures
        finds(outer.push(algorithm_identifier(actual) + tail), algorithm_marks(wanted), 0)
            == if wanted == actual {
            Ok::<bool, KeyFault>(true)
        } else {
            Err(KeyFault::IncompatibleOid(actual.digest_arcs()))
        },
{
    let none = Seq::<u8>::empty();
    let marks = algorithm_marks(wanted);
    let oid = object_identifier(rsassa_pss_arcs());
    let parameters = pss_parameters(actual);
    let digest = sequence(object_identifier(actual.digest_arcs()));
    let mask = sequence(object_identifier(mgf1_arcs()) + digest);
    let salt = integer(actual.salt_octets() as nat);
    let p0 = outer.push(algorithm_identifier(actual) + tail);
    let p1 = outer.push(tail).push(oid + sequence(parameters));
    let p2 = outer.push(tail).push(sequence(parameters));
    let inside = outer.push(tail).push(none);
    lemma_longer(DerType::Sequence, true, oid + sequence(parameters));
    lemma_longer(DerType::ObjectIdentifier, false, oid_contents(rsassa_pss_arcs()));
    lemma_longer(DerType::Sequence, true, parameters);
    lemma_alone(sequence(parameters));
    lemma_oid_reads_back(rsassa_pss_arcs());
    lemma_enters(outer, DerType::Sequence, oid + sequence(parameters), tail);
    lemma_met(p0, marks, 0);
    lemma_passes(
        outer.push(tail),
        DerType::ObjectIdentifier,
        oid_contents(rsassa_pss_arcs()),
        sequence(parameters),
    );
    lemma_met(p1, marks, 1);
    lemma_enters(outer.push(tail), DerType::Sequence, parameters, none);
    lemma_met(p2, marks, 2);
    assert(parameters == tagged(0, digest) + (tagged(1, mask) + tagged(2, salt)));
    lemma_digest(inside, wanted, actual, tagged(1, mask) + tagged(2, salt));
    if wanted == actual {
        lemma_mask(inside, actual, tagged(2, salt));
        lemma_alone(tagged(2, salt));
        lemma_salt(inside, actual, none);
    }
}

/// The private key document with the members behind the version set apart.
proof fn lemma_private_members(
    algorithm: RsaPssJwsAlgorithm,
    key: Seq<u8>,
    attributes: Seq<u8>,
) -> (behind: Seq<u8>)
    ensures
        private_key_info(algorithm, key, attributes) == sequence(
            integer(0) + (algorithm_identifier(algorithm) + behind),
        ),
{
    let octets = value_octets(DerType::OctetString, false, key);
    let id = algorithm_identifier(algorithm);
    assert(integer(0) + id + octets + attributes == integer(0) + (id + (octets + attributes)));
    octets + attributes
}

/// A document that holds a key with an algorithm is detected as one that this algorithm can use.
/// For another algorithm of the three it is an error, which names the digest of the key.
pub proof fn law_key_is_detected(
    wanted: RsaPssJwsAlgorithm,
    actual: RsaPssJwsAlgorithm,
    key: Seq<u8>,
    is_public: bool,
    document: Seq<u8>,
)
    requires
        holds_key(actual, key, is_public, document),
        document.len() <= u64::MAX,
    ensures
        detected(wanted, document, is_public) == if wanted == actual {
            Ok::<bool, KeyFault>(true)
        } else {
            Err(KeyFault::IncompatibleOid(actual.digest_arcs()))
        },
{
    let none = Seq::<u8>::empty();
    let top = Seq::<Seq<u8>>::empty();
    let outer = top.push(none);
    let marks = key_info_marks(wanted, is_public);
    let id = algorithm_identifier(actual);
    lemma_alone(document);
    assert(seq![document] == top.push(document));
    if is_public {
        let bits = value_octets(DerType::BitString, false, seq![0u8] + key);
        lemma_longer(DerType::Sequence, true, id + bits);
        lemma_enters(top, DerType::Sequence, id + bits, none);
        lemma_met(seq![document], marks, 0);
        lemma_algorithm(outer, wanted, actual, bits);
        lemma_finds_behind(
            outer.push(id + bits),
            seq![Mark::Type(DerType::Sequence)],
            algorithm_marks(wanted),
            0,
        );
    } else {
        let attributes = choose|attributes: Seq<u8>| document == #[trigger] private_key_info(
            actual,
            key,
            attributes,
        );
        let behind = lemma_private_members(actual, key, attributes);
        let version = integer(0);
        lemma_longer(DerType::Sequence, true, version + (id + behind));
        lemma_enters(top, DerType::Sequence, version + (id + behind), none);
        lemma_met(seq![document], marks, 0);
        lemma_longer(DerType::Integer, false, integer_contents(0));
        lemma_u8_reads_back(0);
        lemma_passes(outer, DerType::Integer, integer_contents(0), id + behind);
        lemma_met(outer.push(version + (id + behind)), marks, 1);
        lemma_algorithm(outer, wanted, actual, behind);
        lemma_finds_behind(
            outer.push(id + behind),
            seq![Mark::Type(DerType::Sequence), Mark::Version],
            algorithm_marks(wanted),
            0,
        );
    }
}

/// A private key with its algorithm is not taken for a public one, nor the other way round.
pub proof fn law_private_and_public_keys_are_told_apart(
    wanted: RsaPssJwsAlgorithm,
    actual: RsaPssJwsAlgorithm,
    key: Seq<u8>,
    is_public: bool,
    document: Seq<u8>,
)
    requires
        holds_key(actual, key, is_public, document),
        document.len() <= u64::MAX,
    ensures
        detected(wanted, document, !is_public) == Ok::<bool, KeyFault>(false),
{
    let none = Seq::<u8>::empty();
    let top = Seq::<Seq<u8>>::empty();
    let outer = top.push(none);
    let marks = key_info_marks(wanted, !is_public);
    let id = algorithm_identifier(actual);
    let id_contents = object_identifier(rsassa_pss_arcs()) + sequence(pss_parameters(actual));
    lemma_alone(document);
    assert(seq![document] == top.push(document));
    if is_public {
        let bits = value_octets(DerType::BitString, false, seq![0u8] + key);
        lemma_longer(DerType::Sequence, true, id + bits);
        lemma_enters(top, DerType::Sequence, id + bits, none);
        lemma_met(seq![document], marks, 0);
        lemma_longer(DerType::Sequence, true, id_contents);
        lemma_enters(outer, DerType::Sequence, id_contents, bits);
        assert(looked_for(outer.push(id + bits), marks[1]) == Ok::<bool, KeyFault>(false));
    } else {
        let attributes = choose|attributes: Seq<u8>| document == #[trigger] private_key_info(
            actual,
            key,
            attributes,
        );
        let behind = lemma_private_members(actual, key, attributes);
        let version = integer(0);
        lemma_longer(DerType::Sequence, true, version + (id + behind));
        lemma_enters(top, DerType::Sequence, version + (id + behind), none);
        lemma_met(seq![document], marks, 0);
        lemma_longer(DerType::Integer, false, integer_contents(0));
        lemma_passes(outer, DerType::Integer, integer_contents(0), id + behind);
        assert(looked_for(outer.push(version + (id + behind)), marks[1]) == Ok::<bool, KeyFault>(
            false,
        ));
    }
}

/// INTEGERs start with the first of them.
proof fn lemma_first_integer(numbers: Seq<nat>)
    requires
        numbers.len() > 0,
    ensures
        exists|tail: Seq<u8>| #[trigger] (integer(numbers[0]) + tail) == integers(numbers),
    decreases numbers.len(),
{
    let none = Seq::<u8>::empty();
    if numbers.len() == 1 {
        assert(integers(numbers.drop_last()) == none);
        assert(integer(numbers[0]) + none == integers(numbers));
    } else {
        let front = numbers.drop_last();
        lemma_first_integer(front);
        let tail = choose|tail: Seq<u8>| #[trigger]
            (integer(front[0]) + tail) == integers(front);
        assert(integer(numbers[0]) + (tail + integer(numbers.last())) == integers(numbers));
    }
}

/// A bare RSA key is not taken for one with its algorithm.
pub proof fn law_bare_key_is_detected(
    algorithm: RsaPssJwsAlgorithm,
    numbers: Seq<nat>,
    is_public: bool,
)
    requires
        numbers.len() > 0,
        bare_key(numbers, is_public).len() <= u64::MAX,
    ensures
        detected(algorithm, bare_key(numbers, is_public), is_public) == Ok::<bool, KeyFault>(false),
{
    let none = Seq::<u8>::empty();
    let top = Seq::<Seq<u8>>::empty();
    let outer = top.push(none);
    let contents = integer_contents(numbers[0]);
    lemma_first_integer(numbers);
    let tail = choose|tail: Seq<u8>| #[trigger] (integer(numbers[0]) + tail) == integers(numbers);
    let key = bare_key(numbers, is_public);
    let marks = key_info_marks(algorithm, is_public);
    lemma_alone(key);
    assert(seq![key] == top.push(key));
    lemma_longer(DerType::Integer, false, contents);
    if is_public {
        lemma_longer(DerType::Sequence, true, integers(numbers));
        lemma_passes(outer, DerType::Integer, contents, tail);
        lemma_enters(top, DerType::Sequence, integers(numbers), none);
        lemma_met(seq![key], marks, 0);
        assert(marks[1] == Mark::Type(DerType::Sequence));
        assert(looked_for(outer.push(integers(numbers)), marks[1]) == Ok::<bool, KeyFault>(false));
    } else {
        let version = integer(0);
        lemma_longer(DerType::Sequence, true, version + integers(numbers));
        lemma_passes(outer, DerType::Integer, contents, tail);
        lemma_enters(top, DerType::Sequence, version + integers(numbers), none);
        lemma_met(seq![key], marks, 0);
        lemma_longer(DerType::Integer, false, integer_contents(0));
        lemma_u8_reads_back(0);
        lemma_passes(outer, DerType::Integer, integer_contents(0), integers(numbers));
        lemma_met(outer.push(version + integers(numbers)), marks, 1);
        assert(marks[2] == Mark::Type(DerType::Sequence));
        assert(looked_for(outer.push(integers(numbers)), marks[2]) == Ok::<bool, KeyFault>(false));
    }
}

/// Where the marks of two searches part at an object identifier, and the one search finds all of
/// its marks, the other is stopped by that object identifier.
proof fn lemma_stopped_where_marks_part(
    pending: Seq<Seq<u8>>,
    found: Seq<Mark>,
    sought: Seq<Mark>,
    i: int,
    parting: int,
    found_arcs: Seq<u64>,
    sought_arcs: Seq<u64>,
)
    requires
        0 <= i <= parting < found.len(),
        parting < sought.len(),
        forall|k: int| i <= k < parting ==> #[trigger] found[k] == sought[k],
        found[parting] == Mark::Oid(found_arcs),
        sought[parting] == Mark::Oid(sought_arcs),
        found_arcs != sought_arcs,
        finds(pending, found, i) == Ok::<bool, KeyFault>(true),
    ensures
        finds(pending, sought, i) == Err::<bool, KeyFault>(KeyFault::IncompatibleOid(found_arcs)),
    decreases parting - i,
{
    if i < parting {
        assert(found[i] == sought[i]);
        lemma_stopped_where_marks_part(
            moved_on(pending),
            found,
            sought,
            i + 1,
            parting,
            found_arcs,
            sought_arcs,
        );
    } else {
        reveal(looked_for);
    }
}

/// A key that one algorithm takes for its own is refused by every other, whatever wrote it.
pub proof fn law_detected_key_is_for_one_algorithm(
    algorithm: RsaPssJwsAlgorithm,
    other: RsaPssJwsAlgorithm,
    octets: Seq<u8>,
    is_public: bool,
)
    requires
        algorithm != other,
        detected(algorithm, octets, is_public) == Ok::<bool, KeyFault>(true),
    ensures
        detected(other, octets, is_public) == Err::<bool, KeyFault>(
            KeyFault::IncompatibleOid(algorithm.digest_arcs()),
        ),
{
    assert(algorithm.digest_arcs()[8] != other.digest_arcs()[8]);
    lemma_stopped_where_marks_part(
        seq![octets],
        key_info_marks(algorithm, is_public),
        key_info_marks(other, is_public),
        0,
        if is_public {
            6
        } else {
            7
        },
        algorithm.digest_arcs(),
        other.digest_arcs(),
    );
}

} // verus!
