//! What DER values look like, octet by octet.
use crate::der::arc::{arc_octets, leading_groups};
use crate::der::builder::Draft;
use crate::der::header::{
    lemma_header_reads_back, length_octets, read_header, read_length, read_tag, tag_octets,
    value_octets,
};
use crate::der::number::{
    integer_contents, lemma_eight_octets, lemma_shortest_octets, octets_value, shortest_octets,
};
use crate::der::oid::{arcs_octets, oid_contents, valid_arcs};
use crate::der::reader::{leave_ended, lemma_u8_reads_back, read_u8, step, Event};
use crate::der::types::{DerClass, DerError, DerType};
use crate::rsapss::pkcs1::{bare_key, integers, octets_values};
use crate::rsapss::pkcs8::key_info;
use crate::rsapss::RsaPssJwsAlgorithm;
use vstd::prelude::*;

verus! {

/// The number that digits stand for in a number system, the most significant digit first.
pub open spec fn positional(digits: Seq<u8>, base: nat) -> nat
    decreases digits.len(),
{
    if digits.len() == 0 {
        0
    } else {
        positional(digits.drop_last(), base) * base + digits.last() as nat % base
    }
}

/// Big-endian octets stand for a number to the base 256.
pub proof fn law_octets_stand_for_a_number(octets: Seq<u8>)
    ensures
        octets_value(octets) == positional(octets, 256),
    decreases octets.len(),
{
    if octets.len() > 0 {
        law_octets_stand_for_a_number(octets.drop_last());
    }
}

/// The shortest octets of a number stand for it and do not begin with a zero, but for zero itself,
/// which takes one octet.
pub proof fn law_shortest_octets(n: nat)
    ensures
        positional(shortest_octets(n), 256) == n,
        shortest_octets(n).len() > 0,
        n > 0 ==> shortest_octets(n)[0] != 0,
        n == 0 ==> shortest_octets(n).len() == 1,
{
    lemma_shortest_octets(n);
    law_octets_stand_for_a_number(shortest_octets(n));
}

/// The contents of an INTEGER stand for its number, read as no negative one, and have no octet too
/// many.
pub proof fn law_integer_contents(n: nat)
    ensures
        ({
            let contents = integer_contents(n);
            &&& contents.len() > 0
            &&& positional(contents, 256) == n
            &&& contents[0] < 128
            &&& contents.len() > 1 && contents[0] == 0 ==> contents[1] >= 128
        }),
{
    law_shortest_octets(n);
    let shortest = shortest_octets(n);
    let contents = integer_contents(n);
    lemma_zero_in_front(shortest);
    if shortest[0] >= 128 {
        assert(contents[1] == shortest[0]);
    }
}

proof fn lemma_zero_in_front(octets: Seq<u8>)
    ensures
        positional(seq![0u8] + octets, 256) == positional(octets, 256),
    decreases octets.len(),
{
    let longer = seq![0u8] + octets;
    if octets.len() == 0 {
        reveal_with_fuel(positional, 2);
        assert(longer.drop_last() == octets);
    } else {
        lemma_zero_in_front(octets.drop_last());
        assert(longer.drop_last() == seq![0u8] + octets.drop_last());
    }
}

/// A length below 128 is one octet. A longer one is the number of octets that follow, with the
/// leading bit set, and these stand for the length and do not begin with a zero.
pub proof fn law_length_octets(n: nat)
    ensures
        n < 128 ==> length_octets(n) == seq![n as u8],
        n >= 128 && n <= u64::MAX ==> {
            let octets = length_octets(n);
            &&& octets.len() >= 2
            &&& octets[0] == 128 + (octets.len() - 1)
            &&& octets[1] != 0
            &&& positional(octets.drop_first(), 256) == n
        },
{
    law_shortest_octets(n);
    if n >= 128 && n <= u64::MAX {
        lemma_eight_octets(n);
        assert(length_octets(n).drop_first() == shortest_octets(n));
    }
}

proof fn lemma_groups(n: nat)
    ensures
        positional(leading_groups(n), 128) == n,
        forall|i: int| 0 <= i < leading_groups(n).len() ==> #[trigger] leading_groups(n)[i] >= 128,
        n > 0 ==> leading_groups(n).len() > 0 && leading_groups(n)[0] > 128,
        n == 0 ==> leading_groups(n).len() == 0,
    decreases n,
{
    if n > 0 {
        lemma_groups(n / 128);
        assert(leading_groups(n).drop_last() == leading_groups(n / 128));
    }
}

/// An arc is digits to the base 128, each with the leading bit set but the last, and the first of
/// several is no zero.
pub proof fn law_arc_octets(n: nat)
    ensures
        ({
            let octets = arc_octets(n);
            &&& octets.len() > 0
            &&& positional(octets, 128) == n
            &&& octets.last() < 128
            &&& forall|i: int| 0 <= i < octets.len() - 1 ==> #[trigger] octets[i] >= 128
            &&& octets.len() > 1 ==> octets[0] != 128
        }),
{
    lemma_groups(n / 128);
    assert(arc_octets(n).drop_last() == leading_groups(n / 128));
}

/// The first two arcs of an object identifier share one number, forty times the first and the
/// second, and each further arc stands behind the others.
pub proof fn law_object_identifier_contents(arcs: Seq<u64>, arc: u64)
    ensures
        arcs.len() == 2 ==> oid_contents(arcs) == arc_octets((40 * arcs[0] + arcs[1]) as nat),
        arcs.len() >= 2 ==> oid_contents(arcs.push(arc)) == oid_contents(arcs) + arc_octets(
            arc as nat,
        ),
{
    if arcs.len() == 2 {
        assert(arcs.skip(2) == Seq::<u64>::empty());
        assert(oid_contents(arcs) == arc_octets((40 * arcs[0] + arcs[1]) as nat));
    }
    if arcs.len() >= 2 {
        assert(arcs.push(arc).skip(2) == arcs.skip(2).push(arc));
        lemma_arcs_pushed(arcs.skip(2), arc);
    }
}

proof fn lemma_arcs_pushed(arcs: Seq<u64>, arc: u64)
    ensures
        arcs_octets(arcs.push(arc)) == arcs_octets(arcs) + arc_octets(arc as nat),
    decreases arcs.len(),
{
    let longer = arcs.push(arc);
    if arcs.len() == 0 {
        assert(longer.drop_first() == arcs);
        assert(arcs_octets(longer.drop_first()) == Seq::<u8>::empty());
    } else {
        assert(longer.drop_first() == arcs.drop_first().push(arc));
        lemma_arcs_pushed(arcs.drop_first(), arc);
    }
}

/// Arcs name an object where there are at least two, the first is 0, 1 or 2, the second is below
/// 40 behind a 0 or a 1, and the number that they share can be counted in 64 bits.
pub proof fn law_arcs_name_an_object(arcs: Seq<u64>)
    requires
        arcs.len() >= 2,
    ensures
        valid_arcs(arcs) <==> match arcs[0] {
            0 => arcs[1] <= 39,
            1 => arcs[1] <= 39,
            2 => arcs[1] <= u64::MAX - 80,
            _ => false,
        },
        !valid_arcs(arcs.take(1)) && !valid_arcs(Seq::empty()),
{
}

/// A tag holds the class in its first two bits, the form in the third, and the number in the
/// others, or, where the number is 31 or more, the number 31 there and an arc behind.
pub proof fn law_tag_octets(der_type: DerType, constructed: bool)
    ensures
        ({
            let octets = tag_octets(der_type, constructed);
            let class = match der_type {
                DerType::Other(DerClass::Application, _) => 1int,
                DerType::Other(DerClass::ContextSpecific, _) => 2,
                DerType::Other(DerClass::Private, _) => 3,
                _ => 0,
            };
            let number = match der_type {
                DerType::EndOfContents => 0int,
                DerType::Integer => 2,
                DerType::BitString => 3,
                DerType::OctetString => 4,
                DerType::ObjectIdentifier => 6,
                DerType::Sequence => 16,
                DerType::Other(_, number) => number as int,
            };
            &&& octets.len() > 0
            &&& octets[0] / 64 == class
            &&& octets[0] / 32 % 2 == if constructed {
                1int
            } else {
                0
            }
            &&& number < 31 ==> octets.len() == 1 && octets[0] % 32 == number
            &&& number >= 31 ==> octets[0] % 32 == 31 && octets.drop_first() == arc_octets(
                number as nat,
            )
        }),
{
    let octets = tag_octets(der_type, constructed);
    if der_type.number() >= 31 {
        assert(octets.drop_first() == arc_octets(der_type.number() as nat));
    }
}

/// A value is its tag, its length and its contents, however long these are.
pub proof fn law_value_octets(der_type: DerType, constructed: bool, contents: Seq<u8>)
    ensures
        ({
            let octets = value_octets(der_type, constructed, contents);
            let tag = tag_octets(der_type, constructed);
            let length = length_octets(contents.len());
            &&& octets.len() == tag.len() + length.len() + contents.len()
            &&& tag.is_prefix_of(octets)
            &&& length == octets.subrange(tag.len() as int, octets.len() - contents.len())
            &&& contents == octets.skip(octets.len() - contents.len())
        }),
{
}

/// A reader that comes upon a constructed value has what it holds left to read, and then what
/// follows it; upon another it has its contents, and what follows it left.
pub proof fn law_reader_goes_from_value_to_value(
    outer: Seq<Seq<u8>>,
    der_type: DerType,
    constructed: bool,
    contents: Seq<u8>,
    tail: Seq<u8>,
)
    requires
        der_type.is_plain(),
        der_type.takes_form(constructed),
        contents.len() <= u64::MAX,
    ensures
        ({
            let pending = outer.push(value_octets(der_type, constructed, contents) + tail);
            if constructed {
                step(pending) == Ok::<_, DerError>(
                    Some(
                        (
                            outer.push(tail).push(contents),
                            Event { der_type, contents: None, ended: 0 },
                        ),
                    ),
                )
            } else {
                step(pending) == Ok::<_, DerError>(
                    Some(
                        (
                            outer.push(tail),
                            Event { der_type, contents: Some(contents), ended: 0 },
                        ),
                    ),
                )
            }
        }),
{
    let octets = value_octets(der_type, constructed, contents) + tail;
    lemma_header_reads_back(der_type, constructed, contents, tail);
    assert(outer.push(octets).drop_last() == outer);
}

/// A reader at a place where nothing is left of the innermost values leaves all of them at once,
/// and is told how many they are. At the end of the input there is nothing to come upon.
pub proof fn law_reader_leaves_what_has_ended(
    outer: Seq<Seq<u8>>,
    here: Seq<u8>,
    count: nat,
)
    requires
        count > 0,
        outer.len() == 0 || here.len() > 0,
    ensures
        step(outer.push(here) + Seq::new(count, |i: int| Seq::<u8>::empty())) == Ok::<_, DerError>(
            Some(
                (
                    outer.push(here),
                    Event { der_type: DerType::EndOfContents, contents: None, ended: count },
                ),
            ),
        ),
        step(seq![Seq::<u8>::empty()]) == Ok::<Option<(Seq<Seq<u8>>, Event)>, DerError>(None),
{
    let base = outer.push(here);
    lemma_leave_all(base, count);
    let pending = base + Seq::new(count, |i: int| Seq::<u8>::empty());
    assert(pending.last().len() == 0);
}

proof fn lemma_leave_all(base: Seq<Seq<u8>>, count: nat)
    requires
        base.len() > 0,
        base.len() == 1 || base.last().len() > 0,
    ensures
        leave_ended(base + Seq::new(count, |i: int| Seq::<u8>::empty())) == base,
    decreases count,
{
    let pending = base + Seq::new(count, |i: int| Seq::<u8>::empty());
    if count == 0 {
        assert(pending == base);
    } else {
        let fewer = (count - 1) as nat;
        assert(pending.drop_last() == base + Seq::new(fewer, |i: int| Seq::<u8>::empty()));
        lemma_leave_all(base, fewer);
    }
}

/// Where no value can be read, the reader goes no further and says why: there is no tag, or none
/// that DER has, or the length is none, or reaches beyond what holds the value.
pub proof fn law_reader_stops_at_what_is_no_value(outer: Seq<Seq<u8>>, here: Seq<u8>)
    requires
        here.len() > 0,
    ensures
        ({
            let next = step(outer.push(here));
            &&& read_tag(here) is None ==> next is Err && next->Err_0 == DerError::InvalidTag
            &&& next is Err && read_tag(here) is Some ==> next->Err_0 == DerError::InvalidLength
            &&& read_tag(here) matches Some((_, _, used)) ==> read_length(
                here.skip(used as int),
            ) is None ==> next is Err
            &&& next is Ok ==> next->Ok_0 is Some && read_header(here) is Ok
        }),
{
}

/// Every type that has a name of its own, and every type of another class than the universal one,
/// is the type of values. SEQUENCEs are constructed, INTEGERs, strings and object identifiers are
/// not, and the values of other classes may be either.
pub proof fn law_types_of_values(class: DerClass, number: u64, constructed: bool)
    ensures
        DerType::Integer.is_plain() && DerType::Integer.takes_form(constructed) == !constructed,
        DerType::BitString.is_plain() && DerType::BitString.takes_form(constructed) == !constructed,
        DerType::OctetString.is_plain() && DerType::OctetString.takes_form(constructed)
            == !constructed,
        DerType::ObjectIdentifier.is_plain() && DerType::ObjectIdentifier.takes_form(constructed)
            == !constructed,
        DerType::Sequence.is_plain() && DerType::Sequence.takes_form(constructed) == constructed,
        class != DerClass::Universal ==> DerType::Other(class, number).is_plain()
            && DerType::Other(class, number).takes_form(constructed),
        class == DerClass::Universal ==> (DerType::Other(class, number).is_plain() <==> number != 0
            && number != 2 && number != 3 && number != 4 && number != 6 && number != 16),
        class == DerClass::Universal ==> (DerType::Other(class, number).takes_form(true) <==> number
            == 8 || number == 11 || number == 16 || number == 17 || number == 29),
        class == DerClass::Universal ==> DerType::Other(class, number).takes_form(false)
            == !DerType::Other(class, number).takes_form(true),
{
}

/// What is written into a draft stands behind what it holds, and leaves open what is open.
pub proof fn law_drafts_grow_at_the_end(draft: Draft, octets: Seq<u8>)
    ensures
        draft.with(octets).contents == draft.contents + octets,
        draft.with(octets).open == draft.open,
{
}

/// A number of eight bits is read from the contents that are written of it, and from no others.
pub proof fn law_small_numbers_have_one_form(value: u8, contents: Seq<u8>)
    ensures
        read_u8(contents) == Some(value) <==> contents == integer_contents(value as nat),
{
    lemma_u8_reads_back(value);
}

/// INTEGERs stand one behind the other.
pub proof fn law_integers_stand_in_order(numbers: Seq<nat>, n: nat)
    ensures
        integers(Seq::empty()) == Seq::<u8>::empty(),
        integers(numbers.push(n)) == integers(numbers) + value_octets(
            DerType::Integer,
            false,
            integer_contents(n),
        ),
{
    assert(numbers.push(n).drop_last() == numbers);
}

/// Octets of numbers stand for numbers, one for one.
pub proof fn law_numbers_of_octets(octets: Seq<Vec<u8>>)
    ensures
        octets_values(octets).len() == octets.len(),
        forall|i: int|
            0 <= i < octets.len() ==> #[trigger] octets_values(octets)[i] == positional(
                octets[i]@,
                256,
            ),
{
    assert forall|i: int| 0 <= i < octets.len() implies #[trigger] octets_values(octets)[i]
        == positional(octets[i]@, 256) by {
        law_octets_stand_for_a_number(octets[i]@);
    }
}

/// A bare key is a SEQUENCE of INTEGERs: the numbers, and in front of those of a private key the
/// version zero.
pub proof fn law_bare_key_is_a_sequence(numbers: Seq<nat>)
    ensures
        bare_key(numbers, true) == value_octets(DerType::Sequence, true, integers(numbers)),
        bare_key(numbers, false) == value_octets(
            DerType::Sequence,
            true,
            value_octets(DerType::Integer, false, seq![0u8]) + integers(numbers),
        ),
{
}

/// A key with its algorithm, of whatever length: RSASSA-PSS, the digest, MGF1 with the digest and
/// the length of the salt, and then the key, as a BIT STRING of whole octets or, behind the version
/// zero, as an OCTET STRING.
pub proof fn law_key_with_its_algorithm(
    algorithm: RsaPssJwsAlgorithm,
    key: Seq<u8>,
    place: int,
)
    requires
        place == match algorithm {
            RsaPssJwsAlgorithm::PS256 => 0int,
            RsaPssJwsAlgorithm::PS384 => 1,
            RsaPssJwsAlgorithm::PS512 => 2,
        },
    ensures
        ({
            let oid = |arcs: Seq<u64>|
                value_octets(DerType::ObjectIdentifier, false, oid_contents(arcs));
            let constructed = |contents: Seq<u8>| value_octets(DerType::Sequence, true, contents);
            let under = |number: u64, value: Seq<u8>|
                value_octets(DerType::Other(DerClass::ContextSpecific, number), true, value);
            let digest = constructed(oid(seq![2u64, 16, 840, 1, 101, 3, 4, 2, (1 + place) as u64]));
            let mask = constructed(oid(seq![1u64, 2, 840, 113549, 1, 1, 8]) + digest);
            let salt = value_octets(DerType::Integer, false, seq![(32 + 16 * place) as u8]);
            let identifier = constructed(
                oid(seq![1u64, 2, 840, 113549, 1, 1, 10]) + constructed(
                    under(0, digest) + under(1, mask) + under(2, salt),
                ),
            );
            let version = value_octets(DerType::Integer, false, seq![0u8]);
            &&& key_info(algorithm, key, true) == constructed(
                identifier + value_octets(DerType::BitString, false, seq![0u8] + key),
            )
            &&& key_info(algorithm, key, false) == constructed(
                version + identifier + value_octets(DerType::OctetString, false, key),
            )
        }),
{
    assert(integer_contents(algorithm.salt_octets() as nat) == seq![(32 + 16 * place) as u8]);
    assert(integer_contents(0) == seq![0u8]);
}

} // verus!
