//! Object identifiers.
use crate::der::arc::{
    arc_octets, from_arc_octets, lemma_arc_reads_back, lemma_arc_writes_back, read_arc,
    to_arc_octets,
};
use crate::text::{dotted, push_dotted};
use vstd::prelude::*;

verus! {

/// Whether arcs name an object: at least two of them, the first at most two, the second below
/// forty unless the first is two, and the two together within 64 bits.
pub open spec fn valid_arcs(arcs: Seq<u64>) -> bool {
    &&& arcs.len() >= 2
    &&& arcs[0] <= 2
    &&& arcs[0] < 2 ==> arcs[1] < 40
    &&& arcs[1] + 80 <= u64::MAX
}

/// The octets of arcs one after the other.
pub open spec fn arcs_octets(arcs: Seq<u64>) -> Seq<u8>
    decreases arcs.len(),
{
    if arcs.len() == 0 {
        Seq::empty()
    } else {
        arc_octets(arcs[0] as nat) + arcs_octets(arcs.drop_first())
    }
}

/// The contents octets of a DER OBJECT IDENTIFIER: the first two arcs share one number.
pub open spec fn oid_contents(arcs: Seq<u64>) -> Seq<u8> {
    arc_octets((arcs[0] * 40 + arcs[1]) as nat) + arcs_octets(arcs.skip(2))
}

/// Reads octets to their end as arcs.
pub open spec fn read_arcs(octets: Seq<u8>) -> Option<Seq<u64>>
    decreases octets.len(),
{
    if octets.len() == 0 {
        Some(Seq::empty())
    } else {
        match read_arc(octets) {
            Some((used, n)) => if 0 < used <= octets.len() {
                match read_arcs(octets.skip(used as int)) {
                    Some(arcs) => Some(seq![n as u64] + arcs),
                    None => None,
                }
            } else {
                None
            },
            None => None,
        }
    }
}

/// The two arcs that share the number `n`.
pub open spec fn first_arcs(n: u64) -> Seq<u64> {
    if n < 40 {
        seq![0u64, n]
    } else if n < 80 {
        seq![1u64, (n - 40) as u64]
    } else {
        seq![2u64, (n - 80) as u64]
    }
}

/// The arcs that contents octets of an OBJECT IDENTIFIER hold, where they hold any.
pub open spec fn read_oid(contents: Seq<u8>) -> Option<Seq<u64>> {
    match read_arcs(contents) {
        Some(numbers) => if numbers.len() > 0 {
            Some(first_arcs(numbers[0]) + numbers.drop_first())
        } else {
            None
        },
        None => None,
    }
}

proof fn lemma_arcs_read_back(arcs: Seq<u64>)
    ensures
        read_arcs(arcs_octets(arcs)) == Some(arcs),
    decreases arcs.len(),
{
    if arcs.len() == 0 {
        assert(arcs == Seq::<u64>::empty());
    } else {
        let head = arc_octets(arcs[0] as nat);
        let tail = arcs_octets(arcs.drop_first());
        lemma_arc_reads_back(arcs[0] as nat, tail);
        lemma_arcs_read_back(arcs.drop_first());
        assert((head + tail).skip(head.len() as int) == tail);
        assert(seq![arcs[0]] + arcs.drop_first() == arcs);
    }
}

/// What is written of an object identifier is read back as that object identifier.
pub proof fn lemma_oid_reads_back(arcs: Seq<u64>)
    requires
        valid_arcs(arcs),
    ensures
        read_oid(oid_contents(arcs)) == Some(arcs),
{
    let n = (arcs[0] * 40 + arcs[1]) as u64;
    let numbers = seq![n] + arcs.skip(2);
    assert(numbers.drop_first() == arcs.skip(2));
    lemma_arcs_read_back(numbers);
    assert(first_arcs(n) + numbers.drop_first() == arcs);
}

proof fn lemma_arcs_write_back(octets: Seq<u8>)
    requires
        read_arcs(octets) is Some,
    ensures
        arcs_octets(read_arcs(octets)->0) == octets,
    decreases octets.len(),
{
    if octets.len() > 0 {
        let (used, n) = read_arc(octets)->0;
        lemma_arc_writes_back(octets);
        let tail = octets.skip(used as int);
        lemma_arcs_write_back(tail);
        let arcs = read_arcs(octets)->0;
        assert(arcs.drop_first() == read_arcs(tail)->0);
        assert(octets.take(used as int) + tail == octets);
    }
}

/// What is read as an object identifier is valid, and is what is written of it.
pub proof fn lemma_oid_writes_back(contents: Seq<u8>)
    requires
        read_oid(contents) is Some,
    ensures
        valid_arcs(read_oid(contents)->0),
        oid_contents(read_oid(contents)->0) == contents,
{
    let numbers = read_arcs(contents)->0;
    let arcs = read_oid(contents)->0;
    lemma_arcs_write_back(contents);
    assert(arcs.skip(2) == numbers.drop_first());
    assert(arcs[0] * 40 + arcs[1] == numbers[0]);
}

/// An object identifier.
#[derive(Debug)]
pub struct ObjectIdentifier {
    arcs: Vec<u64>,
}

impl View for ObjectIdentifier {
    type V = Seq<u64>;

    closed spec fn view(&self) -> Seq<u64> {
        self.arcs@
    }
}

impl ObjectIdentifier {
    #[verifier::type_invariant]
    spec fn names_an_object(self) -> bool {
        valid_arcs(self.arcs@)
    }

    /// The object identifier with the given arcs.
    pub fn from_slice(arcs: &[u64]) -> (oid: ObjectIdentifier)
        requires
            valid_arcs(arcs@),
        ensures
            oid@ == arcs@,
    {
        ObjectIdentifier { arcs: vstd::slice::slice_to_vec(arcs) }
    }

    /// Whether two object identifiers are the same.
    pub fn same_as(&self, other: &ObjectIdentifier) -> (same: bool)
        ensures
            same == (self@ == other@),
    {
        if self.arcs.len() != other.arcs.len() {
            return false;
        }
        let mut i: usize = 0;
        while i < self.arcs.len()
            invariant
                i <= self.arcs@.len(),
                self.arcs@.len() == other.arcs@.len(),
                self.arcs@.take(i as int) == other.arcs@.take(i as int),
            decreases self.arcs.len() - i,
        {
            if self.arcs[i] != other.arcs[i] {
                assert(self@[i as int] != other@[i as int]);
                return false;
            }
            assert(self.arcs@.take(i + 1) == self.arcs@.take(i as int).push(self.arcs@[i as int]));
            assert(other.arcs@.take(i + 1) == other.arcs@.take(i as int).push(
                other.arcs@[i as int],
            ));
            i = i + 1;
        }
        assert(self.arcs@.take(i as int) == self.arcs@);
        assert(other.arcs@.take(i as int) == other.arcs@);
        true
    }

    /// The arcs in decimal, with dots between them.
    pub fn to_text(&self) -> (text: String)
        ensures
            text@ == dotted(self@),
    {
        let mut text = String::new();
        push_dotted(&mut text, &self.arcs);
        text
    }

    /// The contents octets of this object identifier in DER.
    pub fn to_contents(&self) -> (contents: Vec<u8>)
        ensures
            valid_arcs(self@),
            contents@ == oid_contents(self@),
    {
        proof {
            use_type_invariant(self);
        }
        let mut contents = to_arc_octets(self.arcs[0] * 40 + self.arcs[1]);
        let ghost head = contents@;
        let ghost rest = self.arcs@.skip(2);
        let mut i: usize = 2;
        assert(rest.skip(0) == rest);
        while i < self.arcs.len()
            invariant
                2 <= i <= self.arcs@.len(),
                rest == self.arcs@.skip(2),
                head + arcs_octets(rest) == contents@ + arcs_octets(rest.skip(i - 2)),
            decreases self.arcs.len() - i,
        {
            let ghost before = contents@;
            let mut octets = to_arc_octets(self.arcs[i]);
            let ghost arc = octets@;
            contents.append(&mut octets);
            proof {
                assert(rest.skip(i - 2)[0] == self.arcs@[i as int]);
                assert(rest.skip(i - 2).drop_first() == rest.skip(i - 1));
                assert(before + (arc + arcs_octets(rest.skip(i - 1))) == contents@ + arcs_octets(
                    rest.skip(i - 1),
                ));
            }
            i = i + 1;
        }
        assert(rest.skip(i - 2) == Seq::<u64>::empty());
        assert(contents@ + Seq::<u8>::empty() == contents@);
        contents
    }

    /// The object identifier that `octets[start..end]` hold as contents octets, where they hold
    /// one.
    pub fn from_contents(octets: &[u8], start: usize, end: usize) -> (oid: Option<ObjectIdentifier>)
        requires
            start <= end <= octets@.len(),
        ensures
            match oid {
                Some(oid) => valid_arcs(oid@) && read_oid(
                    octets@.subrange(start as int, end as int),
                ) == Some(oid@),
                None => read_oid(octets@.subrange(start as int, end as int)) is None,
            },
    {
        let ghost contents = octets@.subrange(start as int, end as int);
        let mut arcs: Vec<u64> = Vec::new();
        let mut at: usize = start;
        assert(octets@.subrange(at as int, end as int) == contents);
        while at < end
            invariant
                start <= at <= end <= octets@.len(),
                contents == octets@.subrange(start as int, end as int),
                at == start ==> arcs@.len() == 0,
                at > start ==> arcs@.len() >= 2,
                read_arcs(contents) is Some ==> read_arcs(
                    octets@.subrange(at as int, end as int),
                ) is Some,
                at == start ==> octets@.subrange(at as int, end as int) == contents,
                at > start ==> (read_oid(contents) == match read_arcs(
                    octets@.subrange(at as int, end as int),
                ) {
                    Some(rest) => Some(arcs@ + rest),
                    None => None,
                }),
            decreases end - at,
        {
            let ghost here = octets@.subrange(at as int, end as int);
            match from_arc_octets(octets, at, end) {
                Some((used, n)) => {
                    proof {
                        lemma_arc_writes_back(here);
                        assert(here.skip(used as int) == octets@.subrange(at + used, end as int));
                    }
                    let ghost before = arcs@;
                    let ghost rest = read_arcs(here.skip(used as int));
                    if at == start {
                        if n < 40 {
                            arcs.push(0);
                            arcs.push(n);
                        } else if n < 80 {
                            arcs.push(1);
                            arcs.push(n - 40);
                        } else {
                            arcs.push(2);
                            arcs.push(n - 80);
                        }
                        proof {
                            assert(arcs@ == first_arcs(n));
                            if rest is Some {
                                assert((seq![n] + rest->0).drop_first() == rest->0);
                            }
                        }
                    } else {
                        arcs.push(n);
                        proof {
                            if rest is Some {
                                assert(before + (seq![n] + rest->0) == arcs@ + rest->0);
                            }
                        }
                    }
                    at = at + used;
                },
                None => {
                    return None;
                },
            }
        }
        assert(octets@.subrange(at as int, end as int) == Seq::<u8>::empty());
        if at == start {
            return None;
        }
        assert(arcs@ + Seq::<u64>::empty() == arcs@);
        proof {
            lemma_oid_writes_back(contents);
        }
        Some(ObjectIdentifier { arcs })
    }
}

impl PartialEq for ObjectIdentifier {
    fn eq(&self, other: &ObjectIdentifier) -> (same: bool) {
        self.same_as(other)
    }
}

impl vstd::std_specs::cmp::PartialEqSpecImpl for ObjectIdentifier {
    open spec fn obeys_eq_spec() -> bool {
        true
    }

    open spec fn eq_spec(&self, other: &ObjectIdentifier) -> bool {
        self@ == other@
    }
}

} // verus!
