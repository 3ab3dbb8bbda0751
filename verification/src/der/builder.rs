//! Writing DER.
use crate::der::header::{to_length_octets, to_tag_octets, value_octets};
use crate::der::number::{integer_contents, octets_value, to_integer_contents};
use crate::der::oid::{oid_contents, ObjectIdentifier};
use crate::der::types::DerType;
use vstd::prelude::*;
use vstd::slice::slice_to_vec;

verus! {

/// What a builder has written so far.
pub struct Draft {
    /// The constructed values that were begun and not ended, outermost first, each with what
    /// stands in front of it.
    pub open: Seq<(DerType, Seq<u8>)>,
    /// What stands in the innermost of them, or at the top where none is open.
    pub contents: Seq<u8>,
}

impl Draft {
    /// This draft with `octets` behind what it holds.
    pub open spec fn with(self, octets: Seq<u8>) -> Draft {
        Draft { open: self.open, contents: self.contents + octets }
    }
}

struct Begun {
    der_type: DerType,
    before: Vec<u8>,
}

/// Writes DER values one after the other, and into one another.
pub struct DerBuilder {
    begun: Vec<Begun>,
    contents: Vec<u8>,
}

impl View for DerBuilder {
    type V = Draft;

    closed spec fn view(&self) -> Draft {
        Draft {
            open: Seq::new(
                self.begun@.len(),
                |i: int| (self.begun@[i].der_type, self.begun@[i].before@),
            ),
            contents: self.contents@,
        }
    }
}

impl DerBuilder {
    /// A builder that has written nothing.
    pub fn new() -> (builder: DerBuilder)
        ensures
            builder@.open.len() == 0,
            builder@.contents == Seq::<u8>::empty(),
    {
        DerBuilder { begun: Vec::new(), contents: Vec::new() }
    }

    /// Begins a constructed value. What is written next goes into it, until it is ended.
    pub fn begin(&mut self, der_type: DerType)
        ensures
            final(self)@.open == old(self)@.open.push((der_type, old(self)@.contents)),
            final(self)@.contents == Seq::<u8>::empty(),
    {
        let mut before: Vec<u8> = Vec::new();
        std::mem::swap(&mut before, &mut self.contents);
        self.begun.push(Begun { der_type, before });
    }

    /// Ends the constructed value that was begun last.
    pub fn end(&mut self)
        requires
            old(self)@.open.len() > 0,
        ensures
            final(self)@.open == old(self)@.open.drop_last(),
            final(self)@.contents == old(self)@.open.last().1 + value_octets(
                old(self)@.open.last().0,
                true,
                old(self)@.contents,
            ),
    {
        let ghost open = self@.open;
        if let Some(begun) = self.begun.pop() {
            assert(begun.before@ == open.last().1);
            let mut contents = begun.before;
            std::mem::swap(&mut contents, &mut self.contents);
            self.append_value(begun.der_type, true, contents);
            assert(self@.open == open.drop_last());
        }
    }

    /// Appends the INTEGER `value`.
    pub fn append_integer_from_u8(&mut self, value: u8)
        ensures
            final(self)@ == old(self)@.with(
                value_octets(DerType::Integer, false, integer_contents(value as nat)),
            ),
    {
        let octets: [u8; 1] = [value];
        proof {
            reveal_with_fuel(octets_value, 2);
            assert(octets@.drop_last() == Seq::<u8>::empty());
        }
        self.append_value(DerType::Integer, false, to_integer_contents(&octets));
    }

    /// Appends the INTEGER with the value of the big-endian octets `input`.
    pub fn append_integer_from_be_slice(&mut self, input: &[u8])
        ensures
            final(self)@ == old(self)@.with(
                value_octets(DerType::Integer, false, integer_contents(octets_value(input@))),
            ),
    {
        self.append_value(DerType::Integer, false, to_integer_contents(input));
    }

    /// Appends an OCTET STRING.
    pub fn append_octed_string_from_slice(&mut self, input: &[u8])
        ensures
            final(self)@ == old(self)@.with(value_octets(DerType::OctetString, false, input@)),
    {
        self.append_value(DerType::OctetString, false, slice_to_vec(input));
    }

    /// Appends a BIT STRING whose last octet has `unused` bits that do not count.
    pub fn append_bit_string_from_slice(&mut self, input: &[u8], unused: u8)
        requires
            unused < 8,
            input@.len() == 0 ==> unused == 0,
        ensures
            final(self)@ == old(self)@.with(
                value_octets(DerType::BitString, false, seq![unused] + input@),
            ),
    {
        let mut contents: Vec<u8> = vec![unused];
        let mut octets = slice_to_vec(input);
        contents.append(&mut octets);
        assert(contents@ == seq![unused] + input@);
        self.append_value(DerType::BitString, false, contents);
    }

    /// Appends an OBJECT IDENTIFIER.
    pub fn append_object_identifier(&mut self, oid: &ObjectIdentifier)
        ensures
            final(self)@ == old(self)@.with(
                value_octets(DerType::ObjectIdentifier, false, oid_contents(oid@)),
            ),
    {
        self.append_value(DerType::ObjectIdentifier, false, oid.to_contents());
    }

    /// Hands over what was written.
    pub fn build(self) -> (octets: Vec<u8>)
        requires
            self@.open.len() == 0,
        ensures
            octets@ == self@.contents,
    {
        self.contents
    }

    fn append_value(&mut self, der_type: DerType, constructed: bool, contents: Vec<u8>)
        ensures
            final(self)@ == old(self)@.with(value_octets(der_type, constructed, contents@)),
    {
        let ghost before = self.contents@;
        let mut tag = to_tag_octets(der_type, constructed);
        let mut length = to_length_octets(contents.len());
        let mut contents = contents;
        let ghost value = tag@ + length@ + contents@;
        self.contents.append(&mut tag);
        self.contents.append(&mut length);
        self.contents.append(&mut contents);
        assert(self.contents@ == before + value);
        assert(self@.open == old(self)@.open);
    }
}

} // verus!
