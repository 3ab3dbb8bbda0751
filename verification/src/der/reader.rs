//! Reading DER.
use crate::der::header::{from_length_octets, from_tag_octets, read_header};
use crate::der::number::{integer_contents, shortest_octets};
use crate::der::oid::{read_oid, valid_arcs, ObjectIdentifier};
use crate::der::types::{DerError, DerType};
use vstd::prelude::*;

verus! {

/// What a reader came upon.
pub struct Event {
    /// The type of the value, or `EndOfContents`.
    pub der_type: DerType,
    /// The contents of a value that is not constructed.
    pub contents: Option<Seq<u8>>,
    /// How many constructed values end here.
    pub ended: nat,
}

/// What is left to read once the values that have nothing left are left behind.
pub open spec fn leave_ended(pending: Seq<Seq<u8>>) -> Seq<Seq<u8>>
    decreases pending.len(),
{
    if pending.len() > 1 && pending.last().len() == 0 {
        leave_ended(pending.drop_last())
    } else {
        pending
    }
}

/// The next step through DER. `pending` is what is left to read: at the top, and in each
/// constructed value that was entered, the innermost last. The outcome is what is left after the
/// step, with what was come upon; nothing at the end of the input. Where the contents of several
/// constructed values end at one place, that place is one `EndOfContents`.
pub open spec fn step(pending: Seq<Seq<u8>>) -> Result<Option<(Seq<Seq<u8>>, Event)>, DerError> {
    let here = pending.last();
    if here.len() == 0 {
        if pending.len() > 1 {
            Ok(
                Some(
                    (
                        leave_ended(pending),
                        Event {
                            der_type: DerType::EndOfContents,
                            contents: None,
                            ended: (pending.len() - leave_ended(pending).len()) as nat,
                        },
                    ),
                ),
            )
        } else {
            Ok(None)
        }
    } else {
        match read_header(here) {
            Err(error) => Err(error),
            Ok(header) => {
                let contents = here.subrange(header.start as int, header.end as int);
                let behind = pending.drop_last().push(here.skip(header.end as int));
                if header.constructed {
                    Ok(
                        Some(
                            (
                                behind.push(contents),
                                Event { der_type: header.der_type, contents: None, ended: 0 },
                            ),
                        ),
                    )
                } else {
                    Ok(
                        Some(
                            (
                                behind,
                                Event {
                                    der_type: header.der_type,
                                    contents: Some(contents),
                                    ended: 0,
                                },
                            ),
                        ),
                    )
                }
            },
        }
    }
}

/// The number that contents octets of an INTEGER hold, where it is one of eight bits.
pub open spec fn read_u8(contents: Seq<u8>) -> Option<u8> {
    if contents.len() == 1 && contents[0] < 128 {
        Some(contents[0])
    } else if contents.len() == 2 && contents[0] == 0 && contents[1] >= 128 {
        Some(contents[1])
    } else {
        None
    }
}

/// A number of eight bits is read from the contents octets that are written of it, and from no
/// others.
pub proof fn lemma_u8_reads_back(value: u8)
    ensures
        read_u8(integer_contents(value as nat)) == Some(value),
        forall|contents: Seq<u8>| #[trigger]
            read_u8(contents) == Some(value) ==> contents == integer_contents(value as nat),
{
    assert(shortest_octets(value as nat) == seq![value]);
    assert forall|contents: Seq<u8>| #[trigger] read_u8(contents) == Some(value) implies contents
        == integer_contents(value as nat) by {
        if value < 128 {
            assert(contents == seq![value]);
        } else {
            assert(contents == seq![0u8] + seq![value]);
        }
    }
}

/// Reads DER value by value. A constructed value is entered: what is read next is what it holds.
pub struct DerReader<'a> {
    input: &'a [u8],
    position: usize,
    ends: Vec<usize>,
    value: Option<DerType>,
    contents: Option<(usize, usize)>,
    ended: usize,
}

impl<'a> DerReader<'a> {
    /// What is left to read.
    pub closed spec fn pending(&self) -> Seq<Seq<u8>> {
        Seq::new(
            self.ends@.len(),
            |i: int|
                self.input@.subrange(
                    if i + 1 < self.ends@.len() {
                        self.ends@[i + 1] as int
                    } else {
                        self.position as int
                    },
                    self.ends@[i] as int,
                ),
        )
    }

    /// What was come upon last.
    pub closed spec fn event(&self) -> Option<Event> {
        match self.value {
            Some(der_type) => Some(
                Event {
                    der_type,
                    contents: match self.contents {
                        Some((start, end)) => Some(self.input@.subrange(start as int, end as int)),
                        None => None,
                    },
                    ended: self.ended as nat,
                },
            ),
            None => None,
        }
    }

    /// Whether the reader stands at a place that reading leads to.
    pub closed spec fn well_formed(&self) -> bool {
        &&& self.ends@.len() > 0
        &&& self.ends@[0] == self.input@.len()
        &&& self.position <= self.ends@.last()
        &&& forall|i: int, j: int| 0 <= i <= j < self.ends@.len() ==> self.ends@[j] <= self.ends@[i]
        &&& self.contents matches Some((start, end)) ==> start <= end <= self.input@.len()
    }

    /// A reader at the start of `input`.
    pub fn from_slice(input: &'a [u8]) -> (reader: DerReader<'a>)
        ensures
            reader.well_formed(),
            reader.pending() == seq![input@],
            reader.event() is None,
    {
        let mut ends: Vec<usize> = Vec::new();
        ends.push(input.len());
        let reader = DerReader { input, position: 0, ends, value: None, contents: None, ended: 0 };
        assert(input@.subrange(0, input@.len() as int) == input@);
        assert(reader.pending() == seq![input@]);
        reader
    }

    /// Goes on to the next value, or to the place where contents end.
    pub fn next(&mut self) -> (next: Result<Option<DerType>, DerError>)
        requires
            old(self).well_formed(),
        ensures
            final(self).well_formed(),
            match step(old(self).pending()) {
                Ok(Some((pending, event))) => {
                    &&& next == Ok::<Option<DerType>, DerError>(Some(event.der_type))
                    &&& final(self).pending() == pending
                    &&& final(self).event() == Some(event)
                },
                Ok(None) => {
                    &&& next == Ok::<Option<DerType>, DerError>(None)
                    &&& final(self).pending() == old(self).pending()
                    &&& final(self).event() is None
                },
                Err(error) => {
                    &&& next == Err::<Option<DerType>, DerError>(error)
                    &&& final(self).pending() == old(self).pending()
                    &&& final(self).event() is None
                },
            },
    {
        let ghost before = self.pending();
        self.value = None;
        self.contents = None;
        self.ended = 0;
        let depth = self.ends.len();
        let end = self.ends[depth - 1];
        assert(before.last() == self.input@.subrange(self.position as int, end as int));
        if self.position == end {
            if depth == 1 {
                assert(self.pending() == before);
                return Ok(None);
            }
            while self.ends.len() > 1 && self.ends[self.ends.len() - 1] == self.position
                invariant
                    self.well_formed(),
                    self.value is None,
                    self.contents is None,
                    leave_ended(self.pending()) == leave_ended(before),
                    self.ends@.len() <= depth,
                    before.len() == depth,
                decreases self.ends.len(),
            {
                let ghost pending = self.pending();
                assert(pending.last().len() == 0);
                self.ends.pop();
                assert(self.pending() == pending.drop_last());
            }
            assert(self.pending().last() == self.input@.subrange(
                self.position as int,
                self.ends@.last() as int,
            ));
            self.value = Some(DerType::EndOfContents);
            self.ended = depth - self.ends.len();
            assert(self.pending() == leave_ended(before));
            return Ok(Some(DerType::EndOfContents));
        }
        let ghost here = before.last();
        match from_tag_octets(self.input, self.position, end) {
            None => {
                assert(self.pending() == before);
                Err(DerError::InvalidTag)
            },
            Some((der_type, constructed, used)) => {
                assert(here.skip(used as int) == self.input@.subrange(
                    self.position + used,
                    end as int,
                ));
                match from_length_octets(self.input, self.position + used, end) {
                    None => {
                        assert(self.pending() == before);
                        Err(DerError::InvalidLength)
                    },
                    Some((more, length)) => {
                        let start = self.position + used + more;
                        if length > (end - start) as u64 {
                            assert(self.pending() == before);
                            return Err(DerError::InvalidLength);
                        }
                        let stop = start + length as usize;
                        let ghost position = self.position as int;
                        proof {
                            assert(here.subrange(start - position, stop - position)
                                == self.input@.subrange(start as int, stop as int));
                            assert(here.skip(stop - position) == self.input@.subrange(
                                stop as int,
                                end as int,
                            ));
                        }
                        let ghost behind = before.drop_last().push(here.skip(stop - position));
                        if constructed {
                            self.ends.push(stop);
                            self.position = start;
                            assert(self.pending() == behind.push(
                                self.input@.subrange(start as int, stop as int),
                            ));
                        } else {
                            self.contents = Some((start, stop));
                            self.position = stop;
                            assert(self.pending() == behind);
                        }
                        self.value = Some(der_type);
                        Ok(Some(der_type))
                    },
                }
            },
        }
    }

    /// How many constructed values end at the place that was come upon last.
    pub fn ended(&self) -> (ended: usize)
        ensures
            self.event() matches Some(event) ==> ended == event.ended,
            self.event() is None ==> ended == 0,
    {
        if self.value.is_some() {
            self.ended
        } else {
            0
        }
    }

    /// Whether what was come upon last is a value that is not constructed.
    pub fn is_primitive(&self) -> (primitive: bool)
        ensures
            primitive == (self.event() matches Some(event) && event.contents is Some),
    {
        self.value.is_some() && self.contents.is_some()
    }

    /// The INTEGER that was come upon last, where it is a number of eight bits.
    pub fn to_u8(&self) -> (value: Result<u8, DerError>)
        requires
            self.well_formed(),
        ensures
            value == match self.event() {
                Some(Event { der_type: DerType::Integer, contents: Some(contents), .. }) => {
                    match read_u8(contents) {
                        Some(n) => Ok::<u8, DerError>(n),
                        None => Err(DerError::InvalidContents),
                    }
                },
                _ => Err(DerError::InvalidContents),
            },
    {
        match (self.value, self.contents) {
            (Some(DerType::Integer), Some((start, end))) => {
                if end - start == 1 && self.input[start] < 128 {
                    Ok(self.input[start])
                } else if end - start == 2 && self.input[start] == 0 && self.input[start + 1]
                    >= 128 {
                    Ok(self.input[start + 1])
                } else {
                    Err(DerError::InvalidContents)
                }
            },
            _ => Err(DerError::InvalidContents),
        }
    }

    /// The OBJECT IDENTIFIER that was come upon last.
    pub fn to_object_identifier(&self) -> (oid: Result<ObjectIdentifier, DerError>)
        requires
            self.well_formed(),
        ensures
            ({
                let read = match self.event() {
                    Some(
                        Event { der_type: DerType::ObjectIdentifier, contents: Some(contents), .. },
                    ) => read_oid(contents),
                    _ => None,
                };
                match oid {
                    Ok(oid) => valid_arcs(oid@) && read == Some(oid@),
                    Err(error) => read is None && error == DerError::InvalidContents,
                }
            }),
    {
        match (self.value, self.contents) {
            (Some(DerType::ObjectIdentifier), Some((start, end))) => {
                match ObjectIdentifier::from_contents(self.input, start, end) {
                    Some(oid) => Ok(oid),
                    None => Err(DerError::InvalidContents),
                }
            },
            _ => Err(DerError::InvalidContents),
        }
    }
}

} // verus!
