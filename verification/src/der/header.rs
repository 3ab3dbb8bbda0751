//! The tag and the length in front of the contents of a DER value.
use crate::der::arc::{
    arc_octets, from_arc_octets, lemma_arc_reads_back, lemma_arc_writes_back, read_arc,
    to_arc_octets,
};
use crate::der::number::{
    lemma_eight_octets, lemma_octets_are_shortest, lemma_shortest_octets, lemma_value_bound,
    lemma_value_step, octets_value, shortest_octets, to_shortest_octets,
};
use crate::der::types::{DerClass, DerError, DerType};
use vstd::prelude::*;

verus! {

/// The bit of the first tag octet that marks a constructed value.
pub open spec fn form_bit(constructed: bool) -> u8 {
    if constructed {
        32
    } else {
        0
    }
}

/// The tag octets of a value.
pub open spec fn tag_octets(der_type: DerType, constructed: bool) -> Seq<u8> {
    let lead = der_type.class().bits() + form_bit(constructed);
    if der_type.number() < 31 {
        seq![(lead + der_type.number()) as u8]
    } else {
        seq![(lead + 31) as u8] + arc_octets(der_type.number() as nat)
    }
}

/// The length octets of contents of `n` octets.
pub open spec fn length_octets(n: nat) -> Seq<u8> {
    if n < 128 {
        seq![n as u8]
    } else {
        seq![(128 + shortest_octets(n).len()) as u8] + shortest_octets(n)
    }
}

/// The octets of a DER value: tag, length, contents.
pub open spec fn value_octets(der_type: DerType, constructed: bool, contents: Seq<u8>) -> Seq<u8> {
    tag_octets(der_type, constructed) + length_octets(contents.len()) + contents
}

/// A tag off the front of octets: the type, whether the value is constructed, and how many octets
/// the tag takes. Only the shortest form is read, no end-of-contents, and no type that is
/// constructed where DER has it primitive, or the other way round.
pub open spec fn read_tag(octets: Seq<u8>) -> Option<(DerType, bool, nat)> {
    if octets.len() == 0 {
        None
    } else {
        let class = DerClass::of_bits(octets[0]);
        let constructed = octets[0] % 64 >= 32;
        let low = octets[0] % 32;
        if low < 31 {
            let der_type = DerType::of_tag(class, low as u64);
            if der_type != DerType::EndOfContents && der_type.takes_form(constructed) {
                Some((der_type, constructed, 1))
            } else {
                None
            }
        } else {
            match read_arc(octets.drop_first()) {
                Some((used, number)) => {
                    let der_type = DerType::of_tag(class, number as u64);
                    if number >= 31 && der_type.takes_form(constructed) {
                        Some((der_type, constructed, 1 + used))
                    } else {
                        None
                    }
                },
                None => None,
            }
        }
    }
}

/// A length off the front of octets: how many octets it takes, and the length. Only the shortest
/// form is read, of lengths within 64 bits.
pub open spec fn read_length(octets: Seq<u8>) -> Option<(nat, nat)> {
    if octets.len() == 0 {
        None
    } else if octets[0] < 128 {
        Some((1, octets[0] as nat))
    } else {
        let count = octets[0] - 128;
        let digits = octets.subrange(1, 1 + count);
        if 1 <= count <= 8 && count < octets.len() && digits[0] != 0 && octets_value(digits)
            >= 128 {
            Some(((1 + count) as nat, octets_value(digits)))
        } else {
            None
        }
    }
}

/// A DER value off the front of octets.
pub struct Header {
    /// The type of the value.
    pub der_type: DerType,
    /// Whether the contents are values themselves.
    pub constructed: bool,
    /// Where the contents start.
    pub start: nat,
    /// Where the contents end.
    pub end: nat,
}

/// The tag and the length off the front of octets, where the contents are there too.
pub open spec fn read_header(octets: Seq<u8>) -> Result<Header, DerError> {
    match read_tag(octets) {
        None => Err(DerError::InvalidTag),
        Some((der_type, constructed, used)) => match read_length(octets.skip(used as int)) {
            None => Err(DerError::InvalidLength),
            Some((more, length)) => if used + more + length <= octets.len() {
                Ok(Header { der_type, constructed, start: used + more, end: used + more + length })
            } else {
                Err(DerError::InvalidLength)
            },
        },
    }
}

/// What is written of a tag is read back, whatever follows.
pub proof fn lemma_tag_reads_back(der_type: DerType, constructed: bool, tail: Seq<u8>)
    requires
        der_type.is_plain(),
        der_type.takes_form(constructed),
    ensures
        read_tag(tag_octets(der_type, constructed) + tail) == Some(
            (der_type, constructed, tag_octets(der_type, constructed).len()),
        ),
{
    let octets = tag_octets(der_type, constructed) + tail;
    let number = der_type.number();
    if number >= 31 {
        lemma_arc_reads_back(number as nat, tail);
        assert(octets.drop_first() == arc_octets(number as nat) + tail);
    }
}

/// What is written of a length is read back, whatever follows.
pub proof fn lemma_length_reads_back(n: nat, tail: Seq<u8>)
    requires
        n <= u64::MAX,
    ensures
        read_length(length_octets(n) + tail) == Some((length_octets(n).len(), n)),
{
    let octets = length_octets(n) + tail;
    if n >= 128 {
        lemma_shortest_octets(n);
        lemma_eight_octets(n);
        assert(octets.subrange(1, 1 + shortest_octets(n).len() as int) == shortest_octets(n));
    }
}

/// What is written of a value is read back, whatever follows.
pub proof fn lemma_header_reads_back(
    der_type: DerType,
    constructed: bool,
    contents: Seq<u8>,
    tail: Seq<u8>,
)
    requires
        der_type.is_plain(),
        der_type.takes_form(constructed),
        contents.len() <= u64::MAX,
    ensures
        ({
            let octets = value_octets(der_type, constructed, contents) + tail;
            &&& read_header(octets) matches Ok(header)
            &&& header.der_type == der_type
            &&& header.constructed == constructed
            &&& header.start <= header.end <= octets.len()
            &&& octets.subrange(header.start as int, header.end as int) == contents
            &&& octets.skip(header.end as int) == tail
        }),
{
    let tag = tag_octets(der_type, constructed);
    let length = length_octets(contents.len());
    lemma_tag_reads_back(der_type, constructed, length + contents + tail);
    lemma_length_reads_back(contents.len(), contents + tail);
    lemma_pieces(tag, length, contents, tail);
}

proof fn lemma_pieces(tag: Seq<u8>, length: Seq<u8>, contents: Seq<u8>, tail: Seq<u8>)
    ensures
        ({
            let octets = tag + length + contents + tail;
            let start = (tag.len() + length.len()) as int;
            let end = start + contents.len();
            &&& octets == tag + (length + contents + tail)
            &&& octets.skip(tag.len() as int) == length + (contents + tail)
            &&& octets.subrange(start, end) == contents
            &&& octets.skip(end) == tail
        }),
{
}

/// What is read as a tag is what is written of it.
pub proof fn lemma_tag_writes_back(octets: Seq<u8>)
    requires
        read_tag(octets) is Some,
    ensures
        ({
            let (der_type, constructed, used) = read_tag(octets)->0;
            &&& 0 < used <= octets.len()
            &&& der_type.is_plain()
            &&& octets.take(used as int) == tag_octets(der_type, constructed)
        }),
{
    let (der_type, constructed, used) = read_tag(octets)->0;
    let lead = der_type.class().bits() + form_bit(constructed);
    assert(octets[0] == lead + octets[0] % 32);
    if octets[0] % 32 == 31 {
        lemma_arc_writes_back(octets.drop_first());
        assert(octets.take(used as int) == seq![octets[0]] + octets.drop_first().take(used - 1));
    } else {
        assert(octets.take(1) == seq![octets[0]]);
    }
}

/// What is read as a length is what is written of it.
pub proof fn lemma_length_writes_back(octets: Seq<u8>)
    requires
        read_length(octets) is Some,
    ensures
        ({
            let (used, length) = read_length(octets)->0;
            &&& 0 < used <= octets.len()
            &&& length <= u64::MAX
            &&& octets.take(used as int) == length_octets(length)
        }),
{
    let (used, length) = read_length(octets)->0;
    if octets[0] >= 128 {
        let digits = octets.subrange(1, used as int);
        lemma_octets_are_shortest(digits);
        lemma_value_bound(digits);
        assert(octets.take(used as int) == seq![octets[0]] + digits);
    } else {
        assert(octets.take(1) == seq![octets[0]]);
    }
}

proof fn lemma_joined(octets: Seq<u8>, used: int, more: int, length: int)
    requires
        0 <= used,
        0 <= more,
        0 <= length,
        used + more + length <= octets.len(),
    ensures
        octets.take(used + more + length) == octets.take(used) + octets.skip(used).take(more)
            + octets.subrange(used + more, used + more + length),
{
}

/// What is read as a value is what is written of it.
pub proof fn lemma_header_writes_back(octets: Seq<u8>)
    requires
        read_header(octets) is Ok,
    ensures
        ({
            let header = read_header(octets)->Ok_0;
            &&& 0 < header.start <= header.end <= octets.len()
            &&& header.der_type.is_plain()
            &&& octets.take(header.end as int) == value_octets(
                header.der_type,
                header.constructed,
                octets.subrange(header.start as int, header.end as int),
            )
        }),
{
    let (der_type, constructed, used) = read_tag(octets)->0;
    lemma_tag_writes_back(octets);
    lemma_length_writes_back(octets.skip(used as int));
    let (more, length) = read_length(octets.skip(used as int))->0;
    lemma_joined(octets, used as int, more as int, length as int);
}

/// The tag octets of a value.
pub fn to_tag_octets(der_type: DerType, constructed: bool) -> (octets: Vec<u8>)
    ensures
        octets@ == tag_octets(der_type, constructed),
{
    let (class, number) = der_type.tag();
    let lead: u8 = if constructed {
        class + 32
    } else {
        class
    };
    let mut octets: Vec<u8> = Vec::new();
    if number < 31 {
        octets.push(lead + number as u8);
    } else {
        octets.push(lead + 31);
        let mut arc = to_arc_octets(number);
        octets.append(&mut arc);
    }
    octets
}

/// The length octets of contents of `n` octets.
pub fn to_length_octets(n: usize) -> (octets: Vec<u8>)
    ensures
        octets@ == length_octets(n as nat),
{
    let mut octets: Vec<u8> = Vec::new();
    if n < 128 {
        octets.push(n as u8);
    } else {
        let mut digits = to_shortest_octets(n as u64);
        proof {
            lemma_eight_octets(n as nat);
        }
        octets.push(128 + digits.len() as u8);
        octets.append(&mut digits);
    }
    octets
}

/// Reads a tag from `octets[start..end]`: the type, whether the value is constructed, and how many
/// octets the tag takes.
pub fn from_tag_octets(octets: &[u8], start: usize, end: usize) -> (tag: Option<
    (DerType, bool, usize),
>)
    requires
        start <= end <= octets@.len(),
    ensures
        match tag {
            Some((der_type, constructed, used)) => used <= end - start && read_tag(
                octets@.subrange(start as int, end as int),
            ) == Some((der_type, constructed, used as nat)),
            None => read_tag(octets@.subrange(start as int, end as int)) is None,
        },
{
    let ghost all = octets@.subrange(start as int, end as int);
    if start == end {
        return None;
    }
    let first = octets[start];
    let constructed = first % 64 >= 32;
    let low = first % 32;
    if low < 31 {
        let der_type = DerType::from_tag(first, low as u64);
        if der_type == DerType::EndOfContents || !der_type.fits_form(constructed) {
            return None;
        }
        return Some((der_type, constructed, 1));
    }
    proof {
        assert(all.drop_first() == octets@.subrange(start + 1, end as int));
    }
    match from_arc_octets(octets, start + 1, end) {
        Some((used, number)) => {
            let der_type = DerType::from_tag(first, number);
            if number >= 31 && der_type.fits_form(constructed) {
                proof {
                    lemma_arc_writes_back(all.drop_first());
                }
                Some((der_type, constructed, 1 + used))
            } else {
                None
            }
        },
        None => None,
    }
}

/// Reads a length from `octets[start..end]`: how many octets it takes, and the length.
pub fn from_length_octets(octets: &[u8], start: usize, end: usize) -> (length: Option<(usize, u64)>)
    requires
        start <= end <= octets@.len(),
    ensures
        match length {
            Some((used, n)) => used <= end - start && read_length(
                octets@.subrange(start as int, end as int),
            ) == Some((used as nat, n as nat)),
            None => read_length(octets@.subrange(start as int, end as int)) is None,
        },
{
    let ghost all = octets@.subrange(start as int, end as int);
    if start == end {
        return None;
    }
    let first = octets[start];
    if first < 128 {
        return Some((1, first as u64));
    }
    let count = (first - 128) as usize;
    if count == 0 || count > 8 || count >= end - start || octets[start + 1] == 0 {
        return None;
    }
    let ghost digits = all.subrange(1, 1 + count);
    let mut n: u64 = 0;
    let mut i: usize = 0;
    proof {
        assert(digits.take(0) == Seq::<u8>::empty());
    }
    while i < count
        invariant
            i <= count <= 8,
            start + count < end <= octets@.len(),
            digits.len() == count,
            digits == octets@.subrange(start + 1, start + 1 + count),
            n == octets_value(digits.take(i as int)),
        decreases count - i,
    {
        proof {
            lemma_value_step(digits, i as int);
            lemma_value_bound(digits.take(i as int));
        }
        n = n * 256 + octets[start + 1 + i] as u64;
        i = i + 1;
    }
    proof {
        assert(digits.take(i as int) == digits);
    }
    if n >= 128 {
        Some((1 + count, n))
    } else {
        None
    }
}

} // verus!
