//! PEM documents.
use crate::encoding::{decode_standard, standard_decoded};
use crate::error::{KeyFault, KeyFormatError};
use crate::text::{ascii_text, same_octets, to_ascii_text};
use vstd::prelude::*;
use vstd::slice::slice_subrange;
use vstd::string::StringSliceAdditionalSpecFns;

verus! {

/// Whether an octet is a space or a tab.
pub open spec fn is_blank(octet: u8) -> bool {
    octet == 32 || octet == 9
}

/// Whether an octet ends a line.
pub open spec fn is_newline(octet: u8) -> bool {
    octet == 10 || octet == 13
}

/// Whether an octet may stand in a label: a capital letter, a digit, a space or a hyphen.
pub open spec fn is_label_octet(octet: u8) -> bool {
    65 <= octet <= 90 || 48 <= octet <= 57 || octet == 32 || octet == 45
}

/// Whether an octet may stand between the two label lines: Base64, a blank or the end of a line.
pub open spec fn is_body_octet(octet: u8) -> bool {
    ||| 65 <= octet <= 90
    ||| 97 <= octet <= 122
    ||| 48 <= octet <= 57
    ||| octet == 43
    ||| octet == 47
    ||| octet == 61
    ||| is_blank(octet)
    ||| is_newline(octet)
}

/// The number of octets in front of the first end of a line.
pub open spec fn line_length(octets: Seq<u8>) -> int
    decreases octets.len(),
{
    if octets.len() == 0 || is_newline(octets[0]) {
        0
    } else {
        1 + line_length(octets.drop_first())
    }
}

/// The number of octets in front of the first that cannot stand between the label lines.
pub open spec fn body_length(octets: Seq<u8>) -> int
    decreases octets.len(),
{
    if octets.len() == 0 || !is_body_octet(octets[0]) {
        0
    } else {
        1 + body_length(octets.drop_first())
    }
}

/// A line without the blanks at its end.
pub open spec fn without_last_blanks(line: Seq<u8>) -> Seq<u8>
    decreases line.len(),
{
    if line.len() > 0 && is_blank(line.last()) {
        without_last_blanks(line.drop_last())
    } else {
        line
    }
}

/// The label of a line that, but for blanks at its end, is `marker`, a label and five hyphens.
#[verifier::opaque]
pub open spec fn label_of(line: Seq<u8>, marker: Seq<u8>) -> Option<Seq<u8>> {
    let line = without_last_blanks(line);
    let hyphens = "-----".spec_bytes();
    let start = marker.len() as int;
    let stop = line.len() - hyphens.len();
    if start < stop && line.take(start) == marker && line.skip(stop) == hyphens && (forall|i: int|
        start <= i < stop ==> is_label_octet(#[trigger] line[i])) {
        Some(line.subrange(start, stop))
    } else {
        None
    }
}

/// A PEM document taken apart.
pub struct PemParts {
    /// The label in the first line.
    pub begin: Seq<u8>,
    /// What stands between the label lines.
    pub body: Seq<u8>,
    /// The label in the last line.
    pub end: Seq<u8>,
}

/// The parts of a PEM document: a line that begins it, at least one octet of a body, and a line
/// that ends it, with nothing behind it but one end of a line.
pub open spec fn pem_parts(input: Seq<u8>) -> Option<PemParts> {
    let first = line_length(input);
    let rest = input.skip(first + 1);
    let length = body_length(rest);
    let tail = rest.skip(length);
    let last = line_length(tail);
    let behind = tail.skip(last);
    match (
        label_of(input.take(first), "-----BEGIN ".spec_bytes()),
        label_of(tail.take(last), "-----END ".spec_bytes()),
    ) {
        (Some(begin), Some(end)) => if first < input.len() && length > 0 && (behind.len() <= 1
            || behind == seq![13u8, 10u8]) {
            Some(PemParts { begin, body: rest.take(length), end })
        } else {
            None
        },
        _ => None,
    }
}

/// A body without blanks and ends of lines.
pub open spec fn compact(body: Seq<u8>) -> Seq<u8> {
    body.filter(|octet: u8| !is_blank(octet) && !is_newline(octet))
}

/// The label and the data of a PEM document, or what is wrong with it.
pub open spec fn pem_contents(input: Seq<u8>) -> Result<(Seq<char>, Seq<u8>), KeyFault> {
    match pem_parts(input) {
        None => Err(KeyFault::InvalidPemFormat),
        Some(parts) => if parts.begin != parts.end {
            Err(KeyFault::MismatchedPemLabels)
        } else {
            match standard_decoded(compact(parts.body)) {
                Some(data) => Ok((ascii_text(parts.begin), data)),
                None => Err(KeyFault::Base64),
            }
        },
    }
}

fn find_line_end(octets: &[u8], start: usize) -> (end: usize)
    requires
        start <= octets@.len(),
    ensures
        start <= end <= octets@.len(),
        end - start == line_length(octets@.skip(start as int)),
{
    let mut end: usize = start;
    while end < octets.len() && octets[end] != 10 && octets[end] != 13
        invariant
            start <= end <= octets@.len(),
            line_length(octets@.skip(start as int)) == end - start + line_length(
                octets@.skip(end as int),
            ),
        decreases octets.len() - end,
    {
        assert(octets@.skip(end as int).drop_first() == octets@.skip(end + 1));
        end = end + 1;
    }
    end
}

fn find_body_end(octets: &[u8], start: usize) -> (end: usize)
    requires
        start <= octets@.len(),
    ensures
        start <= end <= octets@.len(),
        end - start == body_length(octets@.skip(start as int)),
{
    let mut end: usize = start;
    while end < octets.len()
        invariant
            start <= end <= octets@.len(),
            body_length(octets@.skip(start as int)) == end - start + body_length(
                octets@.skip(end as int),
            ),
        decreases octets.len() - end,
    {
        let octet = octets[end];
        let fits = (65 <= octet && octet <= 90) || (97 <= octet && octet <= 122) || (48 <= octet
            && octet <= 57) || octet == 43 || octet == 47 || octet == 61 || octet == 32 || octet
            == 9 || octet == 10 || octet == 13;
        if !fits {
            return end;
        }
        assert(octets@.skip(end as int).drop_first() == octets@.skip(end + 1));
        end = end + 1;
    }
    end
}

fn find_label(octets: &[u8], start: usize, end: usize, marker: &[u8]) -> (label: Option<
    (usize, usize),
>)
    requires
        start <= end <= octets@.len(),
    ensures
        match label {
            Some((from, to)) => start <= from < to <= end && label_of(
                octets@.subrange(start as int, end as int),
                marker@,
            ) == Some(octets@.subrange(from as int, to as int)),
            None => label_of(octets@.subrange(start as int, end as int), marker@) is None,
        },
{
    reveal(label_of);
    let ghost whole = octets@.subrange(start as int, end as int);
    let mut stop: usize = end;
    while start < stop && (octets[stop - 1] == 32 || octets[stop - 1] == 9)
        invariant
            start <= stop <= end <= octets@.len(),
            without_last_blanks(whole) == without_last_blanks(
                octets@.subrange(start as int, stop as int),
            ),
        decreases stop,
    {
        assert(octets@.subrange(start as int, stop as int).drop_last() == octets@.subrange(
            start as int,
            stop - 1,
        ));
        stop = stop - 1;
    }
    let ghost line = octets@.subrange(start as int, stop as int);
    assert(without_last_blanks(whole) == line);
    let hyphens = "-----".as_bytes();
    if stop - start < hyphens.len() || stop - start - hyphens.len() <= marker.len() {
        return None;
    }
    let from = start + marker.len();
    let to = stop - hyphens.len();
    assert(line.take(marker@.len() as int) == octets@.subrange(start as int, from as int));
    assert(line.skip(to - start) == octets@.subrange(to as int, stop as int));
    if !same_octets(slice_subrange(octets, start, from), marker) || !same_octets(
        slice_subrange(octets, to, stop),
        hyphens,
    ) {
        return None;
    }
    let mut i: usize = from;
    while i < to
        invariant
            start <= from <= i <= to <= stop <= octets@.len(),
            whole == octets@.subrange(start as int, end as int),
            without_last_blanks(whole) == line,
            from == start + marker@.len(),
            to == stop - hyphens@.len(),
            hyphens@ == "-----".spec_bytes(),
            line == octets@.subrange(start as int, stop as int),
            forall|k: int| from - start <= k < i - start ==> is_label_octet(#[trigger] line[k]),
        decreases to - i,
    {
        let octet = octets[i];
        assert(line[i - start] == octet);
        if !((65 <= octet && octet <= 90) || (48 <= octet && octet <= 57) || octet == 32 || octet
            == 45) {
            assert(!is_label_octet(line[i - start]));
            reveal(label_of);
            return None;
        }
        i = i + 1;
    }
    assert(line.subrange(from - start, to - start) == octets@.subrange(from as int, to as int));
    Some((from, to))
}

fn to_compact(octets: &[u8], start: usize, end: usize) -> (text: Vec<u8>)
    requires
        start <= end <= octets@.len(),
    ensures
        text@ == compact(octets@.subrange(start as int, end as int)),
        text@.len() <= end - start,
{
    let ghost kept = |octet: u8| !is_blank(octet) && !is_newline(octet);
    let mut text: Vec<u8> = Vec::new();
    let mut i: usize = start;
    proof {
        reveal(Seq::filter);
        assert(octets@.subrange(start as int, i as int) == Seq::<u8>::empty());
    }
    while i < end
        invariant
            start <= i <= end <= octets@.len(),
            text@ == octets@.subrange(start as int, i as int).filter(kept),
            text@.len() <= i - start,
            kept == (|octet: u8| !is_blank(octet) && !is_newline(octet)),
        decreases end - i,
    {
        let octet = octets[i];
        proof {
            reveal(Seq::filter);
            assert(octets@.subrange(start as int, i + 1).drop_last() == octets@.subrange(
                start as int,
                i as int,
            ));
        }
        if octet != 32 && octet != 9 && octet != 10 && octet != 13 {
            text.push(octet);
        }
        i = i + 1;
    }
    text
}

/// Where the parts of a PEM document stand in it.
struct PemSpans {
    begin: (usize, usize),
    body: (usize, usize),
    end: (usize, usize),
}

impl PemSpans {
    spec fn within(&self, input: Seq<u8>) -> bool {
        &&& self.begin.0 <= self.begin.1 <= input.len()
        &&& self.body.0 <= self.body.1 <= input.len()
        &&& self.end.0 <= self.end.1 <= input.len()
    }

    spec fn of(&self, input: Seq<u8>) -> PemParts {
        PemParts {
            begin: input.subrange(self.begin.0 as int, self.begin.1 as int),
            body: input.subrange(self.body.0 as int, self.body.1 as int),
            end: input.subrange(self.end.0 as int, self.end.1 as int),
        }
    }
}

fn find_parts(input: &[u8]) -> (spans: Option<PemSpans>)
    ensures
        match spans {
            Some(spans) => spans.within(input@) && pem_parts(input@) == Some(spans.of(input@)),
            None => pem_parts(input@) is None,
        },
{
    let first = find_line_end(input, 0);
    assert(input@.skip(0) == input@);
    if first == input.len() {
        return None;
    }
    let body_end = find_body_end(input, first + 1);
    let last = find_line_end(input, body_end);
    let ghost rest = input@.skip(first + 1);
    let ghost tail = rest.skip(body_end - first - 1);
    proof {
        assert(tail == input@.skip(body_end as int));
        assert(rest.take(body_end - first - 1) == input@.subrange(first + 1, body_end as int));
        assert(input@.take(first as int) == input@.subrange(0, first as int));
        assert(tail.take(last - body_end) == input@.subrange(body_end as int, last as int));
        assert(tail.skip(last - body_end) == input@.skip(last as int));
    }
    let behind = input.len() - last;
    if body_end == first + 1 || behind > 2 {
        return None;
    }
    if behind == 2 && (input[last] != 13 || input[last + 1] != 10) {
        return None;
    }
    assert(behind == 2 ==> input@.skip(last as int) == seq![13u8, 10u8]);
    match (
        find_label(input, 0, first, "-----BEGIN ".as_bytes()),
        find_label(input, body_end, last, "-----END ".as_bytes()),
    ) {
        (Some(begin), Some(end)) => Some(PemSpans { begin, body: (first + 1, body_end), end }),
        _ => None,
    }
}

/// The label and the data of a PEM document.
pub fn parse_pem(input: &[u8]) -> (contents: Result<(String, Vec<u8>), KeyFormatError>)
    requires
        input@.len() * 4 <= usize::MAX,
    ensures
        match contents {
            Ok((label, data)) => pem_contents(input@) == Ok::<(Seq<char>, Seq<u8>), KeyFault>(
                (label@, data@),
            ),
            Err(error) => pem_contents(input@) == Err::<(Seq<char>, Seq<u8>), KeyFault>(error@),
        },
{
    match find_parts(input) {
        None => Err(KeyFormatError::InvalidPemFormat),
        Some(spans) => {
            let (begin_from, begin_to) = spans.begin;
            let (end_from, end_to) = spans.end;
            if !same_octets(
                slice_subrange(input, begin_from, begin_to),
                slice_subrange(input, end_from, end_to),
            ) {
                return Err(KeyFormatError::MismatchedPemLabels);
            }
            let (from, to) = spans.body;
            let text = to_compact(input, from, to);
            match decode_standard(text.as_slice()) {
                Ok(data) => Ok((to_ascii_text(input, begin_from, begin_to), data)),
                Err(error) => Err(KeyFormatError::Base64(error)),
            }
        },
    }
}

} // verus!
