//! Which texts are PEM documents, and what they hold.
use crate::encoding::standard_decoded;
use crate::error::KeyFault;
use crate::pem::{
    body_length, compact, is_blank, is_body_octet, is_label_octet, is_newline, label_of,
    line_length, pem_contents, pem_parts, without_last_blanks, PemParts,
};
use crate::text::ascii_text;
use vstd::prelude::*;
use vstd::string::StringSliceAdditionalSpecFns;
use vstd::utf8::{is_ascii_chars, is_ascii_chars_encode_utf8};

verus! {

/// Whether octets are an end of a line: LF, CR, or CR and LF.
pub open spec fn ends_line(octets: Seq<u8>) -> bool {
    octets == seq![0x0au8] || octets == seq![0x0du8] || octets == seq![0x0du8, 0x0au8]
}

/// Whether octets are spaces and tabs.
pub open spec fn all_blank(octets: Seq<u8>) -> bool {
    forall|i: int| 0 <= i < octets.len() ==> #[trigger] octets[i] == 0x20 || octets[i] == 0x09
}

/// Whether octets are a label: capital letters, digits, spaces and hyphens, and at least one.
pub open spec fn is_label(octets: Seq<u8>) -> bool {
    &&& octets.len() > 0
    &&& forall|i: int|
        0 <= i < octets.len() ==> 0x41 <= #[trigger] octets[i] <= 0x5a || 0x30 <= octets[i] <= 0x39
            || octets[i] == 0x20 || octets[i] == 0x2d
}

/// Whether octets are a body: letters, digits, '+', '/' and '=', and among them blanks and ends of
/// lines, and at least one of them all.
pub open spec fn is_body(octets: Seq<u8>) -> bool {
    &&& octets.len() > 0
    &&& forall|i: int|
        0 <= i < octets.len() ==> 0x41 <= #[trigger] octets[i] <= 0x5a || 0x61 <= octets[i] <= 0x7a
            || 0x30 <= octets[i] <= 0x39 || octets[i] == 0x2b || octets[i] == 0x2f || octets[i]
            == 0x3d || octets[i] == 0x20 || octets[i] == 0x09 || octets[i] == 0x0a || octets[i]
            == 0x0d
}

/// A line with a label, but for its end.
pub open spec fn label_line(marker: Seq<u8>, label: Seq<u8>, blanks: Seq<u8>) -> Seq<u8> {
    marker + label + "-----".spec_bytes() + blanks
}

/// A PEM document. Its parts are the label, blanks and the end of the first line; the body, which
/// brings the ends of its own lines; and the label, blanks and the end of the last line.
pub open spec fn pem_document(
    first: (Seq<u8>, Seq<u8>, Seq<u8>),
    body: Seq<u8>,
    last: (Seq<u8>, Seq<u8>, Seq<u8>),
) -> Seq<u8> {
    label_line("-----BEGIN ".spec_bytes(), first.0, first.1) + first.2 + (body + (label_line(
        "-----END ".spec_bytes(),
        last.0,
        last.1,
    ) + last.2))
}

/// Whether the parts are such that they make a PEM document. The last line need not end.
pub open spec fn makes_document(
    first: (Seq<u8>, Seq<u8>, Seq<u8>),
    body: Seq<u8>,
    last: (Seq<u8>, Seq<u8>, Seq<u8>),
) -> bool {
    &&& is_label(first.0) && all_blank(first.1) && ends_line(first.2)
    &&& is_body(body)
    &&& is_label(last.0) && all_blank(last.1) && (last.2.len() == 0 || ends_line(last.2))
}

proof fn lemma_line_length(line: Seq<u8>, rest: Seq<u8>)
    requires
        forall|i: int| 0 <= i < line.len() ==> !is_newline(#[trigger] line[i]),
        rest.len() > 0 ==> is_newline(rest[0]),
    ensures
        line_length(line + rest) == line.len(),
    decreases line.len(),
{
    if line.len() == 0 {
        assert(line + rest == rest);
    } else {
        assert((line + rest).drop_first() == line.drop_first() + rest);
        lemma_line_length(line.drop_first(), rest);
    }
}

proof fn lemma_body_length(body: Seq<u8>, rest: Seq<u8>)
    requires
        forall|i: int| 0 <= i < body.len() ==> is_body_octet(#[trigger] body[i]),
        rest.len() > 0,
        !is_body_octet(rest[0]),
    ensures
        body_length(body + rest) == body.len(),
    decreases body.len(),
{
    if body.len() == 0 {
        assert(body + rest == rest);
    } else {
        assert((body + rest).drop_first() == body.drop_first() + rest);
        lemma_body_length(body.drop_first(), rest);
    }
}

proof fn lemma_ascii(text: &str)
    requires
        is_ascii_chars(text@),
    ensures
        text.spec_bytes().len() == text@.len(),
        forall|i: int|
            0 <= i < text@.len() ==> #[trigger] text.spec_bytes()[i] == text@[i] as u8,
{
    is_ascii_chars_encode_utf8(text@);
}

proof fn lemma_markers()
    ensures
        "-----".spec_bytes() == seq![45u8, 45, 45, 45, 45],
        "-----BEGIN ".spec_bytes() == seq![45u8, 45, 45, 45, 45, 66, 69, 71, 73, 78, 32],
        "-----END ".spec_bytes() == seq![45u8, 45, 45, 45, 45, 69, 78, 68, 32],
{
    reveal_strlit("-----");
    reveal_strlit("-----BEGIN ");
    reveal_strlit("-----END ");
    lemma_ascii("-----");
    lemma_ascii("-----BEGIN ");
    lemma_ascii("-----END ");
}

proof fn lemma_without_blanks(line: Seq<u8>, blanks: Seq<u8>)
    requires
        all_blank(blanks),
        line.len() > 0,
        !is_blank(line.last()),
    ensures
        without_last_blanks(line + blanks) == line,
    decreases blanks.len(),
{
    if blanks.len() == 0 {
        assert(line + blanks == line);
    } else {
        assert((line + blanks).drop_last() == line + blanks.drop_last());
        assert((line + blanks).last() == blanks[blanks.len() - 1]);
        lemma_without_blanks(line, blanks.drop_last());
    }
}

proof fn lemma_label_line(marker: Seq<u8>, label: Seq<u8>, blanks: Seq<u8>)
    requires
        is_label(label),
        all_blank(blanks),
        forall|i: int| 0 <= i < marker.len() ==> !is_newline(#[trigger] marker[i]),
    ensures
        label_of(label_line(marker, label, blanks), marker) == Some(label),
        forall|i: int|
            0 <= i < label_line(marker, label, blanks).len() ==> !is_newline(
                #[trigger] label_line(marker, label, blanks)[i],
            ),
{
    reveal(label_of);
    lemma_markers();
    let hyphens = "-----".spec_bytes();
    let line = marker + label + hyphens;
    let stop = (marker.len() + label.len()) as int;
    lemma_without_blanks(line, blanks);
    assert(line.take(marker.len() as int) == marker);
    assert(line.skip(stop) == hyphens);
    assert(line.subrange(marker.len() as int, stop) == label);
    assert forall|i: int| marker.len() <= i < stop implies is_label_octet(#[trigger] line[i]) by {
        assert(line[i] == label[i - marker.len()]);
    }
    let whole = label_line(marker, label, blanks);
    assert forall|i: int| 0 <= i < whole.len() implies !is_newline(#[trigger] whole[i]) by {
        if i < marker.len() {
            assert(whole[i] == marker[i]);
        } else if i < stop {
            assert(whole[i] == label[i - marker.len()]);
        } else if i < line.len() {
            assert(whole[i] == hyphens[i - stop]);
        } else {
            assert(whole[i] == blanks[i - line.len()]);
        }
    }
}

/// The octets of a body that are no blanks and no ends of lines, in their order, are what is
/// decoded.
pub proof fn law_blanks_and_ends_of_lines_do_not_matter(
    front: Seq<u8>,
    back: Seq<u8>,
    octet: u8,
)
    ensures
        compact(Seq::empty()) == Seq::<u8>::empty(),
        compact(front + back) == compact(front) + compact(back),
        octet == 0x20 || octet == 0x09 || octet == 0x0a || octet == 0x0d ==> compact(seq![octet])
            == Seq::<u8>::empty(),
        octet != 0x20 && octet != 0x09 && octet != 0x0a && octet != 0x0d ==> compact(seq![octet])
            == seq![octet],
{
    let kept = |octet: u8| !is_blank(octet) && !is_newline(octet);
    Seq::filter_distributes_over_add(front, back, kept);
    reveal_with_fuel(Seq::filter, 2);
    assert(seq![octet].drop_last() == Seq::<u8>::empty());
}

/// A PEM document is taken apart into its label and what Base64 gives back of its body, whatever
/// the ends of its lines are, with or without one behind the last line, and however long the body
/// is. Where the labels of the first and of the last line differ, that is what is reported.
pub proof fn law_pem_document_is_read(
    first: (Seq<u8>, Seq<u8>, Seq<u8>),
    body: Seq<u8>,
    last: (Seq<u8>, Seq<u8>, Seq<u8>),
)
    requires
        makes_document(first, body, last),
    ensures
        pem_contents(pem_document(first, body, last)) == if first.0 != last.0 {
            Err::<(Seq<char>, Seq<u8>), KeyFault>(KeyFault::MismatchedPemLabels)
        } else {
            match standard_decoded(compact(body)) {
                Some(data) => Ok((ascii_text(first.0), data)),
                None => Err(KeyFault::Base64),
            }
        },
{
    let begin_marker = "-----BEGIN ".spec_bytes();
    let end_marker = "-----END ".spec_bytes();
    let begin = label_line(begin_marker, first.0, first.1);
    let end = label_line(end_marker, last.0, last.1);
    let tail = end + last.2;
    let line_feed = first.2.skip(1);
    let inner = line_feed + body;
    let rest = inner + tail;
    let input = pem_document(first, body, last);
    lemma_markers();
    lemma_label_line(begin_marker, first.0, first.1);
    lemma_label_line(end_marker, last.0, last.1);
    assert(input == begin + (first.2 + (body + tail)));
    lemma_line_length(begin, first.2 + (body + tail));
    assert(input.take(begin.len() as int) == begin);
    assert(input.skip(begin.len() as int + 1) == rest);
    assert(tail[0] == 45);
    assert forall|i: int| 0 <= i < inner.len() implies is_body_octet(#[trigger] inner[i]) by {
        if i >= line_feed.len() {
            assert(inner[i] == body[i - line_feed.len()]);
        }
    }
    lemma_body_length(inner, tail);
    assert(rest.take(inner.len() as int) == inner);
    assert(rest.skip(inner.len() as int) == tail);
    lemma_line_length(end, last.2);
    assert(tail.take(end.len() as int) == end);
    assert(tail.skip(end.len() as int) == last.2);
    assert(pem_parts(input) == Some(PemParts { begin: first.0, body: inner, end: last.0 }));
    law_blanks_and_ends_of_lines_do_not_matter(line_feed, body, 0x0a);
    if line_feed.len() == 0 {
        assert(line_feed == Seq::<u8>::empty());
    } else {
        assert(line_feed == seq![0x0au8]);
    }
    assert(Seq::<u8>::empty() + compact(body) == compact(body));
}

proof fn lemma_line(octets: Seq<u8>)
    ensures
        0 <= line_length(octets) <= octets.len(),
        forall|i: int| 0 <= i < line_length(octets) ==> !is_newline(#[trigger] octets[i]),
        line_length(octets) < octets.len() ==> is_newline(octets[line_length(octets)]),
    decreases octets.len(),
{
    if octets.len() > 0 && !is_newline(octets[0]) {
        let rest = octets.drop_first();
        lemma_line(rest);
        assert forall|i: int| 0 <= i < line_length(octets) implies !is_newline(
            #[trigger] octets[i],
        ) by {
            if i > 0 {
                assert(octets[i] == rest[i - 1]);
            }
        }
    }
}

proof fn lemma_body(octets: Seq<u8>)
    ensures
        0 <= body_length(octets) <= octets.len(),
        forall|i: int| 0 <= i < body_length(octets) ==> is_body_octet(#[trigger] octets[i]),
    decreases octets.len(),
{
    if octets.len() > 0 && is_body_octet(octets[0]) {
        let rest = octets.drop_first();
        lemma_body(rest);
        assert forall|i: int| 0 <= i < body_length(octets) implies is_body_octet(
            #[trigger] octets[i],
        ) by {
            if i > 0 {
                assert(octets[i] == rest[i - 1]);
            }
        }
    }
}

proof fn lemma_last_blanks(line: Seq<u8>) -> (blanks: Seq<u8>)
    ensures
        all_blank(blanks),
        line == without_last_blanks(line) + blanks,
    decreases line.len(),
{
    if line.len() > 0 && is_blank(line.last()) {
        let blanks = lemma_last_blanks(line.drop_last());
        assert(line == line.drop_last().push(line.last()));
        assert(line == without_last_blanks(line) + blanks.push(line.last()));
        blanks.push(line.last())
    } else {
        let none = Seq::<u8>::empty();
        assert(line + none == line);
        none
    }
}

proof fn lemma_labelled_line(line: Seq<u8>, marker: Seq<u8>) -> (blanks: Seq<u8>)
    requires
        label_of(line, marker) is Some,
    ensures
        is_label(label_of(line, marker)->0),
        all_blank(blanks),
        line == label_line(marker, label_of(line, marker)->0, blanks),
{
    reveal(label_of);
    let blanks = lemma_last_blanks(line);
    let inner = without_last_blanks(line);
    let label = label_of(line, marker)->0;
    let stop = inner.len() - "-----".spec_bytes().len();
    assert forall|i: int| 0 <= i < label.len() implies is_label_octet(#[trigger] label[i]) by {
        assert(label[i] == inner[marker.len() + i]);
    }
    assert(inner == inner.take(marker.len() as int) + inner.subrange(marker.len() as int, stop)
        + inner.skip(stop));
    blanks
}

/// What is taken for a PEM document is one: a text that is refused for anything but its format is
/// made of the parts of a PEM document.
pub proof fn law_only_pem_documents_are_read(input: Seq<u8>)
    requires
        pem_contents(input) != Err::<(Seq<char>, Seq<u8>), KeyFault>(KeyFault::InvalidPemFormat),
    ensures
        exists|
            first: (Seq<u8>, Seq<u8>, Seq<u8>),
            body: Seq<u8>,
            last: (Seq<u8>, Seq<u8>, Seq<u8>),
        | input == #[trigger] pem_document(first, body, last) && makes_document(first, body, last),
{
    let begin_marker = "-----BEGIN ".spec_bytes();
    let end_marker = "-----END ".spec_bytes();
    let length = line_length(input);
    let rest = input.skip(length + 1);
    let inner = body_length(rest);
    let tail = rest.skip(inner);
    let final_length = line_length(tail);
    let behind = tail.skip(final_length);
    lemma_line(input);
    lemma_body(rest);
    lemma_line(tail);
    let first_blanks = lemma_labelled_line(input.take(length), begin_marker);
    let last_blanks = lemma_labelled_line(tail.take(final_length), end_marker);
    let first = (
        label_of(input.take(length), begin_marker)->0,
        first_blanks,
        seq![input[length]],
    );
    let body = rest.take(inner);
    let last = (label_of(tail.take(final_length), end_marker)->0, last_blanks, behind);
    assert(behind.len() == 1 ==> behind[0] == tail[final_length]);
    assert(behind.len() == 1 ==> behind == seq![behind[0]]);
    assert(tail == tail.take(final_length) + behind);
    assert(rest == body + tail);
    assert(input == input.take(length) + seq![input[length]] + rest);
    assert(input == pem_document(first, body, last));
}

/// The text of a label has a character for each octet, with the same number.
pub proof fn law_label_text(label: Seq<u8>)
    ensures
        ascii_text(label).len() == label.len(),
        forall|i: int| 0 <= i < label.len() ==> #[trigger] ascii_text(label)[i] == label[i] as char,
{
}

} // verus!
