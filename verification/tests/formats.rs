use rsapss_jws::der::arc::{from_arc_octets, to_arc_octets};
use rsapss_jws::der::builder::DerBuilder;
use rsapss_jws::der::header::{
    from_length_octets, from_tag_octets, to_length_octets, to_tag_octets,
};
use rsapss_jws::der::number::{to_integer_contents, to_shortest_octets};
use rsapss_jws::der::oid::ObjectIdentifier;
use rsapss_jws::der::reader::DerReader;
use rsapss_jws::der::types::{DerClass, DerError, DerType};
use rsapss_jws::error::KeyFormatError;
use rsapss_jws::jwk::{Jwk, JwkValue};
use rsapss_jws::pem::parse_pem;
use rsapss_jws::text::{push_decimal, push_dotted, same_octets, same_text, to_ascii_text};

#[test]
fn numbers_are_written_in_their_shortest_octets() {
    assert_eq!(to_shortest_octets(0), vec![0]);
    assert_eq!(to_shortest_octets(255), vec![255]);
    assert_eq!(to_shortest_octets(256), vec![1, 0]);
    assert_eq!(to_shortest_octets(u64::MAX), vec![255; 8]);
    assert_eq!(to_integer_contents(&[]), vec![0]);
    assert_eq!(to_integer_contents(&[0]), vec![0]);
    assert_eq!(to_integer_contents(&[0, 0, 127]), vec![127]);
    assert_eq!(to_integer_contents(&[0, 0, 128]), vec![0, 128]);
    assert_eq!(to_integer_contents(&[128, 1]), vec![0, 128, 1]);
}

#[test]
fn arcs_are_written_and_read_in_groups_of_seven_bits() {
    assert_eq!(to_arc_octets(0), vec![0]);
    assert_eq!(to_arc_octets(127), vec![127]);
    assert_eq!(to_arc_octets(128), vec![0x81, 0]);
    assert_eq!(to_arc_octets(113549), vec![0x86, 0xf7, 0x0d]);
    for n in [0, 1, 127, 128, 16383, 16384, u64::MAX] {
        let octets = to_arc_octets(n);
        assert_eq!(from_arc_octets(&octets, 0, octets.len()), Some((octets.len(), n)));
    }
    assert_eq!(from_arc_octets(&[0x80, 1], 0, 2), None);
    assert_eq!(from_arc_octets(&[0x81], 0, 1), None);
    assert_eq!(from_arc_octets(&[0xff; 11], 0, 11), None);
}

#[test]
fn object_identifiers() {
    let oid = ObjectIdentifier::from_slice(&[1, 2, 840, 113549, 1, 1, 10]);
    let contents = oid.to_contents();
    assert_eq!(contents, vec![0x2a, 0x86, 0x48, 0x86, 0xf7, 0x0d, 1, 1, 10]);
    let read = ObjectIdentifier::from_contents(&contents, 0, contents.len()).unwrap();
    assert!(read == oid);
    assert!(read.same_as(&oid));
    assert_eq!(read.to_text(), "1.2.840.113549.1.1.10");

    let big = ObjectIdentifier::from_slice(&[2, 999, 3]);
    assert_eq!(big.to_contents(), vec![0x88, 0x37, 3]);
    let read = ObjectIdentifier::from_contents(&[0x88, 0x37, 3], 0, 3).unwrap();
    assert_eq!(read.to_text(), "2.999.3");
    assert!(read != oid);

    assert!(ObjectIdentifier::from_contents(&[], 0, 0).is_none());
    assert!(ObjectIdentifier::from_contents(&[0x2a, 0x80, 1], 0, 3).is_none());
    assert!(ObjectIdentifier::from_contents(&[0x2a, 0x86], 0, 2).is_none());
}

#[test]
fn tags_and_lengths() {
    assert_eq!(to_tag_octets(DerType::Sequence, true), vec![0x30]);
    assert_eq!(to_tag_octets(DerType::Integer, false), vec![0x02]);
    let high = DerType::Other(DerClass::Private, 200);
    assert_eq!(to_tag_octets(high, true), vec![0xff, 0x81, 0x48]);
    assert_eq!(from_tag_octets(&[0xff, 0x81, 0x48], 0, 3), Some((high, true, 3)));
    assert_eq!(from_tag_octets(&[0x1f, 0x1e], 0, 2), None);
    assert_eq!(from_tag_octets(&[], 0, 0), None);
    for first in [0x00, 0x20, 0x10, 0x11, 0x22, 0x23, 0x24, 0x25, 0x26] {
        assert_eq!(from_tag_octets(&[first], 0, 1), None);
    }
    for first in [0x02, 0x03, 0x04, 0x05, 0x06, 0x30, 0x31, 0x80, 0xa0] {
        assert!(from_tag_octets(&[first], 0, 1).is_some());
    }
    assert!(DerType::Sequence.fits_form(true));
    assert!(!DerType::Sequence.fits_form(false));
    assert!(!DerType::Integer.fits_form(true));
    assert!(DerType::Other(DerClass::Universal, 17).fits_form(true));
    assert!(DerType::Other(DerClass::Private, 17).fits_form(false));

    assert_eq!(to_length_octets(127), vec![127]);
    assert_eq!(to_length_octets(128), vec![0x81, 128]);
    assert_eq!(to_length_octets(300), vec![0x82, 1, 44]);
    assert_eq!(from_length_octets(&[0x82, 1, 44], 0, 3), Some((3, 300)));
    assert_eq!(from_length_octets(&[0x81, 127], 0, 2), None);
    assert_eq!(from_length_octets(&[0x82, 0, 200], 0, 3), None);
    assert_eq!(from_length_octets(&[0x80], 0, 1), None);
}

#[test]
fn values_are_built_into_one_another() {
    let mut builder = DerBuilder::new();
    builder.append_integer_from_u8(200);
    builder.begin(DerType::Sequence);
    builder.append_integer_from_be_slice(&[0, 1, 2]);
    builder.begin(DerType::Other(DerClass::ContextSpecific, 1));
    builder.append_octed_string_from_slice(&[7, 8]);
    builder.end();
    builder.append_bit_string_from_slice(&[0xf0], 4);
    builder.end();
    assert_eq!(
        builder.build(),
        vec![2, 2, 0, 200, 0x30, 14, 2, 2, 1, 2, 0xa1, 4, 4, 2, 7, 8, 3, 2, 4, 0xf0]
    );

    let mut builder = DerBuilder::new();
    builder.append_octed_string_from_slice(&[9; 200]);
    let octets = builder.build();
    assert_eq!(octets[..3], [4, 0x81, 200]);
    assert_eq!(octets[3..], [9; 200]);
}

#[test]
fn values_are_read_one_by_one() {
    let octets = [
        0x30, 14, 2, 2, 1, 2, 0xa1, 5, 0x30, 3, 2, 1, 5, 6, 1, 42, 2, 1, 9,
    ];
    let mut reader = DerReader::from_slice(&octets);
    assert!(!reader.is_primitive());
    assert_eq!(reader.next(), Ok(Some(DerType::Sequence)));
    assert!(!reader.is_primitive());
    assert_eq!(reader.to_u8(), Err(DerError::InvalidContents));
    assert_eq!(reader.next(), Ok(Some(DerType::Integer)));
    assert_eq!(reader.to_u8(), Err(DerError::InvalidContents));
    assert_eq!(
        reader.next(),
        Ok(Some(DerType::Other(DerClass::ContextSpecific, 1)))
    );
    assert_eq!(reader.next(), Ok(Some(DerType::Sequence)));
    assert_eq!(reader.next(), Ok(Some(DerType::Integer)));
    assert_eq!(reader.to_u8(), Ok(5));
    assert!(reader.is_primitive());
    assert_eq!(reader.ended(), 0);
    assert_eq!(reader.next(), Ok(Some(DerType::EndOfContents)));
    assert_eq!(reader.ended(), 2);
    assert!(!reader.is_primitive());
    assert_eq!(reader.next(), Ok(Some(DerType::ObjectIdentifier)));
    assert_eq!(reader.to_object_identifier().unwrap().to_text(), "1.2");
    assert_eq!(reader.next(), Ok(Some(DerType::EndOfContents)));
    assert_eq!(reader.ended(), 1);
    assert_eq!(reader.next(), Ok(Some(DerType::Integer)));
    assert_eq!(reader.to_u8(), Ok(9));
    assert_eq!(reader.next(), Ok(None));
    assert_eq!(reader.next(), Ok(None));
}

#[test]
fn what_is_no_der_is_not_read() {
    let mut reader = DerReader::from_slice(&[0x1f, 0x80]);
    assert_eq!(reader.next(), Err(DerError::InvalidTag));
    let mut reader = DerReader::from_slice(&[0x02, 2, 1]);
    assert_eq!(reader.next(), Err(DerError::InvalidLength));
    let mut reader = DerReader::from_slice(&[0x30, 0x80, 0, 0]);
    assert_eq!(reader.next(), Err(DerError::InvalidLength));
    let mut reader = DerReader::from_slice(&[0x02, 2, 0, 5]);
    assert_eq!(reader.next(), Ok(Some(DerType::Integer)));
    assert_eq!(reader.to_u8(), Err(DerError::InvalidContents));
    assert!(matches!(reader.to_object_identifier(), Err(DerError::InvalidContents)));
}

#[test]
fn pem_documents_are_taken_apart() {
    for document in [
        "-----BEGIN RSA-PSS PRIVATE KEY-----\naGVs\nbG8=\n-----END RSA-PSS PRIVATE KEY-----\n",
        "-----BEGIN RSA-PSS PRIVATE KEY-----\naGVsbG8=\n-----END RSA-PSS PRIVATE KEY-----",
        "-----BEGIN RSA-PSS PRIVATE KEY----- \r\n aGVs bG8=\r\n\
-----END RSA-PSS PRIVATE KEY-----\t\r\n",
    ] {
        let (label, data) = parse_pem(document.as_bytes()).unwrap();
        assert_eq!(label, "RSA-PSS PRIVATE KEY");
        assert_eq!(data, b"hello");
    }
}

#[test]
fn what_is_no_pem_document_is_refused() {
    for document in [
        "",
        "aGVsbG8=",
        "-----BEGIN KEY-----",
        "-----BEGIN KEY-----\n",
        "-----BEGIN KEY-----\naGVsbG8=\n",
        "-----BEGIN KEY-----\naGVsbG8=\n-----END KEY----\n",
        "-----BEGIN key-----\naGVsbG8=\n-----END key-----\n",
        "-----BEGIN -----\naGVsbG8=\n-----END -----\n",
        "-----BEGIN KEY-----\naGVsb-G8=\n-----END KEY-----\n",
        "-----BEGIN KEY-----\naGVsbG8=\n-----END KEY-----\n\n",
        " -----BEGIN KEY-----\naGVsbG8=\n-----END KEY-----\n",
        "-----BEGIN KEY-----\n-----END KEY-----\n",
    ] {
        let contents = parse_pem(document.as_bytes());
        assert!(matches!(contents, Err(KeyFormatError::InvalidPemFormat)));
    }
    let contents = parse_pem(b"-----BEGIN A-----\naGVsbG8=\n-----END B-----\n");
    assert!(matches!(contents, Err(KeyFormatError::MismatchedPemLabels)));
    let contents = parse_pem(b"-----BEGIN A-----\naGVsb\n-----END A-----\n");
    assert!(matches!(contents, Err(KeyFormatError::Base64(_))));
}

#[test]
fn a_jwk_holds_what_is_set() {
    let mut jwk = Jwk::new("RSA");
    assert_eq!(jwk.key_type(), "RSA");
    assert_eq!(jwk.key_use(), None);
    assert_eq!(jwk.key_operations(), None);
    assert_eq!(jwk.algorithm(), None);
    assert_eq!(jwk.key_id(), None);
    assert!(jwk.parameter("n").is_none());

    jwk.set_key_use("sig");
    jwk.set_key_operations(vec!["sign".to_string()]);
    jwk.set_algorithm("PS256");
    jwk.set_key_id("1");
    jwk.set_parameter("n", JwkValue::Other);
    jwk.set_parameter("e", JwkValue::Text("AQAB".to_string()));
    jwk.set_parameter("n", JwkValue::Text("AA".to_string()));
    assert_eq!(jwk.key_use(), Some("sig"));
    assert_eq!(jwk.key_operations(), Some(&vec!["sign".to_string()]));
    assert_eq!(jwk.algorithm(), Some("PS256"));
    assert_eq!(jwk.key_id(), Some("1"));
    assert!(matches!(jwk.parameter("n"), Some(JwkValue::Text(text)) if text == "AA"));
    assert!(matches!(jwk.parameter("e"), Some(JwkValue::Text(text)) if text == "AQAB"));
    assert!(jwk.parameter("d").is_none());
}

#[test]
fn text_helpers() {
    let mut text = String::from("n=");
    push_decimal(&mut text, 0);
    push_decimal(&mut text, u64::MAX);
    assert_eq!(text, "n=018446744073709551615");
    let mut text = String::from("<");
    push_dotted(&mut text, &vec![]);
    push_dotted(&mut text, &vec![7]);
    push_dotted(&mut text, &vec![10, 0, 200]);
    assert_eq!(text, "<710.0.200");
    assert!(same_text("k\u{e9}y", "k\u{e9}y"));
    assert!(!same_text("key", "k\u{e9}y"));
    assert!(same_octets(&[], &[]));
    assert!(!same_octets(&[1], &[1, 2]));
    assert!(!same_octets(&[1, 3], &[1, 2]));
    assert_eq!(to_ascii_text(b"abcdef", 1, 4), "bcd");
}
