//! DER values are read as they were written, and each can be written in one way only.
use crate::der::header::{
    lemma_header_reads_back, lemma_header_writes_back, read_header, value_octets,
};
use crate::der::oid::{
    lemma_oid_reads_back, lemma_oid_writes_back, oid_contents, read_oid, valid_arcs,
};
use crate::der::types::DerType;
use vstd::prelude::*;

verus! {

/// A value that was written is read back, whatever follows it.
pub proof fn law_value_reads_back(
    der_type: DerType,
    constructed: bool,
    contents: Seq<u8>,
    tail: Seq<u8>,
)
    requires
        der_type.is_plain(),
        der_type.takes_form(constructed),
        contents.len() <= u64::MAX,
    ensures
        ({
            let octets = value_octets(der_type, constructed, contents) + tail;
            &&& read_header(octets) matches Ok(header)
            &&& header.der_type == der_type
            &&& header.constructed == constructed
            &&& octets.subrange(header.start as int, header.end as int) == contents
            &&& octets.skip(header.end as int) == tail
        }),
{
    lemma_header_reads_back(der_type, constructed, contents, tail);
}

/// A value that is read is written as the same octets again: no value has two forms.
pub proof fn law_value_has_one_form(octets: Seq<u8>)
    requires
        read_header(octets) is Ok,
    ensures
        ({
            let header = read_header(octets)->Ok_0;
            octets.take(header.end as int) == value_octets(
                header.der_type,
                header.constructed,
                octets.subrange(header.start as int, header.end as int),
            )
        }),
{
    lemma_header_writes_back(octets);
}

/// An object identifier that was written is read back, and from no other octets.
pub proof fn law_object_identifier_has_one_form(arcs: Seq<u64>, contents: Seq<u8>)
    requires
        valid_arcs(arcs),
    ensures
        read_oid(contents) == Some(arcs) <==> contents == oid_contents(arcs),
{
    lemma_oid_reads_back(arcs);
    if read_oid(contents) == Some(arcs) {
        lemma_oid_writes_back(contents);
    }
}

} // verus!
