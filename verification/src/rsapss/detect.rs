//! Telling keys with their algorithm from bare PKCS#1 keys.
use crate::der::oid::{read_oid, ObjectIdentifier};
use crate::der::reader::{read_u8, step, DerReader, Event};
use crate::der::types::{DerClass, DerType};
use crate::error::{KeyFault, KeyFormatError};
use crate::rsapss::{mgf1_arcs, oid_mgf1, oid_rsassa_pss, rsassa_pss_arcs, RsaPssJwsAlgorithm};
use vstd::prelude::*;

verus! {

/// What is looked for at one place of a key.
pub enum Mark {
    /// A constructed value of the given type.
    Type(DerType),
    /// The place where so many constructed values end.
    End(nat),
    /// The version of the key information, zero.
    Version,
    /// The given object identifier.
    Oid(Seq<u64>),
    /// The given length of the salt.
    Salt(u8),
}

/// The marks of the algorithm with its parameters, in the order in which they are come upon.
pub open spec fn algorithm_marks(algorithm: RsaPssJwsAlgorithm) -> Seq<Mark> {
    seq![
        Mark::Type(DerType::Sequence),
        Mark::Oid(rsassa_pss_arcs()),
        Mark::Type(DerType::Sequence),
        Mark::Type(DerType::Other(DerClass::ContextSpecific, 0)),
        Mark::Type(DerType::Sequence),
        Mark::Oid(algorithm.digest_arcs()),
        Mark::End(2),
        Mark::Type(DerType::Other(DerClass::ContextSpecific, 1)),
        Mark::Type(DerType::Sequence),
        Mark::Oid(mgf1_arcs()),
        Mark::Type(DerType::Sequence),
        Mark::Oid(algorithm.digest_arcs()),
        Mark::End(3),
        Mark::Type(DerType::Other(DerClass::ContextSpecific, 2)),
        Mark::Salt(algorithm.salt_octets()),
    ]
}

/// The marks of a key with its algorithm: the version stands in a private key only.
pub open spec fn key_info_marks(algorithm: RsaPssJwsAlgorithm, is_public: bool) -> Seq<Mark> {
    if is_public {
        seq![Mark::Type(DerType::Sequence)] + algorithm_marks(algorithm)
    } else {
        seq![Mark::Type(DerType::Sequence), Mark::Version] + algorithm_marks(algorithm)
    }
}

/// Holds what was come upon against a mark: whether it is of the kind that the mark asks for, and
/// the fault where it is of that kind and not what the mark asks for.
pub open spec fn meets(event: Event, mark: Mark) -> Result<bool, KeyFault> {
    match mark {
        Mark::Type(der_type) => Ok(event.der_type == der_type && event.contents is None),
        Mark::End(count) => Ok(
            event.der_type == DerType::EndOfContents && event.ended == count,
        ),
        Mark::Version => match event {
            Event { der_type: DerType::Integer, contents: Some(contents), .. } => match read_u8(
                contents,
            ) {
                Some(version) => if version == 0 {
                    Ok(true)
                } else {
                    Err(KeyFault::UnrecognizedVersion(version))
                },
                None => Ok(false),
            },
            _ => Ok(false),
        },
        Mark::Oid(arcs) => match event {
            Event { der_type: DerType::ObjectIdentifier, contents: Some(contents), .. } => {
                match read_oid(contents) {
                    Some(found) => if found == arcs {
                        Ok(true)
                    } else {
                        Err(KeyFault::IncompatibleOid(found))
                    },
                    None => Ok(false),
                }
            },
            _ => Ok(false),
        },
        Mark::Salt(octets) => match event {
            Event { der_type: DerType::Integer, contents: Some(contents), .. } => match read_u8(
                contents,
            ) {
                Some(found) => if found == octets {
                    Ok(true)
                } else {
                    Err(KeyFault::IncompatibleSaltLength(found))
                },
                None => Ok(false),
            },
            _ => Ok(false),
        },
    }
}

/// What looking for `mark` comes to, where `pending` is left to read.
#[verifier::opaque]
pub open spec fn looked_for(pending: Seq<Seq<u8>>, mark: Mark) -> Result<bool, KeyFault> {
    match step(pending) {
        Ok(Some((_, event))) => meets(event, mark),
        _ => Ok(false),
    }
}

/// What is left to read after one step.
#[verifier::opaque]
pub open spec fn moved_on(pending: Seq<Seq<u8>>) -> Seq<Seq<u8>> {
    match step(pending) {
        Ok(Some((rest, _))) => rest,
        _ => pending,
    }
}

/// Whether reading comes upon the marks from the one at `i` on, one after the other. The first
/// that is not met decides.
pub open spec fn finds(pending: Seq<Seq<u8>>, marks: Seq<Mark>, i: int) -> Result<bool, KeyFault>
    decreases marks.len() - i,
{
    if i >= marks.len() {
        Ok(true)
    } else {
        match looked_for(pending, marks[i]) {
            Ok(true) => finds(moved_on(pending), marks, i + 1),
            Ok(false) => Ok(false),
            Err(fault) => Err(fault),
        }
    }
}

/// Whether octets are a key with its algorithm, as far as the parameters of the algorithm; or why
/// they are one that this algorithm cannot use.
pub open spec fn detected(
    algorithm: RsaPssJwsAlgorithm,
    octets: Seq<u8>,
    is_public: bool,
) -> Result<bool, KeyFault> {
    finds(seq![octets], key_info_marks(algorithm, is_public), 0)
}

/// An outcome of looking for a mark, in mathematical terms.
pub open spec fn as_detected(outcome: Result<bool, KeyFormatError>) -> Result<bool, KeyFault> {
    match outcome {
        Ok(found) => Ok(found),
        Err(error) => Err(error@),
    }
}

/// Looks for a constructed value of the given type.
fn find_type(reader: &mut DerReader<'_>, der_type: DerType) -> (found: bool)
    requires
        old(reader).well_formed(),
    ensures
        final(reader).well_formed(),
        final(reader).pending() == moved_on(old(reader).pending()),
        Ok::<bool, KeyFault>(found) == looked_for(old(reader).pending(), Mark::Type(der_type)),
{
    reveal(looked_for);
    reveal(moved_on);
    match reader.next() {
        Ok(Some(found)) => found == der_type && !reader.is_primitive(),
        _ => false,
    }
}

/// Looks for the place where `count` constructed values end.
fn find_end(reader: &mut DerReader<'_>, count: usize) -> (found: bool)
    requires
        old(reader).well_formed(),
    ensures
        final(reader).well_formed(),
        final(reader).pending() == moved_on(old(reader).pending()),
        Ok::<bool, KeyFault>(found) == looked_for(old(reader).pending(), Mark::End(count as nat)),
{
    reveal(looked_for);
    reveal(moved_on);
    match reader.next() {
        Ok(Some(DerType::EndOfContents)) => reader.ended() == count,
        _ => false,
    }
}

/// Looks for the version zero.
fn find_version(reader: &mut DerReader<'_>) -> (found: Result<bool, KeyFormatError>)
    requires
        old(reader).well_formed(),
    ensures
        final(reader).well_formed(),
        final(reader).pending() == moved_on(old(reader).pending()),
        as_detected(found) == looked_for(old(reader).pending(), Mark::Version),
{
    reveal(looked_for);
    reveal(moved_on);
    match reader.next() {
        Ok(Some(DerType::Integer)) => match reader.to_u8() {
            Ok(version) => {
                if version != 0 {
                    return Err(KeyFormatError::UnrecognizedVersion(version));
                }
                Ok(true)
            },
            _ => Ok(false),
        },
        _ => Ok(false),
    }
}

/// Looks for the object identifier `oid`.
fn find_oid(reader: &mut DerReader<'_>, oid: &ObjectIdentifier) -> (found: Result<
    bool,
    KeyFormatError,
>)
    requires
        old(reader).well_formed(),
    ensures
        final(reader).well_formed(),
        final(reader).pending() == moved_on(old(reader).pending()),
        as_detected(found) == looked_for(old(reader).pending(), Mark::Oid(oid@)),
{
    reveal(looked_for);
    reveal(moved_on);
    match reader.next() {
        Ok(Some(DerType::ObjectIdentifier)) => match reader.to_object_identifier() {
            Ok(found) => {
                if found != *oid {
                    return Err(KeyFormatError::IncompatibleOid(found));
                }
                Ok(true)
            },
            _ => Ok(false),
        },
        _ => Ok(false),
    }
}

/// Looks for the length `octets` of the salt.
fn find_salt(reader: &mut DerReader<'_>, octets: u8) -> (found: Result<bool, KeyFormatError>)
    requires
        old(reader).well_formed(),
    ensures
        final(reader).well_formed(),
        final(reader).pending() == moved_on(old(reader).pending()),
        as_detected(found) == looked_for(old(reader).pending(), Mark::Salt(octets)),
{
    reveal(looked_for);
    reveal(moved_on);
    match reader.next() {
        Ok(Some(DerType::Integer)) => match reader.to_u8() {
            Ok(found) => {
                if found != octets {
                    return Err(KeyFormatError::IncompatibleSaltLength(found));
                }
                Ok(true)
            },
            _ => Ok(false),
        },
        _ => Ok(false),
    }
}

/// A search from behind the first marks on is a search for the others alone.
pub proof fn lemma_finds_behind(pending: Seq<Seq<u8>>, front: Seq<Mark>, back: Seq<Mark>, i: int)
    requires
        0 <= i,
    ensures
        finds(pending, front + back, front.len() + i) == finds(pending, back, i),
    decreases back.len() - i,
{
    if i < back.len() {
        lemma_finds_behind(moved_on(pending), front, back, i + 1);
    }
}

impl RsaPssJwsAlgorithm {
    /// Whether `input` is a key with its algorithm, PKCS#8 PrivateKeyInfo or
    /// SubjectPublicKeyInfo, and not a bare PKCS#1 key. It is an error where it is one for another
    /// algorithm, digest or salt.
    pub fn detect_pkcs8(&self, input: &[u8], is_public: bool) -> (found: Result<
        bool,
        KeyFormatError,
    >)
        ensures
            as_detected(found) == detected(*self, input@, is_public),
    {
        let mut reader = DerReader::from_slice(input);
        let ghost marks = key_info_marks(*self, is_public);
        let ghost outcome = finds(reader.pending(), marks, 0);
        if !find_type(&mut reader, DerType::Sequence) {
            return Ok(false);
        }
        assert(outcome == finds(reader.pending(), marks, 1));
        if !is_public {
            match find_version(&mut reader) {
                Ok(true) => {},
                other => return other,
            }
            assert(outcome == finds(reader.pending(), marks, 2));
        }
        proof {
            if is_public {
                lemma_finds_behind(
                    reader.pending(),
                    seq![Mark::Type(DerType::Sequence)],
                    algorithm_marks(*self),
                    0,
                );
            } else {
                lemma_finds_behind(
                    reader.pending(),
                    seq![Mark::Type(DerType::Sequence), Mark::Version],
                    algorithm_marks(*self),
                    0,
                );
            }
        }
        self.find_algorithm(&mut reader)
    }

    /// Looks for the algorithm with its parameters.
    fn find_algorithm(&self, reader: &mut DerReader<'_>) -> (found: Result<bool, KeyFormatError>)
        requires
            old(reader).well_formed(),
        ensures
            as_detected(found) == finds(old(reader).pending(), algorithm_marks(*self), 0),
    {
        let ghost marks = algorithm_marks(*self);
        let ghost outcome = finds(reader.pending(), marks, 0);
        if !find_type(reader, DerType::Sequence) {
            return Ok(false);
        }
        assert(outcome == finds(reader.pending(), marks, 1));
        match find_oid(reader, &oid_rsassa_pss()) {
            Ok(true) => {},
            other => return other,
        }
        assert(outcome == finds(reader.pending(), marks, 2));
        if !find_type(reader, DerType::Sequence) {
            return Ok(false);
        }
        assert(outcome == finds(reader.pending(), marks, 3));
        if !find_type(reader, DerType::Other(DerClass::ContextSpecific, 0)) {
            return Ok(false);
        }
        assert(outcome == finds(reader.pending(), marks, 4));
        if !find_type(reader, DerType::Sequence) {
            return Ok(false);
        }
        assert(outcome == finds(reader.pending(), marks, 5));
        match find_oid(reader, &self.digest()) {
            Ok(true) => {},
            other => return other,
        }
        assert(outcome == finds(reader.pending(), marks, 6));
        if !find_end(reader, 2) {
            return Ok(false);
        }
        assert(outcome == finds(reader.pending(), marks, 7));
        if !find_type(reader, DerType::Other(DerClass::ContextSpecific, 1)) {
            return Ok(false);
        }
        assert(outcome == finds(reader.pending(), marks, 8));
        if !find_type(reader, DerType::Sequence) {
            return Ok(false);
        }
        assert(outcome == finds(reader.pending(), marks, 9));
        match find_oid(reader, &oid_mgf1()) {
            Ok(true) => {},
            other => return other,
        }
        assert(outcome == finds(reader.pending(), marks, 10));
        if !find_type(reader, DerType::Sequence) {
            return Ok(false);
        }
        assert(outcome == finds(reader.pending(), marks, 11));
        match find_oid(reader, &self.digest()) {
            Ok(true) => {},
            other => return other,
        }
        assert(outcome == finds(reader.pending(), marks, 12));
        if !find_end(reader, 3) {
            return Ok(false);
        }
        assert(outcome == finds(reader.pending(), marks, 13));
        if !find_type(reader, DerType::Other(DerClass::ContextSpecific, 2)) {
            return Ok(false);
        }
        assert(outcome == finds(reader.pending(), marks, 14));
        assert(finds(moved_on(reader.pending()), marks, 15) == Ok::<bool, KeyFault>(true));
        find_salt(reader, self.salt_len())
    }
}

} // verus!
