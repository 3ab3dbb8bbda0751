//! The types of DER values.
use vstd::prelude::*;

verus! {

/// The class of a tag.
#[derive(Debug, Clone, Copy, PartialEq, Eq, Structural)]
pub enum DerClass {
    Universal,
    Application,
    ContextSpecific,
    Private,
}

/// The type of a DER value, as its tag gives it. `EndOfContents` has no octets in DER: it stands
/// for the place where the contents of constructed values end.
#[derive(Debug, Clone, Copy, PartialEq, Eq, Structural)]
pub enum DerType {
    EndOfContents,
    Integer,
    BitString,
    OctetString,
    ObjectIdentifier,
    Sequence,
    /// Any other type, by class and tag number.
    Other(DerClass, u64),
}

/// Why DER cannot be read.
#[derive(Debug, Clone, Copy, PartialEq, Eq, Structural)]
pub enum DerError {
    /// The next value has no tag, or none in its shortest form.
    InvalidTag,
    /// The length of the next value is missing, not in its shortest form, or exceeds what holds
    /// the value.
    InvalidLength,
    /// The value at hand is not of the wanted type or does not hold what is asked for.
    InvalidContents,
}

impl DerClass {
    /// The class bits of the first tag octet.
    pub open spec fn bits(self) -> u8 {
        match self {
            DerClass::Universal => 0,
            DerClass::Application => 64,
            DerClass::ContextSpecific => 128,
            DerClass::Private => 192,
        }
    }

    /// The class with the given class bits.
    pub open spec fn of_bits(bits: u8) -> DerClass {
        if bits < 64 {
            DerClass::Universal
        } else if bits < 128 {
            DerClass::Application
        } else if bits < 192 {
            DerClass::ContextSpecific
        } else {
            DerClass::Private
        }
    }
}

impl DerType {
    /// The class of the tag.
    pub open spec fn class(self) -> DerClass {
        match self {
            DerType::Other(class, _) => class,
            _ => DerClass::Universal,
        }
    }

    /// The tag number.
    pub open spec fn number(self) -> u64 {
        match self {
            DerType::EndOfContents => 0,
            DerType::Integer => 2,
            DerType::BitString => 3,
            DerType::OctetString => 4,
            DerType::ObjectIdentifier => 6,
            DerType::Sequence => 16,
            DerType::Other(_, number) => number,
        }
    }

    /// The type with the given tag.
    pub open spec fn of_tag(class: DerClass, number: u64) -> DerType {
        if class != DerClass::Universal {
            DerType::Other(class, number)
        } else if number == 0 {
            DerType::EndOfContents
        } else if number == 2 {
            DerType::Integer
        } else if number == 3 {
            DerType::BitString
        } else if number == 4 {
            DerType::OctetString
        } else if number == 6 {
            DerType::ObjectIdentifier
        } else if number == 16 {
            DerType::Sequence
        } else {
            DerType::Other(class, number)
        }
    }

    /// Whether a value can have this type, under its own name.
    pub open spec fn is_plain(self) -> bool {
        &&& self != DerType::EndOfContents
        &&& DerType::of_tag(self.class(), self.number()) == self
    }

    /// Whether DER has values of this type in the form, constructed or primitive. Of the universal
    /// types only EXTERNAL, EMBEDDED PDV, SEQUENCE, SET and CHARACTER STRING are constructed.
    pub open spec fn takes_form(self, constructed: bool) -> bool {
        let number = self.number();
        self.class() == DerClass::Universal ==> constructed == (number == 8 || number == 11
            || number == 16 || number == 17 || number == 29)
    }

    /// Whether DER has values of this type in the form, constructed or primitive.
    pub fn fits_form(&self, constructed: bool) -> (fits: bool)
        ensures
            fits == self.takes_form(constructed),
    {
        match *self {
            DerType::Sequence => constructed,
            DerType::Other(DerClass::Universal, number) => constructed == (number == 8 || number
                == 11 || number == 16 || number == 17 || number == 29),
            DerType::Other(_, _) => true,
            _ => !constructed,
        }
    }

    /// The class bits and the number of the tag.
    pub fn tag(&self) -> (tag: (u8, u64))
        ensures
            tag == (self.class().bits(), self.number()),
    {
        match *self {
            DerType::EndOfContents => (0, 0),
            DerType::Integer => (0, 2),
            DerType::BitString => (0, 3),
            DerType::OctetString => (0, 4),
            DerType::ObjectIdentifier => (0, 6),
            DerType::Sequence => (0, 16),
            DerType::Other(DerClass::Universal, number) => (0, number),
            DerType::Other(DerClass::Application, number) => (64, number),
            DerType::Other(DerClass::ContextSpecific, number) => (128, number),
            DerType::Other(DerClass::Private, number) => (192, number),
        }
    }

    /// The type whose first tag octet is `octet` and whose tag number is `number`.
    pub fn from_tag(octet: u8, number: u64) -> (der_type: DerType)
        ensures
            der_type == DerType::of_tag(DerClass::of_bits(octet), number),
    {
        if octet >= 192 {
            DerType::Other(DerClass::Private, number)
        } else if octet >= 128 {
            DerType::Other(DerClass::ContextSpecific, number)
        } else if octet >= 64 {
            DerType::Other(DerClass::Application, number)
        } else if number == 0 {
            DerType::EndOfContents
        } else if number == 2 {
            DerType::Integer
        } else if number == 3 {
            DerType::BitString
        } else if number == 4 {
            DerType::OctetString
        } else if number == 6 {
            DerType::ObjectIdentifier
        } else if number == 16 {
            DerType::Sequence
        } else {
            DerType::Other(DerClass::Universal, number)
        }
    }
}

} // verus!
