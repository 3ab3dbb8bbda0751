//! Bare RSA keys: PKCS#1 RSAPrivateKey and RSAPublicKey.
use crate::der::builder::DerBuilder;
use crate::der::number::octets_value;
use crate::der::types::DerType;
use crate::rsapss::pkcs8::{integer, sequence};
use vstd::prelude::*;

verus! {

/// INTEGERs one after the other.
pub open spec fn integers(numbers: Seq<nat>) -> Seq<u8>
    decreases numbers.len(),
{
    if numbers.len() == 0 {
        Seq::empty()
    } else {
        integers(numbers.drop_last()) + integer(numbers.last())
    }
}

/// An RSAPublicKey with the modulus and the public exponent `numbers`.
pub open spec fn rsa_public_key(numbers: Seq<nat>) -> Seq<u8> {
    sequence(integers(numbers))
}

/// An RSAPrivateKey of two primes with the `numbers` n, e, d, p, q, d mod (p - 1), d mod (q - 1)
/// and the inverse of q mod p.
pub open spec fn rsa_private_key(numbers: Seq<nat>) -> Seq<u8> {
    sequence(integer(0) + integers(numbers))
}

/// The bare key with the given numbers.
pub open spec fn bare_key(numbers: Seq<nat>, is_public: bool) -> Seq<u8> {
    if is_public {
        rsa_public_key(numbers)
    } else {
        rsa_private_key(numbers)
    }
}

/// The numbers that big-endian octets stand for.
pub open spec fn octets_values(octets: Seq<Vec<u8>>) -> Seq<nat> {
    octets.map_values(|number: Vec<u8>| octets_value(number@))
}

fn append_integers(builder: &mut DerBuilder, numbers: &Vec<Vec<u8>>)
    ensures
        final(builder)@ == old(builder)@.with(integers(octets_values(numbers@))),
{
    let ghost values = octets_values(numbers@);
    let mut i: usize = 0;
    assert(values.take(0) == Seq::<nat>::empty());
    assert(old(builder)@.with(Seq::empty()).contents == old(builder)@.contents);
    while i < numbers.len()
        invariant
            i <= numbers@.len(),
            values == octets_values(numbers@),
            builder@ == old(builder)@.with(integers(values.take(i as int))),
        decreases numbers.len() - i,
    {
        let ghost written = integers(values.take(i as int));
        builder.append_integer_from_be_slice(numbers[i].as_slice());
        i = i + 1;
        proof {
            let ghost upto = values.take(i as int);
            assert(upto.drop_last() == values.take(i - 1));
            assert(old(builder)@.contents + written + integer(upto.last()) == old(
                builder,
            )@.contents + (written + integer(upto.last())));
        }
    }
    assert(values.take(i as int) == values);
}

/// The RSAPublicKey with the given numbers, each in big-endian octets.
pub fn to_rsa_public_key(numbers: &Vec<Vec<u8>>) -> (key: Vec<u8>)
    ensures
        key@ == rsa_public_key(octets_values(numbers@)),
{
    let mut builder = DerBuilder::new();
    builder.begin(DerType::Sequence);
    append_integers(&mut builder, numbers);
    builder.end();
    builder.build()
}

/// The RSAPrivateKey with the given numbers, each in big-endian octets.
pub fn to_rsa_private_key(numbers: &Vec<Vec<u8>>) -> (key: Vec<u8>)
    ensures
        key@ == rsa_private_key(octets_values(numbers@)),
{
    let mut builder = DerBuilder::new();
    builder.begin(DerType::Sequence);
    {
        builder.append_integer_from_u8(0);  // version
        append_integers(&mut builder, numbers);
    }
    builder.end();
    builder.build()
}

} // verus!
