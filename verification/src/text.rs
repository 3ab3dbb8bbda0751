//! Text.
use vstd::prelude::*;
use vstd::string::StringSliceAdditionalSpecFns;
use vstd::utf8::encode_utf8_decode_utf8;

verus! {

/// `String::push` puts one character behind the text.
pub assume_specification[ String::push ](text: &mut String, c: char)
    ensures
        final(text)@ == old(text)@.push(c),
;

/// Octets as the characters with their numbers.
pub open spec fn ascii_text(octets: Seq<u8>) -> Seq<char> {
    octets.map_values(|octet: u8| octet as char)
}

/// The decimal digits of `n`.
pub open spec fn decimal(n: nat) -> Seq<char>
    decreases n,
{
    if n < 10 {
        seq![(48 + n) as char]
    } else {
        decimal(n / 10).push((48 + n % 10) as char)
    }
}

/// The numbers in decimal, with dots between them.
pub open spec fn dotted(numbers: Seq<u64>) -> Seq<char>
    decreases numbers.len(),
{
    if numbers.len() == 0 {
        Seq::empty()
    } else if numbers.len() == 1 {
        decimal(numbers[0] as nat)
    } else {
        dotted(numbers.drop_last()).push('.') + decimal(numbers.last() as nat)
    }
}

/// Whether octets are the same.
pub fn same_octets(left: &[u8], right: &[u8]) -> (same: bool)
    ensures
        same == (left@ == right@),
{
    if left.len() != right.len() {
        return false;
    }
    let mut i: usize = 0;
    while i < left.len()
        invariant
            i <= left@.len(),
            left@.len() == right@.len(),
            left@.take(i as int) == right@.take(i as int),
        decreases left.len() - i,
    {
        if left[i] != right[i] {
            return false;
        }
        assert(left@.take(i + 1) == left@.take(i as int).push(left@[i as int]));
        assert(right@.take(i + 1) == right@.take(i as int).push(right@[i as int]));
        i = i + 1;
    }
    assert(left@.take(i as int) == left@);
    assert(right@.take(i as int) == right@);
    true
}

/// Whether texts are the same.
pub fn same_text(left: &str, right: &str) -> (same: bool)
    ensures
        same == (left@ == right@),
{
    proof {
        encode_utf8_decode_utf8(left@);
        encode_utf8_decode_utf8(right@);
    }
    same_octets(left.as_bytes(), right.as_bytes())
}

/// The text of `octets[start..end]`.
pub fn to_ascii_text(octets: &[u8], start: usize, end: usize) -> (text: String)
    requires
        start <= end <= octets@.len(),
    ensures
        text@ == ascii_text(octets@.subrange(start as int, end as int)),
{
    let mut text = String::new();
    let mut i: usize = start;
    while i < end
        invariant
            start <= i <= end <= octets@.len(),
            text@ == ascii_text(octets@.subrange(start as int, i as int)),
        decreases end - i,
    {
        text.push(octets[i] as char);
        assert(octets@.subrange(start as int, i + 1) == octets@.subrange(
            start as int,
            i as int,
        ).push(octets@[i as int]));
        i = i + 1;
    }
    text
}

/// Puts the decimal digits of `n` behind `text`.
pub fn push_decimal(text: &mut String, n: u64)
    ensures
        final(text)@ == old(text)@ + decimal(n as nat),
    decreases n,
{
    if n >= 10 {
        push_decimal(text, n / 10);
    }
    let digit = (48 + n % 10) as u8;
    text.push(digit as char);
    proof {
        assert(digit as char == (48 + n % 10) as char);
        if n >= 10 {
            assert(old(text)@ + decimal(n as nat / 10).push(digit as char) == (old(text)@
                + decimal(n as nat / 10)).push(digit as char));
        }
    }
}

/// Puts the numbers in decimal behind `text`, with dots between them.
pub fn push_dotted(text: &mut String, numbers: &Vec<u64>)
    ensures
        final(text)@ == old(text)@ + dotted(numbers@),
{
    let mut i: usize = 0;
    assert(numbers@.take(0) == Seq::<u64>::empty());
    while i < numbers.len()
        invariant
            i <= numbers@.len(),
            text@ == old(text)@ + dotted(numbers@.take(i as int)),
        decreases numbers.len() - i,
    {
        let ghost before = dotted(numbers@.take(i as int));
        if i > 0 {
            text.push('.');
        }
        push_decimal(text, numbers[i]);
        i = i + 1;
        proof {
            let upto = numbers@.take(i as int);
            assert(upto.drop_last() == numbers@.take(i - 1));
            assert(text@ == old(text)@ + dotted(upto));
        }
    }
    assert(numbers@.take(i as int) == numbers@);
}

} // verus!
