//! Numbers as big-endian octets.
use vstd::prelude::*;

verus! {

/// The number that big-endian octets stand for.
pub open spec fn octets_value(octets: Seq<u8>) -> nat
    decreases octets.len(),
{
    if octets.len() == 0 {
        0
    } else {
        octets_value(octets.drop_last()) * 256 + octets.last() as nat
    }
}

/// The shortest big-endian octets of a number; zero takes one octet.
pub open spec fn shortest_octets(n: nat) -> Seq<u8>
    decreases n,
{
    if n < 256 {
        seq![n as u8]
    } else {
        shortest_octets(n / 256).push((n % 256) as u8)
    }
}

/// The contents octets of a DER INTEGER that holds the number `n`: the shortest octets, with a
/// zero octet in front where the leading bit would read as a sign.
pub open spec fn integer_contents(n: nat) -> Seq<u8> {
    if shortest_octets(n)[0] >= 128 {
        seq![0u8] + shortest_octets(n)
    } else {
        shortest_octets(n)
    }
}

/// The shortest octets of a number have its value and no superfluous leading zero.
pub proof fn lemma_shortest_octets(n: nat)
    ensures
        shortest_octets(n).len() > 0,
        octets_value(shortest_octets(n)) == n,
        shortest_octets(n).len() > 1 ==> shortest_octets(n)[0] != 0,
        n > 0 ==> shortest_octets(n)[0] != 0,
    decreases n,
{
    if n < 256 {
        reveal_with_fuel(octets_value, 2);
        assert(seq![n as u8].drop_last() == Seq::<u8>::empty());
    } else {
        lemma_shortest_octets(n / 256);
        assert(shortest_octets(n).drop_last() == shortest_octets(n / 256));
    }
}

/// Octets without a superfluous leading zero are the shortest ones of their value.
pub proof fn lemma_octets_are_shortest(octets: Seq<u8>)
    requires
        octets.len() > 0,
        octets.len() > 1 ==> octets[0] != 0,
    ensures
        shortest_octets(octets_value(octets)) == octets,
    decreases octets.len(),
{
    let front = octets.drop_last();
    if octets.len() == 1 {
        reveal_with_fuel(octets_value, 2);
        assert(front == Seq::<u8>::empty());
        assert(octets == seq![octets[0]]);
    } else {
        lemma_octets_are_shortest(front);
        lemma_shortest_octets(octets_value(front));
        if octets_value(front) == 0 {
            assert(front == seq![0u8]);
        }
        assert(octets == front.push(octets.last()));
    }
}

/// Zero octets in front leave the value as it is.
pub proof fn lemma_leading_zero(octets: Seq<u8>)
    requires
        octets.len() > 0,
        octets[0] == 0,
    ensures
        octets_value(octets) == octets_value(octets.drop_first()),
    decreases octets.len(),
{
    if octets.len() > 1 {
        lemma_leading_zero(octets.drop_last());
        assert(octets.drop_last().drop_first() == octets.drop_first().drop_last());
    } else {
        assert(octets.drop_last() == octets.drop_first());
    }
}

/// A number below 2^64 takes at most eight octets.
pub proof fn lemma_eight_octets(n: nat)
    requires
        n <= u64::MAX,
    ensures
        shortest_octets(n).len() <= 8,
{
    reveal_with_fuel(shortest_octets, 9);
}

/// Octets appended one by one grow the value by the usual place-value step.
pub proof fn lemma_value_step(octets: Seq<u8>, i: int)
    requires
        0 <= i < octets.len(),
    ensures
        octets_value(octets.take(i + 1)) == octets_value(octets.take(i)) * 256 + octets[i] as nat,
{
    assert(octets.take(i + 1).drop_last() == octets.take(i));
}

/// Up to `k` octets hold a value below 256^k.
pub proof fn lemma_value_bound(octets: Seq<u8>)
    ensures
        octets.len() <= 7 ==> octets_value(octets) < 0x100_0000_0000_0000,
        octets.len() <= 8 ==> octets_value(octets) <= u64::MAX,
{
    reveal_with_fuel(octets_value, 9);
}

/// The shortest big-endian octets of `n`.
pub fn to_shortest_octets(n: u64) -> (octets: Vec<u8>)
    ensures
        octets@ == shortest_octets(n as nat),
    decreases n,
{
    if n < 256 {
        vec![n as u8]
    } else {
        let mut octets = to_shortest_octets(n / 256);
        octets.push((n % 256) as u8);
        octets
    }
}

/// The contents octets of the INTEGER with the value of the big-endian octets `octets`.
pub fn to_integer_contents(octets: &[u8]) -> (contents: Vec<u8>)
    ensures
        contents@ == integer_contents(octets_value(octets@)),
{
    let mut start: usize = 0;
    assert(octets@.skip(0) == octets@);
    while start < octets.len() && octets[start] == 0
        invariant
            start <= octets@.len(),
            octets_value(octets@) == octets_value(octets@.skip(start as int)),
        decreases octets.len() - start,
    {
        proof {
            lemma_leading_zero(octets@.skip(start as int));
            assert(octets@.skip(start as int).drop_first() == octets@.skip(start + 1));
        }
        start = start + 1;
    }
    let ghost rest = octets@.skip(start as int);
    let mut contents: Vec<u8> = Vec::new();
    if start == octets.len() {
        contents.push(0);
        assert(rest == Seq::<u8>::empty());
        return contents;
    }
    proof {
        lemma_octets_are_shortest(rest);
    }
    if octets[start] >= 128 {
        contents.push(0);
    }
    let ghost sign = contents@;
    let mut i: usize = start;
    while i < octets.len()
        invariant
            start <= i <= octets@.len(),
            contents@ == sign + octets@.subrange(start as int, i as int),
        decreases octets.len() - i,
    {
        contents.push(octets[i]);
        assert(octets@.subrange(start as int, i + 1) == octets@.subrange(
            start as int,
            i as int,
        ).push(octets@[i as int]));
        i = i + 1;
    }
    assert(octets@.subrange(start as int, i as int) == rest);
    contents
}

} // verus!
