//! Numbers in groups of seven bits, as object identifiers and large tag numbers hold them.
use vstd::prelude::*;

verus! {

/// The octets of the seven-bit groups of `n`, each marked as not the last; none for zero.
pub open spec fn leading_groups(n: nat) -> Seq<u8>
    decreases n,
{
    if n == 0 {
        Seq::empty()
    } else {
        leading_groups(n / 128).push((128 + n % 128) as u8)
    }
}

/// The shortest octets of `n` in seven-bit groups: every octet but the last is marked by its
/// leading bit.
pub open spec fn arc_octets(n: nat) -> Seq<u8> {
    leading_groups(n / 128).push((n % 128) as u8)
}

/// Reads the groups that follow those of `high`: how many octets, and the number. Nothing where
/// the last group is missing or the number exceeds 64 bits.
pub open spec fn read_groups(octets: Seq<u8>, high: nat) -> Option<(nat, nat)>
    decreases octets.len(),
{
    if octets.len() == 0 {
        None
    } else {
        let n = high * 128 + octets[0] as nat % 128;
        if n > u64::MAX {
            None
        } else if octets[0] < 128 {
            Some((1, n))
        } else {
            after(1, read_groups(octets.drop_first(), n))
        }
    }
}

/// The outcome of a read that starts `skipped` octets into the octets at hand.
pub open spec fn after(skipped: nat, read: Option<(nat, nat)>) -> Option<(nat, nat)> {
    match read {
        Some((used, n)) => Some((skipped + used, n)),
        None => None,
    }
}

/// Reads one number in seven-bit groups off the front: how many octets it takes, and the number.
/// Only the shortest octets of a number are read.
pub open spec fn read_arc(octets: Seq<u8>) -> Option<(nat, nat)> {
    if octets.len() > 0 && octets[0] == 128 {
        None
    } else {
        read_groups(octets, 0)
    }
}

proof fn lemma_leading_groups_first(n: nat)
    requires
        n > 0,
    ensures
        leading_groups(n).len() > 0,
        leading_groups(n)[0] > 128,
    decreases n,
{
    if n >= 128 {
        lemma_leading_groups_first(n / 128);
    } else {
        assert(leading_groups(n / 128) == Seq::<u8>::empty());
    }
}

proof fn lemma_read_leading_groups(n: nat, tail: Seq<u8>)
    requires
        n <= u64::MAX,
    ensures
        read_groups(leading_groups(n) + tail, 0) == after(
            leading_groups(n).len(),
            read_groups(tail, n),
        ),
    decreases n,
{
    if n == 0 {
        assert(leading_groups(n) + tail == tail);
    } else {
        let octet = (128 + n % 128) as u8;
        let next = seq![octet] + tail;
        lemma_read_leading_groups(n / 128, next);
        assert(leading_groups(n) + tail == leading_groups(n / 128) + next);
        assert(next.drop_first() == tail);
    }
}

/// What is written of a number is read back as that number, whatever follows.
pub proof fn lemma_arc_reads_back(n: nat, tail: Seq<u8>)
    requires
        n <= u64::MAX,
    ensures
        arc_octets(n).len() > 0,
        read_arc(arc_octets(n) + tail) == Some((arc_octets(n).len(), n)),
{
    let high = n / 128;
    let octet = (n % 128) as u8;
    let next = seq![octet] + tail;
    if high > 0 {
        lemma_leading_groups_first(high);
    } else {
        assert(leading_groups(high) == Seq::<u8>::empty());
    }
    lemma_read_leading_groups(high, next);
    assert(arc_octets(n) + tail == leading_groups(high) + next);
}

proof fn lemma_read_groups_octets(octets: Seq<u8>, high: nat)
    requires
        high > 0 || (octets.len() > 0 && octets[0] != 128),
        read_groups(octets, high) is Some,
    ensures
        ({
            let (used, n) = read_groups(octets, high)->0;
            &&& 0 < used <= octets.len()
            &&& n <= u64::MAX
            &&& leading_groups(high) + octets.take(used as int) == arc_octets(n)
        }),
    decreases octets.len(),
{
    let first = octets[0];
    let n = high * 128 + first as nat % 128;
    if first < 128 {
        assert(n / 128 == high);
        assert(octets.take(1) == seq![first]);
        assert(leading_groups(high) + octets.take(1) == arc_octets(n));
    } else {
        assert(n / 128 == high && n % 128 == first - 128);
        assert(leading_groups(n) == leading_groups(high).push(first));
        lemma_read_groups_octets(octets.drop_first(), n);
        let (used, m) = read_groups(octets, high)->0;
        let rest = octets.drop_first().take(used - 1);
        assert(octets.take(used as int) == seq![first] + rest);
        assert(leading_groups(high) + octets.take(used as int) == leading_groups(n) + rest);
    }
}

/// What is read as a number is what is written of it.
pub proof fn lemma_arc_writes_back(octets: Seq<u8>)
    requires
        read_arc(octets) is Some,
    ensures
        ({
            let (used, n) = read_arc(octets)->0;
            &&& 0 < used <= octets.len()
            &&& n <= u64::MAX
            &&& octets.take(used as int) == arc_octets(n)
        }),
{
    lemma_read_groups_octets(octets, 0);
    let (used, n) = read_arc(octets)->0;
    assert(leading_groups(0) + octets.take(used as int) == octets.take(used as int));
}

fn to_leading_groups(n: u64) -> (octets: Vec<u8>)
    ensures
        octets@ == leading_groups(n as nat),
    decreases n,
{
    if n == 0 {
        Vec::new()
    } else {
        let mut octets = to_leading_groups(n / 128);
        octets.push((128 + n % 128) as u8);
        octets
    }
}

/// The shortest octets of `n` in seven-bit groups.
pub fn to_arc_octets(n: u64) -> (octets: Vec<u8>)
    ensures
        octets@ == arc_octets(n as nat),
{
    let mut octets = to_leading_groups(n / 128);
    octets.push((n % 128) as u8);
    octets
}

/// Reads one number in seven-bit groups from `octets[start..end]`: how many octets it takes, and
/// the number.
pub fn from_arc_octets(octets: &[u8], start: usize, end: usize) -> (arc: Option<(usize, u64)>)
    requires
        start <= end <= octets@.len(),
    ensures
        match arc {
            Some((used, n)) => read_arc(octets@.subrange(start as int, end as int)) == Some(
                (used as nat, n as nat),
            ),
            None => read_arc(octets@.subrange(start as int, end as int)) is None,
        },
{
    let ghost all = octets@.subrange(start as int, end as int);
    if start < end && octets[start] == 128 {
        return None;
    }
    let mut n: u64 = 0;
    let mut i: usize = start;
    assert(all.skip(0) == all);
    while i < end
        invariant
            start <= i <= end <= octets@.len(),
            all == octets@.subrange(start as int, end as int),
            read_arc(all) == after((i - start) as nat, read_groups(all.skip(i - start), n as nat)),
        decreases end - i,
    {
        let octet = octets[i];
        proof {
            assert(all.skip(i - start)[0] == octet);
            assert(all.skip(i - start).drop_first() == all.skip(i + 1 - start));
        }
        if n > u64::MAX / 128 {
            return None;
        }
        n = n * 128 + (octet % 128) as u64;
        i = i + 1;
        if octet < 128 {
            return Some((i - start, n));
        }
    }
    None
}

} // verus!
