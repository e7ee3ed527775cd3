//! Host addresses: the key under which hosts are registered.

use vstd::prelude::*;

verus! {

/// A network address of either family. Two addresses are the same host only
/// when both the family and the number agree; nothing is normalised.
#[derive(Clone, Copy, Debug, PartialEq, Eq, Hash, Structural)]
pub enum Address {
    /// An IPv4 address, its four octets read as one big-endian number.
    V4(u32),
    /// An IPv6 address, its sixteen octets read as one big-endian number.
    V6(u128),
}

/// The number that a run of octets spells in network byte order.
pub open spec fn octets_value(octets: Seq<u8>) -> nat
    decreases octets.len(),
{
    if octets.len() == 0 {
        0
    } else {
        octets_value(octets.drop_last()) * 256 + octets.last() as nat
    }
}

/// How many numbers `n` octets can spell: 256 to the power `n`.
pub open spec fn octets_span(n: nat) -> nat
    decreases n,
{
    if n == 0 {
        1
    } else {
        256 * octets_span((n - 1) as nat)
    }
}

/// A run of octets spells a number below the span of its length.
pub proof fn lemma_octets_value_bound(octets: Seq<u8>)
    ensures
        octets_value(octets) < octets_span(octets.len()),
    decreases octets.len(),
{
    if octets.len() > 0 {
        lemma_octets_value_bound(octets.drop_last());
    }
}

/// The span grows with the number of octets.
pub proof fn lemma_octets_span_monotone(m: nat, n: nat)
    requires
        m <= n,
    ensures
        octets_span(m) <= octets_span(n),
    decreases n,
{
    if m < n {
        lemma_octets_span_monotone(m, (n - 1) as nat);
    }
}

/// Two runs of the same length that spell the same number are the same run.
pub proof fn lemma_octets_value_injective(a: Seq<u8>, b: Seq<u8>)
    requires
        a.len() == b.len(),
        octets_value(a) == octets_value(b),
    ensures
        a == b,
    decreases a.len(),
{
    if a.len() > 0 {
        lemma_octets_value_injective(a.drop_last(), b.drop_last());
        assert(a =~= a.drop_last().push(a.last()));
    }
}

impl Address {
    /// The IPv4 address with the given octets, most significant first.
    pub fn from_v4_octets(octets: [u8; 4]) -> (address: Address)
        ensures
            address == Address::V4(octets_value(octets@) as u32),
            octets_value(octets@) <= u32::MAX,
    {
        let mut value: u32 = 0;
        let mut i: usize = 0;
        proof {
            assert(octets_span(4) == 0x1_0000_0000) by {
                reveal_with_fuel(octets_span, 5);
            }
        }
        while i < 4
            invariant
                i <= 4,
                octets_span(4) == 0x1_0000_0000,
                value as nat == octets_value(octets@.take(i as int)),
            decreases 4 - i,
        {
            proof {
                let next = octets@.take(i + 1);
                assert(next.drop_last() =~= octets@.take(i as int));
                lemma_octets_value_bound(next);
                lemma_octets_span_monotone((i + 1) as nat, 4);
            }
            value = value * 256 + octets[i] as u32;
            i = i + 1;
        }
        proof {
            assert(octets@.take(4) =~= octets@);
        }
        Address::V4(value)
    }

    /// The IPv6 address with the given octets, most significant first.
    pub fn from_v6_octets(octets: [u8; 16]) -> (address: Address)
        ensures
            address == Address::V6(octets_value(octets@) as u128),
            octets_value(octets@) <= u128::MAX,
    {
        let mut value: u128 = 0;
        let mut i: usize = 0;
        proof {
            assert(octets_span(16) == 0x1_0000_0000_0000_0000_0000_0000_0000_0000) by {
                reveal_with_fuel(octets_span, 17);
            }
        }
        while i < 16
            invariant
                i <= 16,
                octets_span(16) == 0x1_0000_0000_0000_0000_0000_0000_0000_0000,
                value as nat == octets_value(octets@.take(i as int)),
            decreases 16 - i,
        {
            proof {
                let next = octets@.take(i + 1);
                assert(next.drop_last() =~= octets@.take(i as int));
                lemma_octets_value_bound(next);
                lemma_octets_span_monotone((i + 1) as nat, 16);
            }
            value = value * 256 + octets[i] as u128;
            i = i + 1;
        }
        proof {
            assert(octets@.take(16) =~= octets@);
        }
        Address::V6(value)
    }
}

} // verus!
