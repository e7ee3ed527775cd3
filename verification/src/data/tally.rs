//! Counters as unbounded numbers, and sums of them over a map of peers.

use crate::address::Address;
use vstd::prelude::*;

verus! {

/// Packet and byte counters in both directions, without a machine bound.
pub struct Tally {
    pub packets_sent: int,
    pub packets_recv: int,
    pub bytes_sent: int,
    pub bytes_recv: int,
}

impl Tally {
    /// Nothing sent, nothing received.
    pub open spec fn zero() -> Tally {
        Tally { packets_sent: 0, packets_recv: 0, bytes_sent: 0, bytes_recv: 0 }
    }

    /// One packet of `len` payload bytes sent.
    pub open spec fn sent(len: int) -> Tally {
        Tally { packets_sent: 1, packets_recv: 0, bytes_sent: len, bytes_recv: 0 }
    }

    /// One packet of `len` payload bytes received.
    pub open spec fn received(len: int) -> Tally {
        Tally { packets_sent: 0, packets_recv: 1, bytes_sent: 0, bytes_recv: len }
    }

    /// The elementwise sum.
    pub open spec fn plus(self, other: Tally) -> Tally {
        Tally {
            packets_sent: self.packets_sent + other.packets_sent,
            packets_recv: self.packets_recv + other.packets_recv,
            bytes_sent: self.bytes_sent + other.bytes_sent,
            bytes_recv: self.bytes_recv + other.bytes_recv,
        }
    }

    /// No counter is negative.
    pub open spec fn non_negative(self) -> bool {
        &&& self.packets_sent >= 0
        &&& self.packets_recv >= 0
        &&& self.bytes_sent >= 0
        &&& self.bytes_recv >= 0
    }

    /// Every counter is at most the corresponding counter of `other`.
    pub open spec fn at_most(self, other: Tally) -> bool {
        &&& self.packets_sent <= other.packets_sent
        &&& self.packets_recv <= other.packets_recv
        &&& self.bytes_sent <= other.bytes_sent
        &&& self.bytes_recv <= other.bytes_recv
    }
}

/// What is counted for `peer`: nothing if the map does not hold it.
pub open spec fn counted(peers: Map<Address, Tally>, peer: Address) -> Tally {
    if peers.contains_key(peer) {
        peers[peer]
    } else {
        Tally::zero()
    }
}

/// The map after `amount` is added to what is counted for `peer`.
pub open spec fn credited(peers: Map<Address, Tally>, peer: Address, amount: Tally) -> Map<
    Address,
    Tally,
> {
    peers.insert(peer, counted(peers, peer).plus(amount))
}

/// Every entry of the map is non-negative.
pub open spec fn all_non_negative(peers: Map<Address, Tally>) -> bool {
    forall|peer: Address| peers.contains_key(peer) ==> (#[trigger] peers[peer]).non_negative()
}

/// The elementwise sum of all entries of a finite map.
pub open spec fn total(peers: Map<Address, Tally>) -> Tally
    decreases peers.dom().len(),
{
    if peers.dom().finite() && peers.dom().len() > 0 {
        let peer = peers.dom().choose();
        peers[peer].plus(total(peers.remove(peer)))
    } else {
        Tally::zero()
    }
}

/// The sum can be taken with any one entry set apart.
pub proof fn lemma_total_remove(peers: Map<Address, Tally>, peer: Address)
    requires
        peers.dom().finite(),
        peers.contains_key(peer),
    ensures
        total(peers) == peers[peer].plus(total(peers.remove(peer))),
    decreases peers.dom().len(),
{
    let first = peers.dom().choose();
    if first != peer {
        lemma_total_remove(peers.remove(first), peer);
        lemma_total_remove(peers.remove(peer), first);
        assert(peers.remove(first).remove(peer) =~= peers.remove(peer).remove(first));
    }
}

/// Adding to one peer's count adds as much to the sum.
pub proof fn lemma_total_credited(peers: Map<Address, Tally>, peer: Address, amount: Tally)
    requires
        peers.dom().finite(),
    ensures
        total(credited(peers, peer, amount)) == total(peers).plus(amount),
{
    let after = credited(peers, peer, amount);
    lemma_total_remove(after, peer);
    assert(after.remove(peer) =~= peers.remove(peer));
    if peers.contains_key(peer) {
        lemma_total_remove(peers, peer);
    } else {
        assert(peers.remove(peer) =~= peers);
    }
}

/// A sum of non-negative entries is non-negative.
pub proof fn lemma_total_non_negative(peers: Map<Address, Tally>)
    requires
        all_non_negative(peers),
    ensures
        total(peers).non_negative(),
    decreases peers.dom().len(),
{
    if peers.dom().finite() && peers.dom().len() > 0 {
        let first = peers.dom().choose();
        lemma_total_non_negative(peers.remove(first));
    }
}

/// No entry of a map of non-negative entries exceeds the sum.
pub proof fn lemma_entry_at_most_total(peers: Map<Address, Tally>, peer: Address)
    requires
        peers.dom().finite(),
        all_non_negative(peers),
        peers.contains_key(peer),
    ensures
        peers[peer].at_most(total(peers)),
{
    lemma_total_remove(peers, peer);
    lemma_total_non_negative(peers.remove(peer));
}

} // verus!
