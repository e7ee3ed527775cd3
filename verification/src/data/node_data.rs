//! Traffic counters, and the record kept of one host.

use crate::address::Address;
use crate::address_map::AddressMap;
use crate::data::tally::{
    all_non_negative, counted, credited, lemma_entry_at_most_total, lemma_total_credited,
    lemma_total_non_negative, total, Tally,
};
use crate::data::IPPacketInfo;
use vstd::prelude::*;

verus! {

/// Packet and byte counters in both directions.
#[derive(Clone, Copy, Debug, PartialEq, Eq, Structural)]
pub struct Statistics {
    pub packet_count_recv: u32,
    pub packet_count_sent: u32,
    pub packet_bytes_sent: u64,
    pub packet_bytes_recv: u64,
}

impl Statistics {
    /// The counters as unbounded numbers.
    pub open spec fn tally(self) -> Tally {
        Tally {
            packets_sent: self.packet_count_sent as int,
            packets_recv: self.packet_count_recv as int,
            bytes_sent: self.packet_bytes_sent as int,
            bytes_recv: self.packet_bytes_recv as int,
        }
    }

    /// All counters at zero.
    pub fn new() -> (stats: Statistics)
        ensures
            stats.tally() == Tally::zero(),
    {
        Statistics {
            packet_count_recv: 0,
            packet_count_sent: 0,
            packet_bytes_sent: 0,
            packet_bytes_recv: 0,
        }
    }

    /// Counts one sent packet of `len` payload bytes.
    pub fn record_sent(&mut self, len: u16)
        requires
            fits(old(self).tally().plus(Tally::sent(len as int))),
        ensures
            final(self).tally() == old(self).tally().plus(Tally::sent(len as int)),
    {
        self.packet_count_sent = self.packet_count_sent + 1;
        self.packet_bytes_sent = self.packet_bytes_sent + len as u64;
    }

    /// Counts one received packet of `len` payload bytes.
    pub fn record_received(&mut self, len: u16)
        requires
            fits(old(self).tally().plus(Tally::received(len as int))),
        ensures
            final(self).tally() == old(self).tally().plus(Tally::received(len as int)),
    {
        self.packet_count_recv = self.packet_count_recv + 1;
        self.packet_bytes_recv = self.packet_bytes_recv + len as u64;
    }

    /// Counts `packet` for the host `source_ip`: as sent if the host is the
    /// packet's source, as received if it is the packet's destination, as
    /// both if it is both.
    pub fn add_packet(&mut self, packet: &IPPacketInfo, source_ip: Address)
        requires
            fits(old(self).tally().plus(share(*packet, source_ip))),
        ensures
            final(self).tally() == old(self).tally().plus(share(*packet, source_ip)),
    {
        if packet.source == source_ip {
            self.record_sent(packet.payload_len);
        }
        if packet.dest == source_ip {
            self.record_received(packet.payload_len);
        }
    }
}

/// Whether every counter of `tally` fits the machine counter that holds it.
pub open spec fn fits(tally: Tally) -> bool {
    &&& tally.packets_sent <= u32::MAX
    &&& tally.packets_recv <= u32::MAX
    &&& tally.bytes_sent <= u64::MAX
    &&& tally.bytes_recv <= u64::MAX
}

/// What `packet` adds to the counters of the host `ip`.
pub open spec fn share(packet: IPPacketInfo, ip: Address) -> Tally {
    (if packet.source == ip {
        Tally::sent(packet.payload_len as int)
    } else {
        Tally::zero()
    }).plus(
        if packet.dest == ip {
            Tally::received(packet.payload_len as int)
        } else {
            Tally::zero()
        },
    )
}

/// The record of one host as plain mathematical values.
pub struct NodeDataView {
    /// The host's address.
    pub ip: Address,
    /// Everything the host sent and received.
    pub stats: Tally,
    /// What the host received, by the peer that sent it.
    pub recv_from: Map<Address, Tally>,
    /// What the host sent, by the peer that it went to.
    pub sent_to: Map<Address, Tally>,
}

impl NodeDataView {
    /// The record of a host of which nothing has been seen yet.
    pub open spec fn fresh(ip: Address) -> NodeDataView {
        NodeDataView { ip, stats: Tally::zero(), recv_from: Map::empty(), sent_to: Map::empty() }
    }

    /// The record after `packet` is counted for this host.
    pub open spec fn with_packet(self, packet: IPPacketInfo) -> NodeDataView {
        NodeDataView {
            ip: self.ip,
            stats: self.stats.plus(share(packet, self.ip)),
            sent_to: if packet.source == self.ip {
                credited(self.sent_to, packet.dest, Tally::sent(packet.payload_len as int))
            } else {
                self.sent_to
            },
            recv_from: if packet.dest == self.ip {
                credited(self.recv_from, packet.source, Tally::received(packet.payload_len as int))
            } else {
                self.recv_from
            },
        }
    }

    /// The totals are the elementwise sum of all per-peer counters, of which
    /// there are finitely many and none negative.
    pub open spec fn balanced(self) -> bool {
        &&& self.sent_to.dom().finite()
        &&& self.recv_from.dom().finite()
        &&& all_non_negative(self.sent_to)
        &&& all_non_negative(self.recv_from)
        &&& self.stats == total(self.sent_to).plus(total(self.recv_from))
    }

    /// Whether the host's counters can take `packet` without overflow.
    pub open spec fn has_room(self, packet: IPPacketInfo) -> bool {
        fits(self.stats.plus(share(packet, self.ip)))
    }

    /// Counting a packet keeps a balanced record balanced.
    pub proof fn lemma_with_packet_balanced(self, packet: IPPacketInfo)
        requires
            self.balanced(),
        ensures
            self.with_packet(packet).balanced(),
    {
        let len = packet.payload_len as int;
        if packet.source == self.ip {
            lemma_total_credited(self.sent_to, packet.dest, Tally::sent(len));
        }
        if packet.dest == self.ip {
            lemma_total_credited(self.recv_from, packet.source, Tally::received(len));
        }
    }
}

/// The per-peer counters of a map as unbounded numbers.
pub open spec fn peers_view(peers: AddressMap<Statistics>) -> Map<Address, Tally> {
    peers@.map_values(|stats: Statistics| stats.tally())
}

/// Adds one packet of `len` bytes to what `peers` counts for `peer`: as sent
/// if `outgoing`, as received otherwise.
fn credit(peers: &mut AddressMap<Statistics>, peer: Address, len: u16, outgoing: bool)
    requires
        fits(counted(peers_view(*old(peers)), peer).plus(one_packet(len, outgoing))),
    ensures
        peers_view(*final(peers)) == credited(
            peers_view(*old(peers)),
            peer,
            one_packet(len, outgoing),
        ),
{
    let slot = peers.or_insert(peer, Statistics::new());
    if outgoing {
        slot.record_sent(len);
    } else {
        slot.record_received(len);
    }
    assert(peers_view(*peers) =~= credited(
        peers_view(*old(peers)),
        peer,
        one_packet(len, outgoing),
    ));
}

/// One packet of `len` bytes, sent if `outgoing`, received otherwise.
pub open spec fn one_packet(len: u16, outgoing: bool) -> Tally {
    if outgoing {
        Tally::sent(len as int)
    } else {
        Tally::received(len as int)
    }
}

/// The record of one host: its totals, and the same traffic by peer.
pub struct NodeData {
    ip: Address,
    stats: Statistics,
    recv_from: AddressMap<Statistics>,
    sent_to: AddressMap<Statistics>,
}

impl NodeData {
    /// The record as plain mathematical values.
    pub closed spec fn view(&self) -> NodeDataView {
        NodeDataView {
            ip: self.ip,
            stats: self.stats.tally(),
            recv_from: peers_view(self.recv_from),
            sent_to: peers_view(self.sent_to),
        }
    }

    /// The record's invariant: the totals are the sum of the per-peer counters.
    pub open spec fn wf(&self) -> bool {
        self@.balanced()
    }

    /// The record of the host `ip`, of which nothing has been seen yet.
    pub fn new(ip: Address) -> (node: NodeData)
        ensures
            node.wf(),
            node@ == NodeDataView::fresh(ip),
    {
        let node = NodeData {
            ip,
            stats: Statistics::new(),
            recv_from: AddressMap::new(),
            sent_to: AddressMap::new(),
        };
        proof {
            assert(node@.recv_from =~= Map::<Address, Tally>::empty());
        }
        node
    }

    /// The host's address.
    pub fn ip(&self) -> (ip: Address)
        ensures
            ip == self@.ip,
    {
        self.ip
    }

    /// Everything the host sent and received.
    pub fn stats(&self) -> (stats: Statistics)
        ensures
            stats.tally() == self@.stats,
    {
        self.stats
    }

    /// What the host sent to `peer`, if it sent anything there.
    pub fn sent_to(&self, peer: &Address) -> (found: Option<Statistics>)
        ensures
            match found {
                Some(stats) => self@.sent_to.contains_key(*peer) && stats.tally()
                    == self@.sent_to[*peer],
                None => !self@.sent_to.contains_key(*peer),
            },
    {
        match self.sent_to.get(peer) {
            Some(stats) => Some(*stats),
            None => None,
        }
    }

    /// What the host received from `peer`, if it received anything from it.
    pub fn recv_from(&self, peer: &Address) -> (found: Option<Statistics>)
        ensures
            match found {
                Some(stats) => self@.recv_from.contains_key(*peer) && stats.tally()
                    == self@.recv_from[*peer],
                None => !self@.recv_from.contains_key(*peer),
            },
    {
        match self.recv_from.get(peer) {
            Some(stats) => Some(*stats),
            None => None,
        }
    }

    /// Whether the host's counters can take `packet` without overflow.
    pub fn has_room(&self, packet: &IPPacketInfo) -> (room: bool)
        ensures
            room == self@.has_room(*packet),
    {
        let len: u64 = packet.payload_len as u64;
        let sent_ok = packet.source != self.ip || (self.stats.packet_count_sent < u32::MAX
            && self.stats.packet_bytes_sent <= u64::MAX - len);
        let recv_ok = packet.dest != self.ip || (self.stats.packet_count_recv < u32::MAX
            && self.stats.packet_bytes_recv <= u64::MAX - len);
        sent_ok && recv_ok
    }

    /// Counts `packet` for this host: in the totals and under the peer at
    /// the packet's other end. A packet from the host to itself counts as
    /// sent and as received.
    pub fn add_packet(&mut self, packet: &IPPacketInfo)
        requires
            old(self).wf(),
            packet.source == old(self)@.ip || packet.dest == old(self)@.ip,
            old(self)@.has_room(*packet),
        ensures
            final(self).wf(),
            final(self)@ == old(self)@.with_packet(*packet),
    {
        proof {
            lemma_total_non_negative(self@.sent_to);
            lemma_total_non_negative(self@.recv_from);
            if self@.sent_to.contains_key(packet.dest) {
                lemma_entry_at_most_total(self@.sent_to, packet.dest);
            }
            if self@.recv_from.contains_key(packet.source) {
                lemma_entry_at_most_total(self@.recv_from, packet.source);
            }
            self@.lemma_with_packet_balanced(*packet);
        }
        self.stats.add_packet(packet, self.ip);
        if packet.source == self.ip {
            credit(&mut self.sent_to, packet.dest, packet.payload_len, true);
        }
        if packet.dest == self.ip {
            credit(&mut self.recv_from, packet.source, packet.payload_len, false);
        }
    }
}

} // verus!
