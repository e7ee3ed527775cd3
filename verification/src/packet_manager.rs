//! The host registry: one record per host ever seen as an end of a packet.

use crate::address::Address;
use crate::address_map::AddressMap;
use crate::data::registry::{consistent, has_room, recorded};
use crate::data::{IPPacketInfo, NodeData, NodeDataView};
use vstd::prelude::*;

verus! {

/// Per-host traffic statistics, keyed by address, and the number of packets
/// recorded so far.
pub struct PacketManager {
    ip_packets: AddressMap<NodeData>,
    valid_packet_count: u64,
}

impl PacketManager {
    /// The registry as a mathematical map from address to record.
    pub closed spec fn view(&self) -> Map<Address, NodeDataView> {
        self.ip_packets@.map_values(|node: NodeData| node@)
    }

    /// The number of packets recorded so far.
    pub closed spec fn packet_count(&self) -> u64 {
        self.valid_packet_count
    }

    /// The registry's invariant: every record is filed under its own address
    /// and is well formed.
    pub closed spec fn wf(&self) -> bool {
        forall|ip: Address| #[trigger]
            self.ip_packets@.contains_key(ip) ==> self.ip_packets@[ip].wf()
                && self.ip_packets@[ip]@.ip == ip
    }

    /// In a well-formed registry every record is filed under its own address
    /// and its totals are the sum of its per-peer counters.
    pub proof fn lemma_wf_consistent(&self)
        requires
            self.wf(),
        ensures
            consistent(self@),
    {
    }

    /// The registry with no hosts and no packets.
    pub fn new() -> (manager: PacketManager)
        ensures
            manager.wf(),
            manager@ == Map::<Address, NodeDataView>::empty(),
            manager.packet_count() == 0,
    {
        let manager = PacketManager { ip_packets: AddressMap::new(), valid_packet_count: 0 };
        manager
    }

    /// The number of packets recorded so far.
    pub fn get_valid_packet_count(&self) -> (count: u64)
        ensures
            count == self.packet_count(),
    {
        self.valid_packet_count
    }

    /// The record of the host `ip`, if the host is registered.
    pub fn get(&self, ip: &Address) -> (found: Option<&NodeData>)
        requires
            self.wf(),
        ensures
            match found {
                Some(node) => self@.contains_key(*ip) && node@ == self@[*ip] && node.wf(),
                None => !self@.contains_key(*ip),
            },
    {
        self.ip_packets.get(ip)
    }

    /// Whether `packet` can be recorded without a counter overflowing.
    pub fn has_room(&self, packet: &IPPacketInfo) -> (room: bool)
        requires
            self.wf(),
        ensures
            room == (has_room(self@, *packet) && self.packet_count() < u64::MAX),
    {
        let source_room = match self.ip_packets.get(&packet.source) {
            Some(node) => node.has_room(packet),
            None => true,
        };
        let dest_room = match self.ip_packets.get(&packet.dest) {
            Some(node) => node.has_room(packet),
            None => true,
        };
        source_room && dest_room && self.valid_packet_count < u64::MAX
    }

    /// Records `packet`: registers its source and its destination if they
    /// are new, and counts the packet for each of them.
    pub fn add_ip_packet(&mut self, packet: IPPacketInfo)
        requires
            old(self).wf(),
            has_room(old(self)@, packet),
            old(self).packet_count() < u64::MAX,
        ensures
            final(self).wf(),
            final(self)@ == recorded(old(self)@, packet),
            final(self).packet_count() == old(self).packet_count() + 1,
    {
        let source_node = self.ip_packets.or_insert(packet.source, NodeData::new(packet.source));
        source_node.add_packet(&packet);
        if packet.dest != packet.source {
            let dest_node = self.ip_packets.or_insert(packet.dest, NodeData::new(packet.dest));
            dest_node.add_packet(&packet);
        }
        self.valid_packet_count = self.valid_packet_count + 1;
    }
}

} // verus!
