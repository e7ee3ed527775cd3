//! The part of an observed packet that a packet in flight keeps.

use crate::address::Address;
use crate::data::IPPacketInfo;
use vstd::prelude::*;

verus! {

/// The two ends of a packet.
#[derive(Clone, Copy, Debug, PartialEq, Eq, Structural)]
pub struct PacketData {
    pub source: Address,
    pub dest: Address,
}

impl PacketData {
    /// The ends of `packet`.
    pub fn new(packet: &IPPacketInfo) -> (data: PacketData)
        ensures
            data == (PacketData { source: packet.source, dest: packet.dest }),
    {
        PacketData { source: packet.source, dest: packet.dest }
    }
}

} // verus!
