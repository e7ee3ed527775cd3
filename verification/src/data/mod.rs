//! What is known of a packet and of the hosts that exchange packets.

use crate::address::Address;
use vstd::prelude::*;

pub mod node_data;
pub mod packet_data;
pub mod registry;
pub mod tally;

pub use node_data::{NodeData, NodeDataView, Statistics};
pub use packet_data::PacketData;
pub use tally::Tally;

verus! {

/// One observed packet: who sent it, to whom, and how many payload bytes.
#[derive(Clone, Copy, Debug, PartialEq, Eq, Structural)]
pub struct IPPacketInfo {
    pub source: Address,
    pub dest: Address,
    pub payload_len: u16,
}

} // verus!
