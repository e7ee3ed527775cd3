//! What is shown on screen: hosts and the packets in flight between them.
//!
//! The engine never computes with coordinates. A point `P`, a velocity `V`
//! and a length `S` are whatever the caller draws with; the library stores
//! them, copies them, and hands them to the caller's geometry.

pub mod node;
pub mod node_graphics;
pub mod packet;
pub mod packet_graphics;

pub use node::{Node, NodeView};
pub use node_graphics::NodeGraphics;
pub use packet::PacketEntity;
pub use packet_graphics::PacketGraphics;
