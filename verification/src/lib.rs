//! Live IP traffic as packets flying between hosts: the engine behind the
//! picture.
//!
//! Observed packets come in one by one. Each is counted for the host that
//! sent it and for the host that received it ([`data`], [`packet_manager`]),
//! and, as far as a cap allows, shown as a packet in flight from the one to
//! the other ([`engine`], [`entities`]). Once per frame the packets in
//! flight move, those that are done disappear, and the pointer may drag a
//! host, taking the packets headed for it along.
//!
//! Counting is exact and never depends on what is shown. Every function
//! states what it does over a mathematical model of the state
//! ([`engine::model`], [`data::registry`]); what holds of every run is
//! proved in [`engine::laws`] and [`data::registry`].
//!
//! The library does not compute with coordinates. Points, velocities and
//! lengths are types of the caller's choice, and the geometry (how a packet
//! is launched and steered, when it has arrived, whether the pointer is over
//! a host) comes in as functions that the engine calls. Its contracts say
//! how the engine uses what those functions answer.
//!
//! [`network_manager`] turns a captured Ethernet frame into an observed
//! packet; [`address`] and [`address_map`] hold the addresses that key
//! everything.

pub mod address;
pub mod address_map;
pub mod data;
pub mod engine;
pub mod entities;
pub mod network_manager;
pub mod packet_manager;
