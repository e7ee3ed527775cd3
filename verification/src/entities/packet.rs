//! A packet in flight between two hosts.

use crate::address::Address;
use crate::data::{IPPacketInfo, PacketData};
use crate::entities::packet_graphics::PacketGraphics;
use vstd::prelude::*;

verus! {

/// One visible packet: its motion, and the two hosts it travels between.
#[derive(Debug)]
pub struct PacketEntity<P, V> {
    pub graphics: PacketGraphics<P, V>,
    pub packet_data: PacketData,
}

impl<P: Copy, V: Copy> PacketEntity<P, V> {
    /// The packet that `packet` spawns at `src_point`, headed for `dst_point`
    /// with `velocity`.
    pub open spec fn spawned(packet: IPPacketInfo, src_point: P, dst_point: P, velocity: V) -> Self {
        PacketEntity {
            graphics: PacketGraphics {
                src: src_point,
                pos: src_point,
                dest: dst_point,
                velocity,
            },
            packet_data: PacketData { source: packet.source, dest: packet.dest },
        }
    }

    /// The same packet with a new destination point.
    pub open spec fn aimed_at(self, point: P) -> Self {
        PacketEntity { graphics: self.graphics.aimed_at(point), ..self }
    }

    /// The same packet one step on: at `pos`, moving with `velocity`.
    pub open spec fn advanced(self, pos: P, velocity: V) -> Self {
        PacketEntity { graphics: self.graphics.advanced(pos, velocity), ..self }
    }

    /// A packet for `packet`, at `src_point`, headed for `dst_point`, moving
    /// with `velocity`.
    pub fn new(packet: &IPPacketInfo, src_point: &P, dst_point: &P, velocity: V) -> (entity: Self)
        ensures
            entity == Self::spawned(*packet, *src_point, *dst_point, velocity),
    {
        PacketEntity {
            graphics: PacketGraphics::new(src_point, dst_point, velocity),
            packet_data: PacketData::new(packet),
        }
    }

    /// The host that sent the packet.
    pub fn get_ip_source(&self) -> (ip: &Address)
        ensures
            *ip == self.packet_data.source,
    {
        &self.packet_data.source
    }

    /// The host that the packet goes to.
    pub fn get_ip_dest(&self) -> (ip: &Address)
        ensures
            *ip == self.packet_data.dest,
    {
        &self.packet_data.dest
    }

    /// Where the packet started.
    pub fn get_source(&self) -> (point: &P)
        ensures
            *point == self.graphics.src,
    {
        self.graphics.get_source()
    }

    /// Where the packet is.
    pub fn get_position(&self) -> (point: &P)
        ensures
            *point == self.graphics.pos,
    {
        self.graphics.get_position()
    }

    /// Where the packet is headed.
    pub fn get_destination(&self) -> (point: &P)
        ensures
            *point == self.graphics.dest,
    {
        self.graphics.get_destination()
    }

    /// Heads the packet for `point`. Its start, its position, its velocity
    /// and its two hosts stay as they are.
    pub fn set_destination(&mut self, point: &P)
        ensures
            *final(self) == old(self).aimed_at(*point),
    {
        self.graphics.set_destination(point);
    }

    /// Puts the packet at `point`. Nothing else changes.
    pub fn move_to(&mut self, point: &P)
        ensures
            *final(self) == old(self).advanced(*point, old(self).graphics.velocity),
    {
        let velocity = self.graphics.velocity;
        self.graphics.advance(*point, velocity);
    }

    /// Puts the packet at `pos`, moving with `velocity`. Its start, its
    /// destination and its two hosts stay as they are.
    pub fn advance(&mut self, pos: P, velocity: V)
        ensures
            *final(self) == old(self).advanced(pos, velocity),
    {
        self.graphics.advance(pos, velocity);
    }
}

impl<P: Copy, V: Copy> Clone for PacketEntity<P, V> {
    fn clone(&self) -> (copy: Self)
        ensures
            copy == *self,
    {
        *self
    }
}

impl<P: Copy, V: Copy> Copy for PacketEntity<P, V> {

}

} // verus!
