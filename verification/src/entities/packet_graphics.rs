//! The motion of a packet in flight.

use vstd::prelude::*;

verus! {

/// Where a packet started, where it is, where it is headed, and how it
/// moves per frame.
#[derive(Debug)]
pub struct PacketGraphics<P, V> {
    pub src: P,
    pub pos: P,
    pub dest: P,
    pub velocity: V,
}

impl<P: Copy, V: Copy> PacketGraphics<P, V> {
    /// A packet at `src_point`, headed for `dst_point`, moving with `velocity`.
    pub fn new(src_point: &P, dst_point: &P, velocity: V) -> (graphics: Self)
        ensures
            graphics == (PacketGraphics {
                src: *src_point,
                pos: *src_point,
                dest: *dst_point,
                velocity,
            }),
    {
        PacketGraphics { src: *src_point, pos: *src_point, dest: *dst_point, velocity }
    }

    /// Where the packet started.
    pub fn get_source(&self) -> (point: &P)
        ensures
            *point == self.src,
    {
        &self.src
    }

    /// Where the packet is.
    pub fn get_position(&self) -> (point: &P)
        ensures
            *point == self.pos,
    {
        &self.pos
    }

    /// Where the packet is headed.
    pub fn get_destination(&self) -> (point: &P)
        ensures
            *point == self.dest,
    {
        &self.dest
    }

    /// How the packet moves per frame.
    pub fn get_velocity(&self) -> (velocity: &V)
        ensures
            *velocity == self.velocity,
    {
        &self.velocity
    }

    /// The same flight with a new destination.
    pub open spec fn aimed_at(self, point: P) -> Self {
        PacketGraphics { dest: point, ..self }
    }

    /// The same flight one step on: at `pos`, moving with `velocity`.
    pub open spec fn advanced(self, pos: P, velocity: V) -> Self {
        PacketGraphics { pos, velocity, ..self }
    }

    /// Heads the packet for `point`. Its start, its position and its
    /// velocity stay as they are.
    pub fn set_destination(&mut self, point: &P)
        ensures
            *final(self) == old(self).aimed_at(*point),
    {
        self.dest = *point;
    }

    /// Puts the packet at `pos`, moving with `velocity`. Its start and its
    /// destination stay as they are.
    pub fn advance(&mut self, pos: P, velocity: V)
        ensures
            *final(self) == old(self).advanced(pos, velocity),
    {
        self.pos = pos;
        self.velocity = velocity;
    }
}

impl<P: Copy, V: Copy> Clone for PacketGraphics<P, V> {
    fn clone(&self) -> (copy: Self)
        ensures
            copy == *self,
    {
        *self
    }
}

impl<P: Copy, V: Copy> Copy for PacketGraphics<P, V> {

}

} // verus!
