//! Where a host is drawn.

use vstd::prelude::*;

verus! {

/// The disc that stands for a host: its centre and its radius.
#[derive(Debug)]
pub struct NodeGraphics<P, S> {
    pub pos: P,
    pub radius: S,
}

impl<P: Copy, S: Copy> NodeGraphics<P, S> {
    /// A disc of the given radius centred at `pos`.
    pub fn new(pos: P, radius: S) -> (graphics: Self)
        ensures
            graphics == (NodeGraphics { pos, radius }),
    {
        NodeGraphics { pos, radius }
    }

    /// The centre of the disc.
    pub fn get_position(&self) -> (pos: &P)
        ensures
            *pos == self.pos,
    {
        &self.pos
    }

    /// The radius of the disc.
    pub fn get_radius(&self) -> (radius: &S)
        ensures
            *radius == self.radius,
    {
        &self.radius
    }

    /// Moves the centre to `point`; the radius stays.
    pub fn move_to(&mut self, point: &P)
        ensures
            *final(self) == (NodeGraphics { pos: *point, radius: old(self).radius }),
    {
        self.pos = *point;
    }
}

impl<P: Copy, S: Copy> Clone for NodeGraphics<P, S> {
    fn clone(&self) -> (copy: Self)
        ensures
            copy == *self,
    {
        *self
    }
}

impl<P: Copy, S: Copy> Copy for NodeGraphics<P, S> {

}

} // verus!
