//! A host: its traffic record and its place on screen.

use crate::address::Address;
use crate::data::{IPPacketInfo, NodeData, NodeDataView};
use crate::entities::node_graphics::NodeGraphics;
use vstd::prelude::*;

verus! {

/// A host as plain mathematical values.
pub struct NodeView<P, S> {
    /// The host's traffic record.
    pub data: NodeDataView,
    /// The disc that stands for the host.
    pub graphics: NodeGraphics<P, S>,
}

impl<P, S> NodeView<P, S> {
    /// The host of which nothing has been seen yet, drawn at `pos`.
    pub open spec fn fresh(ip: Address, pos: P, radius: S) -> Self {
        NodeView { data: NodeDataView::fresh(ip), graphics: NodeGraphics { pos, radius } }
    }

    /// The host after `packet` is counted for it.
    pub open spec fn with_packet(self, packet: IPPacketInfo) -> Self {
        NodeView { data: self.data.with_packet(packet), ..self }
    }

    /// The host moved to `point`.
    pub open spec fn moved_to(self, point: P) -> Self {
        NodeView { graphics: NodeGraphics { pos: point, radius: self.graphics.radius }, ..self }
    }
}

/// One host: the record of its traffic together with the disc drawn for it.
pub struct Node<P, S> {
    data: NodeData,
    graphics: NodeGraphics<P, S>,
}

impl<P: Copy, S: Copy> Node<P, S> {
    /// The host as plain mathematical values.
    pub closed spec fn view(&self) -> NodeView<P, S> {
        NodeView { data: self.data@, graphics: self.graphics }
    }

    /// The host's invariant: that of its traffic record.
    pub closed spec fn wf(&self) -> bool {
        self.data.wf()
    }

    /// The totals of a well-formed host are the sum of its per-peer counters.
    pub proof fn lemma_wf_balanced(&self)
        requires
            self.wf(),
        ensures
            self@.data.balanced(),
    {
    }

    /// The host `ip`, of which nothing has been seen yet, drawn at `pos`.
    pub fn new(ip: Address, pos: &P, radius: S) -> (node: Self)
        ensures
            node.wf(),
            node@ == NodeView::fresh(ip, *pos, radius),
    {
        Node { data: NodeData::new(ip), graphics: NodeGraphics::new(*pos, radius) }
    }

    /// The host's address.
    pub fn ip(&self) -> (ip: Address)
        ensures
            ip == self@.data.ip,
    {
        self.data.ip()
    }

    /// The host's traffic record.
    pub fn data(&self) -> (data: &NodeData)
        ensures
            data@ == self@.data,
            self.wf() ==> data.wf(),
    {
        &self.data
    }

    /// The disc that stands for the host.
    pub fn graphics(&self) -> (graphics: &NodeGraphics<P, S>)
        ensures
            *graphics == self@.graphics,
    {
        &self.graphics
    }

    /// Where the host is drawn.
    pub fn get_position(&self) -> (pos: &P)
        ensures
            *pos == self@.graphics.pos,
    {
        self.graphics.get_position()
    }

    /// Whether the host's counters can take `packet` without overflow.
    pub fn has_room(&self, packet: &IPPacketInfo) -> (room: bool)
        ensures
            room == self@.data.has_room(*packet),
    {
        self.data.has_room(packet)
    }

    /// Counts `packet` for this host, which must be one of its two ends.
    /// Where the host is drawn does not change.
    pub fn add_packet(&mut self, packet: &IPPacketInfo)
        requires
            old(self).wf(),
            packet.source == old(self)@.data.ip || packet.dest == old(self)@.data.ip,
            old(self)@.data.has_room(*packet),
        ensures
            final(self).wf(),
            final(self)@ == old(self)@.with_packet(*packet),
    {
        self.data.add_packet(packet);
    }

    /// Moves the host to `point`. Its traffic record does not change.
    pub fn move_to(&mut self, point: &P)
        requires
            old(self).wf(),
        ensures
            final(self).wf(),
            final(self)@ == old(self)@.moved_to(*point),
    {
        self.graphics.move_to(point);
    }
}

} // verus!
