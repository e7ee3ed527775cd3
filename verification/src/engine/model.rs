//! The engine as plain mathematical values: its hosts in the order in which
//! they were registered, its packets in flight, and what one step does to them.

use crate::address::Address;
use crate::data::registry;
use crate::data::{IPPacketInfo, NodeDataView};
use crate::engine::EngineSettings;
use crate::entities::{NodeGraphics, NodeView, PacketEntity, PacketGraphics};
use vstd::prelude::*;

verus! {

/// Whether a host with address `ip` is among `hosts`.
pub open spec fn registered<P, S>(hosts: Seq<NodeView<P, S>>, ip: Address) -> bool {
    exists|i: int| 0 <= i < hosts.len() && (#[trigger] hosts[i]).data.ip == ip
}

/// The place of the host `ip` among `hosts`.
pub open spec fn index_of<P, S>(hosts: Seq<NodeView<P, S>>, ip: Address) -> int {
    choose|i: int| 0 <= i < hosts.len() && (#[trigger] hosts[i]).data.ip == ip
}

/// The host with address `ip`.
pub open spec fn host_of<P, S>(hosts: Seq<NodeView<P, S>>, ip: Address) -> NodeView<P, S> {
    hosts[index_of(hosts, ip)]
}

/// No two hosts have the same address.
pub open spec fn distinct<P, S>(hosts: Seq<NodeView<P, S>>) -> bool {
    forall|i: int, j: int|
        0 <= i < hosts.len() && 0 <= j < hosts.len() && i != j ==> (#[trigger] hosts[i]).data.ip != (
        #[trigger] hosts[j]).data.ip
}

/// The traffic records of `hosts`, by address.
pub open spec fn registry_of<P, S>(hosts: Seq<NodeView<P, S>>) -> Map<Address, NodeDataView> {
    Map::new(|ip: Address| registered(hosts, ip), |ip: Address| host_of(hosts, ip).data)
}

/// The hosts with `ip` among them: as they were if it was registered, else
/// with a fresh host for it, drawn at `spot`, added at the end.
pub open spec fn enrolled<P, S>(hosts: Seq<NodeView<P, S>>, ip: Address, spot: P, radius: S) -> Seq<
    NodeView<P, S>,
> {
    if registered(hosts, ip) {
        hosts
    } else {
        hosts.push(NodeView::fresh(ip, spot, radius))
    }
}

/// The hosts after `packet` is counted for those at its two ends.
pub open spec fn counted_in<P, S>(hosts: Seq<NodeView<P, S>>, packet: IPPacketInfo) -> Seq<
    NodeView<P, S>,
> {
    Seq::new(
        hosts.len(),
        |i: int|
            if hosts[i].data.ip == packet.source || hosts[i].data.ip == packet.dest {
                hosts[i].with_packet(packet)
            } else {
                hosts[i]
            },
    )
}

/// The hosts after `packet` is observed: its source and then its destination
/// are registered where they are new, at `source_spot` and `dest_spot`, and
/// the packet is counted for both.
pub open spec fn observed<P, S>(
    hosts: Seq<NodeView<P, S>>,
    packet: IPPacketInfo,
    source_spot: P,
    dest_spot: P,
    radius: S,
) -> Seq<NodeView<P, S>> {
    counted_in(
        enrolled(enrolled(hosts, packet.source, source_spot, radius), packet.dest, dest_spot, radius),
        packet,
    )
}

/// The hosts after the one with address `ip` is moved to `point`.
pub open spec fn host_moved<P, S>(hosts: Seq<NodeView<P, S>>, ip: Address, point: P) -> Seq<
    NodeView<P, S>,
> {
    Seq::new(
        hosts.len(),
        |i: int|
            if hosts[i].data.ip == ip {
                hosts[i].moved_to(point)
            } else {
                hosts[i]
            },
    )
}

/// The packets after every one that is headed for the host `ip` is aimed at
/// `point`. Only the destination point of those packets changes.
pub open spec fn retargeted<P: Copy, V: Copy>(
    packets: Seq<PacketEntity<P, V>>,
    ip: Address,
    point: P,
) -> Seq<PacketEntity<P, V>> {
    Seq::new(
        packets.len(),
        |k: int|
            if packets[k].packet_data.dest == ip {
                packets[k].aimed_at(point)
            } else {
                packets[k]
            },
    )
}

/// The packets that stay when those marked in `gone` are taken out, in
/// their old order.
pub open spec fn kept<T>(items: Seq<T>, gone: Seq<bool>) -> Seq<T>
    recommends
        items.len() == gone.len(),
    decreases items.len(),
{
    if items.len() == 0 || gone.len() == 0 {
        Seq::empty()
    } else if gone.last() {
        kept(items.drop_last(), gone.drop_last())
    } else {
        kept(items.drop_last(), gone.drop_last()).push(items.last())
    }
}

/// The state of the engine.
pub struct EngineView<P, V, S> {
    /// The settings in force.
    pub settings: EngineSettings<S>,
    /// The radius that a newly registered host is drawn with.
    pub node_radius: S,
    /// The hosts, in the order in which they were registered.
    pub hosts: Seq<NodeView<P, S>>,
    /// The packets in flight, oldest first.
    pub packets: Seq<PacketEntity<P, V>>,
    /// The host that the pointer is dragging.
    pub picked_node: Option<Address>,
    /// The host that the pointer is over.
    pub tooltip_node: Option<Address>,
}

impl<P: Copy, V: Copy, S: Copy> EngineView<P, V, S> {
    /// The traffic records of the hosts, by address.
    pub open spec fn registry(self) -> Map<Address, NodeDataView> {
        registry_of(self.hosts)
    }

    /// What holds of every state that the engine reaches: each address is
    /// registered once, every host's totals are the sum of its per-peer
    /// counters, and whatever names a host names a registered one.
    pub open spec fn valid(self) -> bool {
        &&& distinct(self.hosts)
        &&& forall|i: int| 0 <= i < self.hosts.len() ==> (#[trigger] self.hosts[i]).data.balanced()
        &&& forall|k: int|
            0 <= k < self.packets.len() ==> registered(
                self.hosts,
                (#[trigger] self.packets[k]).packet_data.source,
            ) && registered(self.hosts, self.packets[k].packet_data.dest)
        &&& self.picked_node matches Some(ip) ==> registered(self.hosts, ip)
        &&& self.tooltip_node matches Some(ip) ==> registered(self.hosts, ip)
    }

    /// Whether the counters of both ends of `packet` can take it.
    pub open spec fn has_room(self, packet: IPPacketInfo) -> bool {
        registry::has_room(self.registry(), packet)
    }

    /// Whether a packet in flight is to be shown for `packet`: the
    /// simulation runs, fewer packets are in flight than may be, and the
    /// packet has somewhere to go.
    pub open spec fn admits(self, packet: IPPacketInfo) -> bool {
        &&& self.settings.update
        &&& self.packets.len() < self.settings.max_packets
        &&& packet.source != packet.dest
    }

    /// The state after `packet` is observed: see [`observed`].
    pub open spec fn watched(self, packet: IPPacketInfo, source_spot: P, dest_spot: P) -> Self {
        EngineView {
            hosts: observed(self.hosts, packet, source_spot, dest_spot, self.node_radius),
            ..self
        }
    }

    /// The state after a packet for `packet` takes off with `velocity`, from
    /// where its source is drawn towards where its destination is drawn.
    pub open spec fn launched(self, packet: IPPacketInfo, velocity: V) -> Self {
        EngineView {
            packets: self.packets.push(
                PacketEntity::spawned(
                    packet,
                    host_of(self.hosts, packet.source).graphics.pos,
                    host_of(self.hosts, packet.dest).graphics.pos,
                    velocity,
                ),
            ),
            ..self
        }
    }

    /// The state after the host `ip` is moved to `point`: the host is drawn
    /// there, and every packet headed for it is aimed there.
    pub open spec fn moved(self, ip: Address, point: P) -> Self {
        EngineView {
            hosts: host_moved(self.hosts, ip, point),
            packets: retargeted(self.packets, ip, point),
            ..self
        }
    }

    /// The state without the packet at place `k`.
    pub open spec fn without_packet(self, k: int) -> Self {
        EngineView { packets: self.packets.remove(k), ..self }
    }

    /// The state after the pointer has had its say on the picked host: while
    /// the button is held the picked host follows the pointer, otherwise no
    /// host is picked any more.
    pub open spec fn dragged(self, pressed: bool, pointer: P) -> Self {
        match self.picked_node {
            Some(ip) if pressed => self.moved(ip, pointer),
            _ => EngineView { picked_node: None, ..self },
        }
    }

    /// The state after the pointer is found to be over `hit`: that host gets
    /// the tooltip, and is picked if the button is held and none was picked.
    pub open spec fn hovered(self, pressed: bool, hit: Option<Address>) -> Self {
        EngineView {
            picked_node: if self.picked_node is None && pressed {
                hit
            } else {
                self.picked_node
            },
            tooltip_node: hit,
            ..self
        }
    }
}

/// Whether `hit` is what a hit test at `pointer` finds: the first host, in
/// the order of registration, that `contains` reports the pointer to be in,
/// or none if it reports so of no host.
pub open spec fn hit_by<P, S, C: Fn(&NodeGraphics<P, S>, &P) -> bool>(
    hosts: Seq<NodeView<P, S>>,
    pointer: P,
    contains: C,
    hit: Option<Address>,
) -> bool {
    match hit {
        Some(ip) => exists|i: int|
            0 <= i < hosts.len() && (#[trigger] hosts[i]).data.ip == ip && contains.ensures(
                (&hosts[i].graphics, &pointer),
                true,
            ) && forall|j: int|
                0 <= j < i ==> contains.ensures((&(#[trigger] hosts[j]).graphics, &pointer), false),
        None => forall|j: int|
            0 <= j < hosts.len() ==> contains.ensures(
                (&(#[trigger] hosts[j]).graphics, &pointer),
                false,
            ),
    }
}

/// Whether `after` is `before` with every packet moved one step as `steer`
/// says: `steer` gives each packet its next position and velocity, and
/// nothing else about a packet changes.
pub open spec fn steered<P: Copy, V: Copy, M: Fn(&PacketGraphics<P, V>) -> (P, V)>(
    before: Seq<PacketEntity<P, V>>,
    steer: M,
    after: Seq<PacketEntity<P, V>>,
) -> bool {
    &&& after.len() == before.len()
    &&& forall|k: int|
        0 <= k < before.len() ==> steer.ensures(
            (&before[k].graphics,),
            ((#[trigger] after[k]).graphics.pos, after[k].graphics.velocity),
        ) && after[k] == before[k].advanced(after[k].graphics.pos, after[k].graphics.velocity)
}

/// Whether `gone` is a verdict that the two tests can give on `packet`: a
/// packet goes if it has arrived, or else if it has turned back; it stays if
/// neither test says so.
pub open spec fn judged<
    P,
    V,
    S,
    A: Fn(&PacketGraphics<P, V>, &S) -> bool,
    R: Fn(&PacketGraphics<P, V>) -> bool,
>(packet: PacketGraphics<P, V>, near: S, arrived: A, reversed: R, gone: bool) -> bool {
    if gone {
        arrived.ensures((&packet, &near), true) || (arrived.ensures((&packet, &near), false)
            && reversed.ensures((&packet,), true))
    } else {
        arrived.ensures((&packet, &near), false) && reversed.ensures((&packet,), false)
    }
}

/// Whether `after` is `before` without the packets that have arrived or have
/// turned back, the others in their old order.
pub open spec fn culled<
    P: Copy,
    V: Copy,
    S,
    A: Fn(&PacketGraphics<P, V>, &S) -> bool,
    R: Fn(&PacketGraphics<P, V>) -> bool,
>(
    before: Seq<PacketEntity<P, V>>,
    near: S,
    arrived: A,
    reversed: R,
    after: Seq<PacketEntity<P, V>>,
) -> bool {
    exists|gone: Seq<bool>|
        #![auto]
        gone.len() == before.len() && after == kept(before, gone) && forall|k: int|
            0 <= k < before.len() ==> judged(
                (#[trigger] before[k]).graphics,
                near,
                arrived,
                reversed,
                gone[k],
            )
}

} // verus!

verus! {

/// Whether `post` is what the engine makes of `pre` when `packet` comes in:
/// the packet is observed, and if a packet in flight is admitted, `launch` is
/// asked for its velocity, given where the two hosts are drawn, the launch
/// speed and the launch angle. With a velocity the packet takes off; where
/// `launch` finds no direction to launch in, none does.
pub open spec fn ingested<
    P: Copy,
    V: Copy,
    S: Copy,
    F: FnOnce(&P, &P, &S, &S) -> Option<V>,
>(
    pre: EngineView<P, V, S>,
    packet: IPPacketInfo,
    source_spot: P,
    dest_spot: P,
    launch: F,
    post: EngineView<P, V, S>,
) -> bool {
    let seen = pre.watched(packet, source_spot, dest_spot);
    let from = host_of(seen.hosts, packet.source).graphics.pos;
    let to = host_of(seen.hosts, packet.dest).graphics.pos;
    let speed = seen.settings.speed_launch;
    let angle = seen.settings.angle_launch;
    if seen.admits(packet) {
        ||| launch.ensures((&from, &to, &speed, &angle), None) && post == seen
        ||| exists|velocity: V|
            launch.ensures((&from, &to, &speed, &angle), Some(velocity)) && post == seen.launched(
                packet,
                velocity,
            )
    } else {
        post == seen
    }
}

/// A host stays registered when hosts are added or change in anything but
/// their address.
pub proof fn lemma_registered_extends<P, S>(
    before: Seq<NodeView<P, S>>,
    after: Seq<NodeView<P, S>>,
    ip: Address,
)
    requires
        before.len() <= after.len(),
        forall|i: int| 0 <= i < before.len() ==> (#[trigger] after[i]).data.ip == before[i].data.ip,
        registered(before, ip),
    ensures
        registered(after, ip),
{
    let i = index_of(before, ip);
    assert(after[i].data.ip == ip);
}

/// Among hosts with distinct addresses, the place of a host is the only
/// place where its address occurs.
pub proof fn lemma_index_of<P, S>(hosts: Seq<NodeView<P, S>>, i: int)
    requires
        distinct(hosts),
        0 <= i < hosts.len(),
    ensures
        registered(hosts, hosts[i].data.ip),
        index_of(hosts, hosts[i].data.ip) == i,
        host_of(hosts, hosts[i].data.ip) == hosts[i],
{
    let ip = hosts[i].data.ip;
}

} // verus!

verus! {

/// Whether `post` is what one frame makes of `pre`. While the simulation
/// does not run, nothing changes. Otherwise the pointer first has its say on
/// the picked host ([`EngineView::dragged`]), then a hit test at the pointer
/// decides the tooltip and a new pick ([`hit_by`], [`EngineView::hovered`]),
/// then every packet moves one step ([`steered`]), and last the packets that
/// have arrived or turned back are taken out ([`culled`]).
pub open spec fn updated<
    P: Copy,
    V: Copy,
    S: Copy,
    C: Fn(&NodeGraphics<P, S>, &P) -> bool,
    M: Fn(&PacketGraphics<P, V>) -> (P, V),
    A: Fn(&PacketGraphics<P, V>, &S) -> bool,
    R: Fn(&PacketGraphics<P, V>) -> bool,
>(
    pre: EngineView<P, V, S>,
    pressed: bool,
    pointer: P,
    contains: C,
    steer: M,
    arrived: A,
    reversed: R,
    post: EngineView<P, V, S>,
) -> bool {
    if !pre.settings.update {
        post == pre
    } else {
        let aimed = pre.dragged(pressed, pointer);
        exists|hit: Option<Address>, flown: Seq<PacketEntity<P, V>>|
            #![trigger hit_by(aimed.hosts, pointer, contains, hit), steered(aimed.packets, steer, flown)]
            {
                &&& hit_by(aimed.hosts, pointer, contains, hit)
                &&& steered(aimed.packets, steer, flown)
                &&& culled(flown, aimed.settings.delete_distance, arrived, reversed, post.packets)
                &&& post == (EngineView { packets: post.packets, ..aimed.hovered(pressed, hit) })
            }
    }
}

/// Every packet that stays was there before.
pub proof fn lemma_kept_members<T>(items: Seq<T>, gone: Seq<bool>, j: int)
    requires
        items.len() == gone.len(),
        0 <= j < kept(items, gone).len(),
    ensures
        exists|k: int| 0 <= k < items.len() && !gone[k] && #[trigger] items[k] == kept(items, gone)[j],
    decreases items.len(),
{
    if items.len() > 0 {
        let rest = kept(items.drop_last(), gone.drop_last());
        if j < rest.len() {
            lemma_kept_members(items.drop_last(), gone.drop_last(), j);
        }
    }
}

/// Whether `post` is what the engine makes of `pre` when `packet` comes in
/// and `spot` says where new hosts are drawn: `spot` is asked twice, for the
/// source and for the destination, and the rest is as [`ingested`] says.
pub open spec fn taken_in<
    P: Copy,
    V: Copy,
    S: Copy,
    G: Fn() -> P,
    F: Fn(&P, &P, &S, &S) -> Option<V>,
>(
    pre: EngineView<P, V, S>,
    packet: IPPacketInfo,
    spot: G,
    launch: F,
    post: EngineView<P, V, S>,
) -> bool {
    exists|source_spot: P, dest_spot: P|
        spot.ensures((), source_spot) && spot.ensures((), dest_spot) && #[trigger] ingested(
            pre,
            packet,
            source_spot,
            dest_spot,
            launch,
            post,
        )
}

/// Whether `post` is what the engine makes of `pre` when the packets of
/// `batch` come in, in order: there are states from `pre` to `post`, one
/// after each packet, each made of the one before as [`taken_in`] says.
pub open spec fn took<
    P: Copy,
    V: Copy,
    S: Copy,
    G: Fn() -> P,
    F: Fn(&P, &P, &S, &S) -> Option<V>,
>(
    pre: EngineView<P, V, S>,
    batch: Seq<IPPacketInfo>,
    spot: G,
    launch: F,
    post: EngineView<P, V, S>,
) -> bool {
    exists|trace: Seq<EngineView<P, V, S>>|
        #![trigger trace.len()]
        {
            &&& trace.len() == batch.len() + 1
            &&& trace[0] == pre
            &&& trace[batch.len() as int] == post
            &&& forall|i: int|
                0 <= i < batch.len() ==> taken_in(
                    #[trigger] trace[i],
                    batch[i],
                    spot,
                    launch,
                    trace[i + 1],
                )
        }
}

/// Whether `post` is what one whole frame makes of `pre`: the first `taken`
/// packets of `batch` come in, in order; if that is all of them, the frame
/// goes on as [`updated`] says; if it is not, the next packet would overflow
/// a counter and the frame ends there.
pub open spec fn ticked<
    P: Copy,
    V: Copy,
    S: Copy,
    G: Fn() -> P,
    F: Fn(&P, &P, &S, &S) -> Option<V>,
    C: Fn(&NodeGraphics<P, S>, &P) -> bool,
    M: Fn(&PacketGraphics<P, V>) -> (P, V),
    A: Fn(&PacketGraphics<P, V>, &S) -> bool,
    R: Fn(&PacketGraphics<P, V>) -> bool,
>(
    pre: EngineView<P, V, S>,
    batch: Seq<IPPacketInfo>,
    spot: G,
    launch: F,
    pressed: bool,
    pointer: P,
    contains: C,
    steer: M,
    arrived: A,
    reversed: R,
    taken: int,
    post: EngineView<P, V, S>,
) -> bool {
    &&& 0 <= taken <= batch.len()
    &&& exists|mid: EngineView<P, V, S>|
        {
            &&& #[trigger] took(pre, batch.take(taken), spot, launch, mid)
            &&& if taken == batch.len() {
                updated(mid, pressed, pointer, contains, steer, arrived, reversed, post)
            } else {
                post == mid && !mid.has_room(batch[taken])
            }
        }
}

} // verus!
