//! What holds of the engine whatever packets come in and whatever the
//! pointer does.

use crate::address::Address;
use crate::data::registry::{
    lemma_replayed_totals, record_of, recorded, recorded_all, replayed, traffic,
};
use crate::data::{IPPacketInfo, NodeDataView};
use crate::engine::model::{
    counted_in, culled, distinct, enrolled, hit_by, host_moved, host_of, index_of, ingested,
    judged, kept, lemma_kept_members, lemma_registered_extends, observed,
    registered, registry_of, steered, taken_in, took, updated, EngineView,
};
use crate::entities::{NodeGraphics, NodeView, PacketEntity, PacketGraphics};
use vstd::prelude::*;

verus! {

/// An address is registered once: enrolling a host that is registered
/// changes nothing, enrolling a new one adds one host, and either way the
/// addresses stay distinct.
pub proof fn lemma_enrolled_once<P, S>(hosts: Seq<NodeView<P, S>>, ip: Address, spot: P, radius: S)
    requires
        distinct(hosts),
    ensures
        distinct(enrolled(hosts, ip, spot, radius)),
        registered(enrolled(hosts, ip, spot, radius), ip),
        registered(hosts, ip) ==> enrolled(hosts, ip, spot, radius) == hosts,
        !registered(hosts, ip) ==> enrolled(hosts, ip, spot, radius).len() == hosts.len() + 1,
        registry_of(enrolled(hosts, ip, spot, radius)) == (if registered(hosts, ip) {
            registry_of(hosts)
        } else {
            registry_of(hosts).insert(ip, NodeView::fresh(ip, spot, radius).data)
        }),
{
    let after = enrolled(hosts, ip, spot, radius);
    if !registered(hosts, ip) {
        let last = hosts.len() as int;
        assert(after[last].data.ip == ip);
        let expected = registry_of(hosts).insert(ip, NodeView::fresh(ip, spot, radius).data);
        assert forall|other: Address| expected.contains_key(other) implies (#[trigger] registry_of(
            after,
        ).contains_key(other)) && registry_of(after)[other] == expected[other] by {
            if other != ip {
                let i = index_of(hosts, other);
                assert(after[i] == hosts[i]);
            }
        }
    }
}

/// Counting a packet for the hosts at its two ends leaves every host where
/// it is and under its address, and adds the packet to the record of each of
/// the two.
pub proof fn lemma_counted_in<P, S>(hosts: Seq<NodeView<P, S>>, packet: IPPacketInfo)
    requires
        distinct(hosts),
        registered(hosts, packet.source),
        registered(hosts, packet.dest),
    ensures
        distinct(counted_in(hosts, packet)),
        registry_of(counted_in(hosts, packet)) == recorded(registry_of(hosts), packet),
{
    let after = counted_in(hosts, packet);
    assert forall|ip: Address| registered(after, ip) <==> registered(hosts, ip) by {
        if registered(hosts, ip) {
            let i = index_of(hosts, ip);
            assert(after[i].data.ip == ip);
        }
    }
}

/// Observing a packet records it: the hosts' records are then what the
/// registry makes of the packet, however the hosts are drawn, and each
/// address is still registered once.
pub proof fn lemma_observed_records<P, S>(
    hosts: Seq<NodeView<P, S>>,
    packet: IPPacketInfo,
    source_spot: P,
    dest_spot: P,
    radius: S,
)
    requires
        distinct(hosts),
    ensures
        distinct(observed(hosts, packet, source_spot, dest_spot, radius)),
        registry_of(observed(hosts, packet, source_spot, dest_spot, radius)) == recorded(
            registry_of(hosts),
            packet,
        ),
{
    let first = enrolled(hosts, packet.source, source_spot, radius);
    lemma_enrolled_once(hosts, packet.source, source_spot, radius);
    let both = enrolled(first, packet.dest, dest_spot, radius);
    lemma_enrolled_once(first, packet.dest, dest_spot, radius);
    assert(registered(both, packet.source)) by {
        let i = index_of(first, packet.source);
        assert(both[i].data.ip == packet.source);
    }
    lemma_counted_in(both, packet);
}

/// Whether `post` is what the engine can make of `pre` when `packet` comes
/// in, whatever the launch: the packet is observed, with the new hosts drawn
/// somewhere, and then either no packet takes off, or a packet in flight is
/// admitted and one takes off with some velocity.
pub open spec fn accepted<P: Copy, V: Copy, S: Copy>(
    pre: EngineView<P, V, S>,
    packet: IPPacketInfo,
    post: EngineView<P, V, S>,
) -> bool {
    exists|source_spot: P, dest_spot: P|
        {
            let seen = #[trigger] pre.watched(packet, source_spot, dest_spot);
            ||| post == seen
            ||| seen.admits(packet) && exists|velocity: V|
                post == #[trigger] seen.launched(packet, velocity)
        }
}

/// Whatever `launch` answers, the engine makes of a packet what
/// [`accepted`] describes.
pub proof fn lemma_ingested_accepted<
    P: Copy,
    V: Copy,
    S: Copy,
    F: FnOnce(&P, &P, &S, &S) -> Option<V>,
>(
    pre: EngineView<P, V, S>,
    packet: IPPacketInfo,
    source_spot: P,
    dest_spot: P,
    launch: F,
    post: EngineView<P, V, S>,
)
    requires
        ingested(pre, packet, source_spot, dest_spot, launch, post),
    ensures
        accepted(pre, packet, post),
{
}

/// Whether `trace` is a run of the engine over `batch`: it starts in the
/// first state of `trace`, takes in the packets of `batch` one by one, and
/// passes through the other states of `trace` in order.
pub open spec fn drained<P: Copy, V: Copy, S: Copy>(
    trace: Seq<EngineView<P, V, S>>,
    batch: Seq<IPPacketInfo>,
) -> bool {
    &&& trace.len() == batch.len() + 1
    &&& forall|i: int|
        0 <= i < batch.len() ==> accepted(#[trigger] trace[i], batch[i], trace[i + 1])
}

/// Admission control: however many packets come in, the number of packets
/// in flight never rises above the cap. If it was above the cap to begin
/// with, it never rises at all.
pub proof fn lemma_drained_within_cap<P: Copy, V: Copy, S: Copy>(
    trace: Seq<EngineView<P, V, S>>,
    batch: Seq<IPPacketInfo>,
    i: int,
)
    requires
        drained(trace, batch),
        0 <= i <= batch.len(),
    ensures
        trace[i].settings == trace[0].settings,
        trace[i].packets.len() <= trace[0].packets.len() || trace[i].packets.len()
            <= trace[0].settings.max_packets,
    decreases i,
{
    if i > 0 {
        lemma_drained_within_cap(trace, batch, i - 1);
    }
}

/// Admission control never costs a count: however many packets come in and
/// however few of them are shown, the hosts' records are then what the
/// registry makes of all the packets, in order.
pub proof fn lemma_drained_records_all<P: Copy, V: Copy, S: Copy>(
    trace: Seq<EngineView<P, V, S>>,
    batch: Seq<IPPacketInfo>,
)
    requires
        drained(trace, batch),
        distinct(trace[0].hosts),
    ensures
        distinct(trace.last().hosts),
        trace.last().registry() == recorded_all(trace[0].registry(), batch),
    decreases batch.len(),
{
    if batch.len() > 0 {
        let n = batch.len() as int;
        let before = trace.drop_last();
        lemma_drained_records_all(before, batch.drop_last());
        let pre = trace[n - 1];
        let post = trace[n];
        let (source_spot, dest_spot) = choose|source_spot: P, dest_spot: P|
            {
                let seen = #[trigger] pre.watched(batch[n - 1], source_spot, dest_spot);
                ||| post == seen
                ||| seen.admits(batch[n - 1]) && exists|velocity: V|
                    post == #[trigger] seen.launched(batch[n - 1], velocity)
            };
        lemma_observed_records(pre.hosts, batch[n - 1], source_spot, dest_spot, pre.node_radius);
    }
}

/// Taking a marked packet out before the marked packets are taken out
/// changes nothing about what stays.
pub proof fn lemma_kept_without<T>(items: Seq<T>, gone: Seq<bool>, k: int)
    requires
        items.len() == gone.len(),
        0 <= k < items.len(),
        gone[k],
    ensures
        kept(items, gone) == kept(items.remove(k), gone.remove(k)),
    decreases items.len(),
{
    let last = items.len() - 1;
    if k != last {
        lemma_kept_without(items.drop_last(), gone.drop_last(), k);
        assert(items.remove(k).drop_last() =~= items.drop_last().remove(k));
        assert(gone.remove(k).drop_last() =~= gone.drop_last().remove(k));
    }
}

/// Culling: a packet on which the only verdict that the two tests can give
/// is that it goes is taken out. What stays is what would have stayed had
/// the packet not been there.
pub proof fn lemma_culled_gone<
    P: Copy,
    V: Copy,
    S,
    A: Fn(&PacketGraphics<P, V>, &S) -> bool,
    R: Fn(&PacketGraphics<P, V>) -> bool,
>(
    before: Seq<PacketEntity<P, V>>,
    near: S,
    arrived: A,
    reversed: R,
    after: Seq<PacketEntity<P, V>>,
    k: int,
)
    requires
        culled(before, near, arrived, reversed, after),
        0 <= k < before.len(),
        !judged(before[k].graphics, near, arrived, reversed, false),
    ensures
        culled(before.remove(k), near, arrived, reversed, after),
        after.len() < before.len(),
{
    let gone = choose|gone: Seq<bool>|
        #![auto]
        gone.len() == before.len() && after == kept(before, gone) && forall|j: int|
            0 <= j < before.len() ==> judged(
                (#[trigger] before[j]).graphics,
                near,
                arrived,
                reversed,
                gone[j],
            );
    lemma_kept_without(before, gone, k);
    let fewer = before.remove(k);
    let marks = gone.remove(k);
    lemma_kept_at_most(fewer, marks);
}

/// Arrival culling: a packet of which the arrival test can only say that it
/// has arrived is taken out. What stays is what would have stayed had the
/// packet not been there.
pub proof fn lemma_culled_arrival<
    P: Copy,
    V: Copy,
    S,
    A: Fn(&PacketGraphics<P, V>, &S) -> bool,
    R: Fn(&PacketGraphics<P, V>) -> bool,
>(
    before: Seq<PacketEntity<P, V>>,
    near: S,
    arrived: A,
    reversed: R,
    after: Seq<PacketEntity<P, V>>,
    k: int,
)
    requires
        culled(before, near, arrived, reversed, after),
        0 <= k < before.len(),
        forall|answer: bool| arrived.ensures((&before[k].graphics, &near), answer) ==> answer,
    ensures
        culled(before.remove(k), near, arrived, reversed, after),
        after.len() < before.len(),
{
    lemma_culled_gone(before, near, arrived, reversed, after, k);
}

/// Reversal culling: a packet of which the reversal test can only say that
/// it has turned back is taken out, however far from its destination it is.
pub proof fn lemma_culled_reversal<
    P: Copy,
    V: Copy,
    S,
    A: Fn(&PacketGraphics<P, V>, &S) -> bool,
    R: Fn(&PacketGraphics<P, V>) -> bool,
>(
    before: Seq<PacketEntity<P, V>>,
    near: S,
    arrived: A,
    reversed: R,
    after: Seq<PacketEntity<P, V>>,
    k: int,
)
    requires
        culled(before, near, arrived, reversed, after),
        0 <= k < before.len(),
        forall|answer: bool| reversed.ensures((&before[k].graphics,), answer) ==> answer,
    ensures
        culled(before.remove(k), near, arrived, reversed, after),
        after.len() < before.len(),
{
    lemma_culled_gone(before, near, arrived, reversed, after, k);
}

/// Culling keeps what is not done: a packet of which the tests can only say
/// that it has neither arrived nor turned back stays, so that as many
/// packets stay as there were if that holds of all of them.
pub proof fn lemma_culled_keeps<
    P: Copy,
    V: Copy,
    S,
    A: Fn(&PacketGraphics<P, V>, &S) -> bool,
    R: Fn(&PacketGraphics<P, V>) -> bool,
>(
    before: Seq<PacketEntity<P, V>>,
    near: S,
    arrived: A,
    reversed: R,
    after: Seq<PacketEntity<P, V>>,
)
    requires
        culled(before, near, arrived, reversed, after),
        forall|k: int|
            0 <= k < before.len() ==> !judged(
                (#[trigger] before[k]).graphics,
                near,
                arrived,
                reversed,
                true,
            ),
    ensures
        after == before,
{
    let gone = choose|gone: Seq<bool>|
        #![auto]
        gone.len() == before.len() && after == kept(before, gone) && forall|j: int|
            0 <= j < before.len() ==> judged(
                (#[trigger] before[j]).graphics,
                near,
                arrived,
                reversed,
                gone[j],
            );
    assert forall|j: int| 0 <= j < before.len() implies !gone[j] by {
        assert(judged(before[j].graphics, near, arrived, reversed, gone[j]));
    }
    lemma_kept_all(before, gone);
}

/// Where no packet is marked, all stay.
pub proof fn lemma_kept_all<T>(items: Seq<T>, gone: Seq<bool>)
    requires
        items.len() == gone.len(),
        forall|j: int| 0 <= j < gone.len() ==> !gone[j],
    ensures
        kept(items, gone) == items,
    decreases items.len(),
{
    if items.len() > 0 {
        lemma_kept_all(items.drop_last(), gone.drop_last());
    }
}

/// No more packets stay than there were.
pub proof fn lemma_kept_at_most<T>(items: Seq<T>, gone: Seq<bool>)
    requires
        items.len() == gone.len(),
    ensures
        kept(items, gone).len() <= items.len(),
    decreases items.len(),
{
    if items.len() > 0 {
        lemma_kept_at_most(items.drop_last(), gone.drop_last());
    }
}

/// Retargeting: when a host moves, every packet headed for it is aimed at
/// the new place at once, and keeps where it started, where it is and how it
/// moves; every other packet keeps its destination too.
pub proof fn lemma_moved_retargets<P: Copy, V: Copy, S: Copy>(
    pre: EngineView<P, V, S>,
    ip: Address,
    point: P,
    k: int,
)
    requires
        0 <= k < pre.packets.len(),
    ensures
        pre.moved(ip, point).packets.len() == pre.packets.len(),
        pre.moved(ip, point).packets[k].graphics.dest == (if pre.packets[k].packet_data.dest == ip {
            point
        } else {
            pre.packets[k].graphics.dest
        }),
        pre.moved(ip, point).packets[k].graphics.src == pre.packets[k].graphics.src,
        pre.moved(ip, point).packets[k].graphics.pos == pre.packets[k].graphics.pos,
        pre.moved(ip, point).packets[k].graphics.velocity == pre.packets[k].graphics.velocity,
        pre.moved(ip, point).packets[k].packet_data == pre.packets[k].packet_data,
{
}

/// Retargeting on the same frame: while the button is held on a picked
/// host, the frame's drag aims every packet headed for that host at the
/// pointer before any packet moves.
pub proof fn lemma_dragged_retargets<P: Copy, V: Copy, S: Copy>(
    pre: EngineView<P, V, S>,
    pointer: P,
    k: int,
)
    requires
        pre.picked_node is Some,
        0 <= k < pre.packets.len(),
        pre.packets[k].packet_data.dest == pre.picked_node->0,
    ensures
        pre.dragged(true, pointer).packets[k] == pre.packets[k].aimed_at(pointer),
        pre.dragged(true, pointer).packets[k].graphics.dest == pointer,
        pre.dragged(true, pointer).packets[k].graphics.src == pre.packets[k].graphics.src,
        pre.dragged(true, pointer).packets[k].graphics.velocity == pre.packets[k].graphics.velocity,
{
}

/// Moving a host changes no record.
pub proof fn lemma_host_moved_records<P, S>(hosts: Seq<NodeView<P, S>>, ip: Address, point: P)
    requires
        distinct(hosts),
    ensures
        distinct(host_moved(hosts, ip, point)),
        registry_of(host_moved(hosts, ip, point)) == registry_of(hosts),
        forall|other: Address|
            registered(host_moved(hosts, ip, point), other) <==> registered(hosts, other),
{
    let after = host_moved(hosts, ip, point);
    assert forall|other: Address| registered(after, other) <==> registered(hosts, other) by {
        if registered(hosts, other) {
            let i = index_of(hosts, other);
            assert(after[i].data.ip == other);
        }
    }
}

/// When a registered host moves, it is then drawn at the new place with its
/// record as it was, no other host has moved, and the state stays valid.
pub proof fn lemma_moved_valid<P: Copy, V: Copy, S: Copy>(
    pre: EngineView<P, V, S>,
    ip: Address,
    point: P,
)
    requires
        pre.valid(),
        registered(pre.hosts, ip),
    ensures
        pre.moved(ip, point).valid(),
        host_of(pre.moved(ip, point).hosts, ip).graphics.pos == point,
        host_of(pre.moved(ip, point).hosts, ip).data == host_of(pre.hosts, ip).data,
        forall|other: Address|
            other != ip && registered(pre.hosts, other) ==> #[trigger] host_of(
                pre.moved(ip, point).hosts,
                other,
            ) == host_of(pre.hosts, other),
{
    lemma_host_moved_records(pre.hosts, ip, point);
}

/// Observing a packet keeps every host under its address and in its place
/// in the order, keeps every record balanced, and leaves both ends of the
/// packet registered.
pub proof fn lemma_observed_hosts<P, S>(
    hosts: Seq<NodeView<P, S>>,
    packet: IPPacketInfo,
    source_spot: P,
    dest_spot: P,
    radius: S,
)
    requires
        distinct(hosts),
        forall|i: int| 0 <= i < hosts.len() ==> (#[trigger] hosts[i]).data.balanced(),
    ensures
        hosts.len() <= observed(hosts, packet, source_spot, dest_spot, radius).len(),
        forall|i: int|
            0 <= i < hosts.len() ==> (#[trigger] observed(
                hosts,
                packet,
                source_spot,
                dest_spot,
                radius,
            )[i]).data.ip == hosts[i].data.ip && observed(
                hosts,
                packet,
                source_spot,
                dest_spot,
                radius,
            )[i].graphics == hosts[i].graphics,
        forall|i: int|
            0 <= i < observed(hosts, packet, source_spot, dest_spot, radius).len() ==> (
            #[trigger] observed(hosts, packet, source_spot, dest_spot, radius)[i]).data.balanced(),
        registered(observed(hosts, packet, source_spot, dest_spot, radius), packet.source),
        registered(observed(hosts, packet, source_spot, dest_spot, radius), packet.dest),
{
    let first = enrolled(hosts, packet.source, source_spot, radius);
    let both = enrolled(first, packet.dest, dest_spot, radius);
    let after = observed(hosts, packet, source_spot, dest_spot, radius);
    lemma_enrolled_once(hosts, packet.source, source_spot, radius);
    lemma_enrolled_once(first, packet.dest, dest_spot, radius);
    assert forall|i: int| 0 <= i < after.len() implies (#[trigger] after[i]).data.balanced() by {
        both[i].data.lemma_with_packet_balanced(packet);
    }
    let s = index_of(first, packet.source);
    assert(after[s].data.ip == packet.source);
    let d = index_of(both, packet.dest);
    assert(after[d].data.ip == packet.dest);
}

/// Whatever comes in, the engine's state stays valid: each address is
/// registered once, every record is balanced, and every packet in flight
/// travels between registered hosts.
pub proof fn lemma_accepted_valid<P: Copy, V: Copy, S: Copy>(
    pre: EngineView<P, V, S>,
    packet: IPPacketInfo,
    post: EngineView<P, V, S>,
)
    requires
        pre.valid(),
        accepted(pre, packet, post),
    ensures
        post.valid(),
{
    let (source_spot, dest_spot) = choose|source_spot: P, dest_spot: P|
        {
            let seen = #[trigger] pre.watched(packet, source_spot, dest_spot);
            ||| post == seen
            ||| seen.admits(packet) && exists|velocity: V|
                post == #[trigger] seen.launched(packet, velocity)
        };
    let seen = pre.watched(packet, source_spot, dest_spot);
    lemma_observed_hosts(pre.hosts, packet, source_spot, dest_spot, pre.node_radius);
    assert forall|k: int| 0 <= k < pre.packets.len() implies registered(
        seen.hosts,
        (#[trigger] pre.packets[k]).packet_data.source,
    ) && registered(seen.hosts, pre.packets[k].packet_data.dest) by {
        lemma_registered_extends(pre.hosts, seen.hosts, pre.packets[k].packet_data.source);
        lemma_registered_extends(pre.hosts, seen.hosts, pre.packets[k].packet_data.dest);
    }
    if let Some(ip) = pre.picked_node {
        lemma_registered_extends(pre.hosts, seen.hosts, ip);
    }
    if let Some(ip) = pre.tooltip_node {
        lemma_registered_extends(pre.hosts, seen.hosts, ip);
    }
}

/// An engine that starts with no hosts has, after any run, the records
/// that the packets of the run give from nothing: the totals of every host
/// are the sums over the packets it sent and the packets it received,
/// however few of them were shown.
pub proof fn lemma_drained_from_nothing<P: Copy, V: Copy, S: Copy>(
    trace: Seq<EngineView<P, V, S>>,
    batch: Seq<IPPacketInfo>,
    ip: Address,
)
    requires
        drained(trace, batch),
        trace[0].hosts.len() == 0,
    ensures
        trace.last().registry() == replayed(batch),
        record_of(trace.last().registry(), ip).stats == traffic(batch, ip),
{
    assert(trace[0].registry() =~= Map::<Address, NodeDataView>::empty());
    lemma_drained_records_all(trace, batch);
    lemma_replayed_totals(batch, ip);
}

/// A frame counts nothing and shows nothing new: it changes no record and
/// no setting, registers no host, and adds no packet in flight. The state
/// stays valid.
pub proof fn lemma_updated_keeps_records<
    P: Copy,
    V: Copy,
    S: Copy,
    C: Fn(&NodeGraphics<P, S>, &P) -> bool,
    M: Fn(&PacketGraphics<P, V>) -> (P, V),
    A: Fn(&PacketGraphics<P, V>, &S) -> bool,
    R: Fn(&PacketGraphics<P, V>) -> bool,
>(
    pre: EngineView<P, V, S>,
    pressed: bool,
    pointer: P,
    contains: C,
    steer: M,
    arrived: A,
    reversed: R,
    post: EngineView<P, V, S>,
)
    requires
        pre.valid(),
        updated(pre, pressed, pointer, contains, steer, arrived, reversed, post),
    ensures
        post.valid(),
        post.settings == pre.settings,
        post.registry() == pre.registry(),
        post.hosts.len() == pre.hosts.len(),
        post.packets.len() <= pre.packets.len(),
{
    if pre.settings.update {
        let aimed = pre.dragged(pressed, pointer);
        match pre.picked_node {
            Some(ip) if pressed => {
                lemma_host_moved_records(pre.hosts, ip, pointer);
            },
            _ => {},
        }
        let (hit, flown) = choose|hit: Option<Address>, flown: Seq<PacketEntity<P, V>>|
            #![trigger hit_by(aimed.hosts, pointer, contains, hit), steered(aimed.packets, steer, flown)]
            {
                &&& hit_by(aimed.hosts, pointer, contains, hit)
                &&& steered(aimed.packets, steer, flown)
                &&& culled(flown, aimed.settings.delete_distance, arrived, reversed, post.packets)
                &&& post == (EngineView { packets: post.packets, ..aimed.hovered(pressed, hit) })
            };
        let gone = choose|gone: Seq<bool>|
            #![auto]
            gone.len() == flown.len() && post.packets == kept(flown, gone) && forall|k: int|
                0 <= k < flown.len() ==> judged(
                    (#[trigger] flown[k]).graphics,
                    aimed.settings.delete_distance,
                    arrived,
                    reversed,
                    gone[k],
                );
        lemma_kept_at_most(flown, gone);
        assert forall|j: int| 0 <= j < post.packets.len() implies registered(
            post.hosts,
            (#[trigger] post.packets[j]).packet_data.source,
        ) && registered(post.hosts, post.packets[j].packet_data.dest) by {
            lemma_kept_members(flown, gone, j);
        }
    }
}

/// Arrival culling within a frame: a packet that, wherever this frame's
/// step takes it, can only be found to have arrived, is gone when the frame
/// ends, and the frame ends as it would have without that packet.
pub proof fn lemma_updated_arrival<
    P: Copy,
    V: Copy,
    S: Copy,
    C: Fn(&NodeGraphics<P, S>, &P) -> bool,
    M: Fn(&PacketGraphics<P, V>) -> (P, V),
    A: Fn(&PacketGraphics<P, V>, &S) -> bool,
    R: Fn(&PacketGraphics<P, V>) -> bool,
>(
    pre: EngineView<P, V, S>,
    pressed: bool,
    pointer: P,
    contains: C,
    steer: M,
    arrived: A,
    reversed: R,
    post: EngineView<P, V, S>,
    k: int,
)
    requires
        pre.settings.update,
        updated(pre, pressed, pointer, contains, steer, arrived, reversed, post),
        0 <= k < pre.packets.len(),
        forall|pos: P, velocity: V, answer: bool|
            steer.ensures((&pre.dragged(pressed, pointer).packets[k].graphics,), (pos, velocity))
                && #[trigger] arrived.ensures(
                (
                    &pre.dragged(pressed, pointer).packets[k].graphics.advanced(pos, velocity),
                    &pre.settings.delete_distance,
                ),
                answer,
            ) ==> answer,
    ensures
        post.packets.len() < pre.packets.len(),
        updated(pre.without_packet(k), pressed, pointer, contains, steer, arrived, reversed, post),
{
    let aimed = pre.dragged(pressed, pointer);
    let fewer = pre.without_packet(k);
    let aimed_fewer = fewer.dragged(pressed, pointer);
    let (hit, flown) = choose|hit: Option<Address>, flown: Seq<PacketEntity<P, V>>|
        #![trigger hit_by(aimed.hosts, pointer, contains, hit), steered(aimed.packets, steer, flown)]
        {
            &&& hit_by(aimed.hosts, pointer, contains, hit)
            &&& steered(aimed.packets, steer, flown)
            &&& culled(flown, aimed.settings.delete_distance, arrived, reversed, post.packets)
            &&& post == (EngineView { packets: post.packets, ..aimed.hovered(pressed, hit) })
        };
    let near = aimed.settings.delete_distance;
    lemma_culled_arrival(flown, near, arrived, reversed, post.packets, k);
    let flown_fewer = flown.remove(k);
    assert(steered(aimed_fewer.packets, steer, flown_fewer));
}

/// Whatever `spot` and `launch` answer, taking in a batch is a run of the
/// engine over it: some trace from `pre` to `post` is [`drained`], so that
/// the laws on runs hold of it.
pub proof fn lemma_took_drained<
    P: Copy,
    V: Copy,
    S: Copy,
    G: Fn() -> P,
    F: Fn(&P, &P, &S, &S) -> Option<V>,
>(
    pre: EngineView<P, V, S>,
    batch: Seq<IPPacketInfo>,
    spot: G,
    launch: F,
    post: EngineView<P, V, S>,
) -> (trace: Seq<EngineView<P, V, S>>)
    requires
        took(pre, batch, spot, launch, post),
    ensures
        drained(trace, batch),
        trace[0] == pre,
        trace.last() == post,
{
    let trace = choose|trace: Seq<EngineView<P, V, S>>|
        #![trigger trace.len()]
        {
            &&& trace.len() == batch.len() + 1
            &&& trace[0] == pre
            &&& trace[batch.len() as int] == post
            &&& forall|i: int|
                0 <= i < batch.len() ==> taken_in(
                    #[trigger] trace[i],
                    batch[i],
                    spot,
                    launch,
                    trace[i + 1],
                )
        };
    trace
}

} // verus!
