//! The host registry as a mathematical map, and what holds of it after any
//! sequence of observed packets.

use crate::address::Address;
use crate::data::node_data::{share, NodeDataView};
use crate::data::tally::Tally;
use crate::data::IPPacketInfo;
use vstd::prelude::*;

verus! {

/// The record kept for `ip`: a fresh one if the registry does not hold it.
pub open spec fn record_of(hosts: Map<Address, NodeDataView>, ip: Address) -> NodeDataView {
    if hosts.contains_key(ip) {
        hosts[ip]
    } else {
        NodeDataView::fresh(ip)
    }
}

/// The registry after `packet` is counted for the host `ip`, which is
/// registered on the way if it was not yet.
pub open spec fn attributed(
    hosts: Map<Address, NodeDataView>,
    ip: Address,
    packet: IPPacketInfo,
) -> Map<Address, NodeDataView> {
    hosts.insert(ip, record_of(hosts, ip).with_packet(packet))
}

/// The registry after `packet` is recorded: counted for its source and for
/// its destination, once where the two are the same host.
pub open spec fn recorded(hosts: Map<Address, NodeDataView>, packet: IPPacketInfo) -> Map<
    Address,
    NodeDataView,
> {
    let first = attributed(hosts, packet.source, packet);
    if packet.dest == packet.source {
        first
    } else {
        attributed(first, packet.dest, packet)
    }
}

/// Whether the counters of both ends of `packet` can take it without overflow.
pub open spec fn has_room(hosts: Map<Address, NodeDataView>, packet: IPPacketInfo) -> bool {
    &&& record_of(hosts, packet.source).has_room(packet)
    &&& record_of(hosts, packet.dest).has_room(packet)
}

/// Every record is filed under its own address and is balanced.
pub open spec fn consistent(hosts: Map<Address, NodeDataView>) -> bool {
    forall|ip: Address|
        hosts.contains_key(ip) ==> (#[trigger] hosts[ip]).ip == ip && hosts[ip].balanced()
}

/// The registry after the packets of `history` are recorded in order,
/// starting from `hosts`.
pub open spec fn recorded_all(hosts: Map<Address, NodeDataView>, history: Seq<IPPacketInfo>) -> Map<
    Address,
    NodeDataView,
>
    decreases history.len(),
{
    if history.len() == 0 {
        hosts
    } else {
        recorded(recorded_all(hosts, history.drop_last()), history.last())
    }
}

/// The registry after the packets of `history` are recorded in order,
/// starting from no hosts at all.
pub open spec fn replayed(history: Seq<IPPacketInfo>) -> Map<Address, NodeDataView> {
    recorded_all(Map::empty(), history)
}

/// What the packets of `history` add up to for the host `ip`: sent where it
/// is the source, received where it is the destination.
pub open spec fn traffic(history: Seq<IPPacketInfo>, ip: Address) -> Tally
    decreases history.len(),
{
    if history.len() == 0 {
        Tally::zero()
    } else {
        traffic(history.drop_last(), ip).plus(share(history.last(), ip))
    }
}

/// Whether `ip` is an end of some packet of `history`.
pub open spec fn mentioned(history: Seq<IPPacketInfo>, ip: Address) -> bool {
    exists|i: int|
        0 <= i < history.len() && ((#[trigger] history[i]).source == ip || history[i].dest == ip)
}

/// Recording a packet registers its two ends and no other host: a host that
/// was registered already is not registered again.
pub proof fn lemma_recorded_hosts(hosts: Map<Address, NodeDataView>, packet: IPPacketInfo)
    ensures
        recorded(hosts, packet).dom() == hosts.dom().insert(packet.source).insert(packet.dest),
{
}

/// Recording a packet adds the packet's share to the totals of every host,
/// and nothing else: the totals of a host at neither end stay as they are.
pub proof fn lemma_recorded_totals(
    hosts: Map<Address, NodeDataView>,
    packet: IPPacketInfo,
    ip: Address,
)
    requires
        consistent(hosts),
    ensures
        record_of(recorded(hosts, packet), ip).stats == record_of(hosts, ip).stats.plus(
            share(packet, ip),
        ),
        record_of(recorded(hosts, packet), ip).ip == ip,
{
}

/// Recording a packet keeps every record filed under its own address and
/// balanced: the totals stay the sum of the per-peer counters.
pub proof fn lemma_recorded_consistent(hosts: Map<Address, NodeDataView>, packet: IPPacketInfo)
    requires
        consistent(hosts),
    ensures
        consistent(recorded(hosts, packet)),
{
    let first = attributed(hosts, packet.source, packet);
    record_of(hosts, packet.source).lemma_with_packet_balanced(packet);
    if packet.dest != packet.source {
        record_of(first, packet.dest).lemma_with_packet_balanced(packet);
    }
}

/// Whatever packets are recorded, every record stays filed under its own
/// address and its totals stay the elementwise sum of its per-peer counters.
pub proof fn lemma_recorded_all_consistent(
    hosts: Map<Address, NodeDataView>,
    history: Seq<IPPacketInfo>,
)
    requires
        consistent(hosts),
    ensures
        consistent(recorded_all(hosts, history)),
    decreases history.len(),
{
    if history.len() > 0 {
        lemma_recorded_all_consistent(hosts, history.drop_last());
        lemma_recorded_consistent(recorded_all(hosts, history.drop_last()), history.last());
    }
}

/// Whatever packets are recorded, the totals of a host grow by exactly what
/// the packets add up to for it: every packet it sent and every packet it
/// received is counted, with its payload length, once.
pub proof fn lemma_recorded_all_totals(
    hosts: Map<Address, NodeDataView>,
    history: Seq<IPPacketInfo>,
    ip: Address,
)
    requires
        consistent(hosts),
    ensures
        record_of(recorded_all(hosts, history), ip).stats == record_of(hosts, ip).stats.plus(
            traffic(history, ip),
        ),
    decreases history.len(),
{
    if history.len() > 0 {
        lemma_recorded_all_totals(hosts, history.drop_last(), ip);
        lemma_recorded_all_consistent(hosts, history.drop_last());
    }
}

/// Whatever packets are recorded, the registry then holds the hosts it held
/// and those that are an end of some packet, each under one key however
/// often it occurred.
pub proof fn lemma_recorded_all_hosts(
    hosts: Map<Address, NodeDataView>,
    history: Seq<IPPacketInfo>,
    ip: Address,
)
    ensures
        recorded_all(hosts, history).contains_key(ip) <==> hosts.contains_key(ip) || mentioned(
            history,
            ip,
        ),
    decreases history.len(),
{
    if history.len() > 0 {
        let before = history.drop_last();
        lemma_recorded_all_hosts(hosts, before, ip);
        if mentioned(history, ip) {
            let i = choose|i: int|
                0 <= i < history.len() && ((#[trigger] history[i]).source == ip || history[i].dest
                    == ip);
            if i < before.len() {
                assert(before[i] == history[i]);
            }
        }
    }
}

/// Starting from no hosts, after any sequence of packets every record is
/// filed under its own address and its totals are the elementwise sum of
/// its per-peer counters.
pub proof fn lemma_replayed_consistent(history: Seq<IPPacketInfo>)
    ensures
        consistent(replayed(history)),
{
    lemma_recorded_all_consistent(Map::empty(), history);
}

/// Starting from no hosts, after any sequence of packets the totals of a
/// host are exactly what the packets add up to for it.
pub proof fn lemma_replayed_totals(history: Seq<IPPacketInfo>, ip: Address)
    ensures
        record_of(replayed(history), ip).stats == traffic(history, ip),
{
    lemma_recorded_all_totals(Map::empty(), history, ip);
}

/// Starting from no hosts, after any sequence of packets the registry holds
/// exactly the hosts that are an end of some packet.
pub proof fn lemma_replayed_hosts(history: Seq<IPPacketInfo>, ip: Address)
    ensures
        replayed(history).contains_key(ip) <==> mentioned(history, ip),
{
    lemma_recorded_all_hosts(Map::empty(), history, ip);
}

/// The bytes that the packets of `history` add up to as sent by the host
/// `ip` are the payload lengths of the packets that name it as source, and
/// likewise for the bytes received and the packets that name it as
/// destination; the packet counts are the numbers of those packets.
pub proof fn lemma_traffic_step(history: Seq<IPPacketInfo>, packet: IPPacketInfo, ip: Address)
    ensures
        traffic(history.push(packet), ip).bytes_sent == traffic(history, ip).bytes_sent + (
        if packet.source == ip {
            packet.payload_len as int
        } else {
            0
        }),
        traffic(history.push(packet), ip).bytes_recv == traffic(history, ip).bytes_recv + (
        if packet.dest == ip {
            packet.payload_len as int
        } else {
            0
        }),
        traffic(history.push(packet), ip).packets_sent == traffic(history, ip).packets_sent + (
        if packet.source == ip {
            1int
        } else {
            0
        }),
        traffic(history.push(packet), ip).packets_recv == traffic(history, ip).packets_recv + (
        if packet.dest == ip {
            1int
        } else {
            0
        }),
{
    assert(history.push(packet).drop_last() =~= history);
}

} // verus!
