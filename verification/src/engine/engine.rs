//! The simulation engine: hosts, packets in flight, and what each frame does
//! to them.

use crate::address::Address;
use crate::address_map::AddressMap;
use crate::data::registry::{recorded, recorded_all};
use crate::data::IPPacketInfo;
use crate::engine::laws::{
    lemma_host_moved_records, lemma_observed_records, lemma_updated_keeps_records,
};
use crate::engine::model::{
    culled, enrolled, hit_by, host_moved, host_of, ingested, judged, kept, lemma_index_of,
    lemma_registered_extends, registered, retargeted, steered, taken_in, ticked, took, updated,
    EngineView,
};
use crate::engine::EngineSettings;
use crate::entities::{Node, NodeGraphics, NodeView, PacketEntity, PacketGraphics};
use vstd::pervasive::unreached;
use vstd::prelude::*;

verus! {

/// The engine: every host seen so far, the packets in flight between them,
/// and the host that the pointer holds or hovers over.
pub struct Engine<P, V, S> {
    settings: EngineSettings<S>,
    node_radius: S,
    nodes: Vec<Node<P, S>>,
    index: AddressMap<usize>,
    packets: Vec<PacketEntity<P, V>>,
    picked_node: Option<Address>,
    tooltip_node: Option<Address>,
}

impl<P: Copy, V: Copy, S: Copy> Engine<P, V, S> {
    /// The engine as plain mathematical values.
    pub closed spec fn view(&self) -> EngineView<P, V, S> {
        EngineView {
            settings: self.settings,
            node_radius: self.node_radius,
            hosts: self.nodes@.map_values(|node: Node<P, S>| node@),
            packets: self.packets@,
            picked_node: self.picked_node,
            tooltip_node: self.tooltip_node,
        }
    }

    /// The engine's invariant: its state is valid, every host is well
    /// formed, and the index finds each host by its address.
    pub closed spec fn wf(&self) -> bool {
        &&& self@.valid()
        &&& forall|i: int| 0 <= i < self.nodes.len() ==> (#[trigger] self.nodes@[i]).wf()
        &&& forall|ip: Address| #[trigger]
            self.index@.contains_key(ip) ==> self.index@[ip] < self.nodes.len()
                && self.nodes@[self.index@[ip] as int]@.data.ip == ip
        &&& forall|i: int|
            0 <= i < self.nodes.len() ==> self.index@.contains_key(
                (#[trigger] self.nodes@[i])@.data.ip,
            ) && self.index@[self.nodes@[i]@.data.ip] == i
    }

    /// The state of a well-formed engine is valid.
    pub proof fn lemma_wf_valid(&self)
        requires
            self.wf(),
        ensures
            self@.valid(),
    {
    }

    /// An engine with the given settings and no hosts yet. A host is drawn
    /// with `node_radius` once it is registered.
    pub fn new(settings: EngineSettings<S>, node_radius: S) -> (engine: Self)
        ensures
            engine.wf(),
            engine@ == (EngineView::<P, V, S> {
                settings,
                node_radius,
                hosts: Seq::empty(),
                packets: Seq::empty(),
                picked_node: None,
                tooltip_node: None,
            }),
    {
        let engine = Engine {
            settings,
            node_radius,
            nodes: Vec::new(),
            index: AddressMap::new(),
            packets: Vec::new(),
            picked_node: None,
            tooltip_node: None,
        };
        assert(engine@.hosts =~= Seq::<NodeView<P, S>>::empty());
        engine
    }

    /// How many packets are in flight.
    pub fn get_visible_packet_count(&self) -> (count: usize)
        ensures
            count == self@.packets.len(),
    {
        self.packets.len()
    }

    /// The settings in force.
    pub fn settings(&self) -> (settings: &EngineSettings<S>)
        ensures
            *settings == self@.settings,
    {
        &self.settings
    }

    /// The hosts, in the order in which they were registered.
    pub fn nodes(&self) -> (nodes: &Vec<Node<P, S>>)
        ensures
            nodes@.len() == self@.hosts.len(),
            forall|i: int| 0 <= i < nodes@.len() ==> (#[trigger] nodes@[i])@ == self@.hosts[i],
            self.wf() ==> forall|i: int| 0 <= i < nodes@.len() ==> (#[trigger] nodes@[i]).wf(),
    {
        &self.nodes
    }

    /// The packets in flight, oldest first.
    pub fn packets(&self) -> (packets: &Vec<PacketEntity<P, V>>)
        ensures
            packets@ == self@.packets,
    {
        &self.packets
    }

    /// The host that the pointer is dragging, if it drags one.
    pub fn picked_node(&self) -> (picked: Option<Address>)
        ensures
            picked == self@.picked_node,
    {
        self.picked_node
    }

    /// The host that the pointer is over, if it is over one.
    pub fn tooltip_node(&self) -> (tooltip: Option<Address>)
        ensures
            tooltip == self@.tooltip_node,
    {
        self.tooltip_node
    }

    /// The host `ip`, if it is registered.
    pub fn get_node(&self, ip: &Address) -> (found: Option<&Node<P, S>>)
        requires
            self.wf(),
        ensures
            match found {
                Some(node) => registered(self@.hosts, *ip) && node@ == host_of(self@.hosts, *ip)
                    && node.wf(),
                None => !registered(self@.hosts, *ip),
            },
    {
        proof {
            self.lemma_registry(*ip);
        }
        match self.index.get(ip) {
            Some(i) => {
                Some(&self.nodes[*i])
            },
            None => None,
        }
    }

    /// The host that the pointer is over, with its traffic record, if the
    /// pointer is over one.
    pub fn tooltip(&self) -> (found: Option<&Node<P, S>>)
        requires
            self.wf(),
        ensures
            match self@.tooltip_node {
                Some(ip) => found matches Some(node) && node@ == host_of(self@.hosts, ip)
                    && node.wf(),
                None => found is None,
            },
    {
        match self.tooltip_node {
            Some(ip) => self.get_node(&ip),
            None => None,
        }
    }

    /// The settings, to read or to change. Changing them changes nothing
    /// else about the engine.
    pub fn get_settings(&mut self) -> (settings: &mut EngineSettings<S>)
        ensures
            *settings == old(self)@.settings,
            final(self)@ == (EngineView { settings: *final(settings), ..old(self)@ }),
            old(self).wf() ==> final(self).wf(),
    {
        &mut self.settings
    }

    /// Finds the host `ip`, registering it at `spot` if it is new.
    fn enroll(&mut self, ip: Address, spot: P) -> (i: usize)
        requires
            old(self).wf(),
        ensures
            final(self).wf(),
            final(self)@ == (EngineView {
                hosts: enrolled(old(self)@.hosts, ip, spot, old(self)@.node_radius),
                ..old(self)@
            }),
            i < final(self)@.hosts.len(),
            final(self)@.hosts[i as int].data.ip == ip,
    {
        let found = match self.index.get(&ip) {
            Some(i) => Some(*i),
            None => None,
        };
        match found {
            Some(i) => i,
            None => {
                let i = self.nodes.len();
                self.nodes.push(Node::new(ip, &spot, self.node_radius));
                self.index.insert(ip, i);
                proof {
                    let before = old(self)@.hosts;
                    let after = before.push(NodeView::fresh(ip, spot, self.node_radius));
                    assert(self@.hosts =~= after);
                    assert forall|k: int| 0 <= k < self@.packets.len() implies registered(
                        self@.hosts,
                        (#[trigger] self@.packets[k]).packet_data.source,
                    ) && registered(self@.hosts, self@.packets[k].packet_data.dest) by {
                        lemma_registered_extends(before, after, self@.packets[k].packet_data.source);
                        lemma_registered_extends(before, after, self@.packets[k].packet_data.dest);
                    }
                    if let Some(picked) = self.picked_node {
                        lemma_registered_extends(before, after, picked);
                    }
                    if let Some(tooltip) = self.tooltip_node {
                        lemma_registered_extends(before, after, tooltip);
                    }
                }
                i
            },
        }
    }

    /// Counts `packet` for the host at place `i`, one of its two ends.
    fn count(&mut self, i: usize, packet: &IPPacketInfo)
        requires
            old(self).wf(),
            i < old(self)@.hosts.len(),
            packet.source == old(self)@.hosts[i as int].data.ip || packet.dest
                == old(self)@.hosts[i as int].data.ip,
            old(self)@.hosts[i as int].data.has_room(*packet),
        ensures
            final(self).wf(),
            final(self)@ == (EngineView {
                hosts: old(self)@.hosts.update(
                    i as int,
                    old(self)@.hosts[i as int].with_packet(*packet),
                ),
                ..old(self)@
            }),
    {
        let node = &mut self.nodes[i];
        node.add_packet(packet);
        proof {
            let before = old(self)@.hosts;
            let after = before.update(i as int, before[i as int].with_packet(*packet));
            assert(self@.hosts =~= after);
            self.nodes@[i as int].lemma_wf_balanced();
            assert forall|k: int| 0 <= k < self@.packets.len() implies registered(
                self@.hosts,
                (#[trigger] self@.packets[k]).packet_data.source,
            ) && registered(self@.hosts, self@.packets[k].packet_data.dest) by {
                lemma_registered_extends(before, after, self@.packets[k].packet_data.source);
                lemma_registered_extends(before, after, self@.packets[k].packet_data.dest);
            }
            if let Some(picked) = self.picked_node {
                lemma_registered_extends(before, after, picked);
            }
            if let Some(tooltip) = self.tooltip_node {
                lemma_registered_extends(before, after, tooltip);
            }
        }
    }

    /// Whether `packet` can be taken in without a counter overflowing.
    pub fn has_room(&self, packet: &IPPacketInfo) -> (room: bool)
        requires
            self.wf(),
        ensures
            room == self@.has_room(*packet),
    {
        proof {
            self.lemma_registry(packet.source);
            self.lemma_registry(packet.dest);
        }
        let source_room = match self.index.get(&packet.source) {
            Some(i) => self.nodes[*i].has_room(packet),
            None => true,
        };
        let dest_room = match self.index.get(&packet.dest) {
            Some(i) => self.nodes[*i].has_room(packet),
            None => true,
        };
        source_room && dest_room
    }

    /// The index and the registry agree: a host is indexed exactly when it
    /// is registered, and the index leads to its record.
    proof fn lemma_registry(&self, ip: Address)
        requires
            self.wf(),
        ensures
            self.index@.contains_key(ip) == registered(self@.hosts, ip),
            self.index@.contains_key(ip) == self@.registry().contains_key(ip),
            self.index@.contains_key(ip) ==> self@.registry()[ip]
                == self@.hosts[self.index@[ip] as int].data,
    {
    }

    /// Takes in one observed packet. The packet is counted for its source
    /// and for its destination, each of which is registered first if it is
    /// new, the source at `source_spot` and the destination at `dest_spot`.
    /// Then, if the simulation runs, fewer packets are in flight than may
    /// be, and the two hosts differ, `launch` is asked for a velocity and a
    /// packet takes off from the source towards the destination. Counting
    /// never depends on whether a packet takes off.
    pub fn add_packet<F>(&mut self, packet: &IPPacketInfo, source_spot: P, dest_spot: P, launch: F)
        where F: FnOnce(&P, &P, &S, &S) -> Option<V>
        requires
            old(self).wf(),
            old(self)@.has_room(*packet),
            forall|from: P, to: P, speed: S, angle: S|
                launch.requires((&from, &to, &speed, &angle)),
        ensures
            final(self).wf(),
            ingested(old(self)@, *packet, source_spot, dest_spot, launch, final(self)@),
            final(self)@.registry() == recorded(old(self)@.registry(), *packet),
            !old(self)@.admits(*packet) ==> final(self)@.packets == old(self)@.packets,
            final(self)@.packets.len() <= old(self)@.packets.len() || final(self)@.packets.len()
                <= old(self)@.settings.max_packets,
    {
        proof {
            lemma_observed_records(
                self@.hosts,
                *packet,
                source_spot,
                dest_spot,
                self@.node_radius,
            );
        }
        let s = self.enroll(packet.source, source_spot);
        let d = self.enroll(packet.dest, dest_spot);
        self.count(s, packet);
        if d != s {
            self.count(d, packet);
        }
        proof {
            let seen = old(self)@.watched(*packet, source_spot, dest_spot);
            assert(self@.hosts =~= seen.hosts);
            lemma_index_of(self@.hosts, s as int);
            lemma_index_of(self@.hosts, d as int);
        }
        if self.settings.update && self.packets.len() < self.settings.max_packets as usize
            && packet.source != packet.dest {
            let from = *self.nodes[s].get_position();
            let to = *self.nodes[d].get_position();
            match launch(&from, &to, &self.settings.speed_launch, &self.settings.angle_launch) {
                Some(velocity) => {
                    let ghost seen = self@;
                    self.packets.push(PacketEntity::new(packet, &from, &to, velocity));
                    proof {
                        assert(self@.packets =~= seen.launched(*packet, velocity).packets);
                    }
                },
                None => {},
            }
        }
    }

    /// Takes in the packets of `batch`, in order, each as
    /// [`Engine::add_packet`] does, with new hosts drawn where `spot` says.
    /// Stops before the first packet that would overflow a counter, and says
    /// how many packets it took in: all of them unless it stopped.
    pub fn ingest<G, F>(&mut self, batch: &Vec<IPPacketInfo>, spot: G, launch: F) -> (taken: usize)
        where G: Fn() -> P, F: Fn(&P, &P, &S, &S) -> Option<V>
        requires
            old(self).wf(),
            spot.requires(()),
            forall|from: P, to: P, speed: S, angle: S|
                launch.requires((&from, &to, &speed, &angle)),
        ensures
            final(self).wf(),
            taken <= batch.len(),
            took(old(self)@, batch@.take(taken as int), spot, launch, final(self)@),
            taken < batch.len() ==> !final(self)@.has_room(batch[taken as int]),
            final(self)@.registry() == recorded_all(
                old(self)@.registry(),
                batch@.take(taken as int),
            ),
            final(self)@.packets.len() <= old(self)@.packets.len() || final(self)@.packets.len()
                <= old(self)@.settings.max_packets,
            final(self)@.settings == old(self)@.settings,
    {
        let ghost mut trace: Seq<EngineView<P, V, S>> = seq![self@];
        let mut i: usize = 0;
        while i < batch.len()
            invariant
                i <= batch.len(),
                self.wf(),
                spot.requires(()),
                forall|from: P, to: P, speed: S, angle: S|
                    launch.requires((&from, &to, &speed, &angle)),
                trace.len() == i + 1,
                trace[0] == old(self)@,
                trace[i as int] == self@,
                forall|j: int|
                    0 <= j < i ==> taken_in(
                        #[trigger] trace[j],
                        batch@[j],
                        spot,
                        launch,
                        trace[j + 1],
                    ),
                self@.registry() == recorded_all(old(self)@.registry(), batch@.take(i as int)),
                self@.packets.len() <= old(self)@.packets.len() || self@.packets.len()
                    <= old(self)@.settings.max_packets,
                self@.settings == old(self)@.settings,
            decreases batch.len() - i,
        {
            if !self.has_room(&batch[i]) {
                return i;
            }
            let ghost before = self@;
            let source_spot = spot();
            let dest_spot = spot();
            self.add_packet(&batch[i], source_spot, dest_spot, &launch);
            proof {
                assert(ingested(before, batch@[i as int], source_spot, dest_spot, launch, self@));
                let longer = trace.push(self@);
                trace = longer;
                assert(batch@.take(i + 1).drop_last() =~= batch@.take(i as int));
            }
            i = i + 1;
        }
        i
    }

    /// The place of the registered host `ip` among the hosts.
    fn place_of(&self, ip: &Address) -> (i: usize)
        requires
            self.wf(),
            registered(self@.hosts, *ip),
        ensures
            i < self@.hosts.len(),
            self@.hosts[i as int].data.ip == *ip,
    {
        match self.index.get(ip) {
            Some(i) => *i,
            None => unreached(),
        }
    }

    /// Moves the registered host `ip` to `point`, and aims every packet that
    /// is headed for it at `point`. Such a packet keeps where it started,
    /// where it is and how it moves; all other packets stay as they are.
    pub fn move_node(&mut self, ip: &Address, point: &P)
        requires
            old(self).wf(),
            registered(old(self)@.hosts, *ip),
        ensures
            final(self).wf(),
            final(self)@ == old(self)@.moved(*ip, *point),
            final(self)@.registry() == old(self)@.registry(),
    {
        proof {
            lemma_host_moved_records(self@.hosts, *ip, *point);
        }
        let i = self.place_of(ip);
        let node = &mut self.nodes[i];
        node.move_to(point);
        retarget(&mut self.packets, ip, point);
        proof {
            let before = old(self)@.hosts;
            let after = host_moved(before, *ip, *point);
            assert(self@.hosts =~= after);
        }
    }

    /// The first host, in the order of registration, that `contains`
    /// reports `pointer` to be in.
    pub fn hit_test<C>(&self, pointer: &P, contains: C) -> (hit: Option<Address>)
        where C: Fn(&NodeGraphics<P, S>, &P) -> bool
        requires
            self.wf(),
            forall|graphics: NodeGraphics<P, S>, point: P| contains.requires((&graphics, &point)),
        ensures
            hit_by(self@.hosts, *pointer, contains, hit),
            hit matches Some(ip) ==> registered(self@.hosts, ip),
    {
        let mut i: usize = 0;
        while i < self.nodes.len()
            invariant
                i <= self.nodes.len(),
                forall|graphics: NodeGraphics<P, S>, point: P|
                    contains.requires((&graphics, &point)),
                forall|j: int|
                    0 <= j < i ==> contains.ensures(
                        (&(#[trigger] self@.hosts[j]).graphics, pointer),
                        false,
                    ),
            decreases self.nodes.len() - i,
        {
            if contains(self.nodes[i].graphics(), pointer) {
                let ip = self.nodes[i].ip();
                proof {
                    assert(self@.hosts[i as int].data.ip == ip);
                }
                return Some(ip);
            }
            i = i + 1;
        }
        None
    }

    /// One frame. While the simulation does not run, nothing happens.
    /// Otherwise: if the button is `pressed` and a host is picked, that host
    /// moves to `pointer` and the packets headed for it are aimed there,
    /// else no host is picked any more; the first host that `contains`
    /// reports the pointer to be in gets the tooltip, and is picked if the
    /// button is pressed and no host is; every packet moves as `steer` says;
    /// and every packet that `arrived` reports to be within the arrival
    /// distance of its destination, or that `reversed` reports to have
    /// turned back, is taken out.
    pub fn update<C, M, A, R>(
        &mut self,
        pressed: bool,
        pointer: P,
        contains: C,
        steer: M,
        arrived: A,
        reversed: R,
    ) where
        C: Fn(&NodeGraphics<P, S>, &P) -> bool,
        M: Fn(&PacketGraphics<P, V>) -> (P, V),
        A: Fn(&PacketGraphics<P, V>, &S) -> bool,
        R: Fn(&PacketGraphics<P, V>) -> bool,

        requires
            old(self).wf(),
            forall|graphics: NodeGraphics<P, S>, point: P| contains.requires((&graphics, &point)),
            forall|packet: PacketGraphics<P, V>| steer.requires((&packet,)),
            forall|packet: PacketGraphics<P, V>, near: S| arrived.requires((&packet, &near)),
            forall|packet: PacketGraphics<P, V>| reversed.requires((&packet,)),
        ensures
            final(self).wf(),
            updated(old(self)@, pressed, pointer, contains, steer, arrived, reversed, final(self)@),
            final(self)@.registry() == old(self)@.registry(),
            final(self)@.packets.len() <= old(self)@.packets.len(),
    {
        if !self.settings.update {
            return ;
        }
        match self.picked_node {
            Some(ip) if pressed => {
                self.move_node(&ip, &pointer);
            },
            _ => {
                self.picked_node = None;
            },
        }
        let hit = self.hit_test(&pointer, contains);
        if self.picked_node.is_none() && pressed {
            self.picked_node = hit;
        }
        self.tooltip_node = hit;
        fly(&mut self.packets, steer);
        let ghost flown = self@.packets;
        cull(&mut self.packets, &self.settings.delete_distance, arrived, reversed);
        proof {
            let gone = choose|gone: Seq<bool>|
                #![auto]
                gone.len() == flown.len() && self@.packets == kept(flown, gone) && forall|k: int|
                    0 <= k < flown.len() ==> judged(
                        (#[trigger] flown[k]).graphics,
                        self.settings.delete_distance,
                        arrived,
                        reversed,
                        gone[k],
                    );
            lemma_updated_keeps_records(
                old(self)@,
                pressed,
                pointer,
                contains,
                steer,
                arrived,
                reversed,
                self@,
            );
        }
    }

    /// One whole frame: the packets of `batch` come in, in order, as
    /// [`Engine::ingest`] takes them, and then the frame goes on as
    /// [`Engine::update`] says. If a packet would overflow a counter, the
    /// frame ends before that packet, with nothing moved. Says how many
    /// packets were taken in.
    pub fn tick<G, F, C, M, A, R>(
        &mut self,
        batch: &Vec<IPPacketInfo>,
        spot: G,
        launch: F,
        pressed: bool,
        pointer: P,
        contains: C,
        steer: M,
        arrived: A,
        reversed: R,
    ) -> (taken: usize) where
        G: Fn() -> P,
        F: Fn(&P, &P, &S, &S) -> Option<V>,
        C: Fn(&NodeGraphics<P, S>, &P) -> bool,
        M: Fn(&PacketGraphics<P, V>) -> (P, V),
        A: Fn(&PacketGraphics<P, V>, &S) -> bool,
        R: Fn(&PacketGraphics<P, V>) -> bool,

        requires
            old(self).wf(),
            spot.requires(()),
            forall|from: P, to: P, speed: S, angle: S|
                launch.requires((&from, &to, &speed, &angle)),
            forall|graphics: NodeGraphics<P, S>, point: P| contains.requires((&graphics, &point)),
            forall|packet: PacketGraphics<P, V>| steer.requires((&packet,)),
            forall|packet: PacketGraphics<P, V>, near: S| arrived.requires((&packet, &near)),
            forall|packet: PacketGraphics<P, V>| reversed.requires((&packet,)),
        ensures
            final(self).wf(),
            ticked(
                old(self)@,
                batch@,
                spot,
                launch,
                pressed,
                pointer,
                contains,
                steer,
                arrived,
                reversed,
                taken as int,
                final(self)@,
            ),
            final(self)@.registry() == recorded_all(
                old(self)@.registry(),
                batch@.take(taken as int),
            ),
            final(self)@.packets.len() <= old(self)@.packets.len() || final(self)@.packets.len()
                <= old(self)@.settings.max_packets,
    {
        let taken = self.ingest(batch, spot, launch);
        if taken == batch.len() {
            self.update(pressed, pointer, contains, steer, arrived, reversed);
        }
        taken
    }
}

/// Aims every packet that is headed for the host `ip` at `point`.
fn retarget<P: Copy, V: Copy>(packets: &mut Vec<PacketEntity<P, V>>, ip: &Address, point: &P)
    ensures
        final(packets)@ == retargeted(old(packets)@, *ip, *point),
{
    let mut k: usize = 0;
    while k < packets.len()
        invariant
            k <= packets.len(),
            packets.len() == old(packets).len(),
            forall|j: int| 0 <= j < k ==> packets@[j] == retargeted(old(packets)@, *ip, *point)[j],
            forall|j: int| k <= j < packets.len() ==> packets@[j] == old(packets)@[j],
        decreases packets.len() - k,
    {
        if *packets[k].get_ip_dest() == *ip {
            let packet = &mut packets[k];
            packet.set_destination(point);
        }
        k = k + 1;
    }
}

/// Moves every packet one step, as `steer` says.
fn fly<P: Copy, V: Copy, M>(packets: &mut Vec<PacketEntity<P, V>>, steer: M)
    where M: Fn(&PacketGraphics<P, V>) -> (P, V)
    requires
        forall|packet: PacketGraphics<P, V>| steer.requires((&packet,)),
    ensures
        steered(old(packets)@, steer, final(packets)@),
{
    let mut k: usize = 0;
    while k < packets.len()
        invariant
            k <= packets.len(),
            packets.len() == old(packets).len(),
            forall|packet: PacketGraphics<P, V>| steer.requires((&packet,)),
            forall|j: int|
                0 <= j < k ==> steer.ensures(
                    (&old(packets)@[j].graphics,),
                    ((#[trigger] packets@[j]).graphics.pos, packets@[j].graphics.velocity),
                ) && packets@[j] == old(packets)@[j].advanced(
                    packets@[j].graphics.pos,
                    packets@[j].graphics.velocity,
                ),
            forall|j: int| k <= j < packets.len() ==> packets@[j] == old(packets)@[j],
        decreases packets.len() - k,
    {
        let (pos, velocity) = steer(&packets[k].graphics);
        let packet = &mut packets[k];
        packet.advance(pos, velocity);
        k = k + 1;
    }
}

/// Takes out every packet that has arrived or has turned back.
fn cull<P: Copy, V: Copy, S, A, R>(
    packets: &mut Vec<PacketEntity<P, V>>,
    near: &S,
    arrived: A,
    reversed: R,
) where A: Fn(&PacketGraphics<P, V>, &S) -> bool, R: Fn(&PacketGraphics<P, V>) -> bool
    requires
        forall|packet: PacketGraphics<P, V>, near: S| arrived.requires((&packet, &near)),
        forall|packet: PacketGraphics<P, V>| reversed.requires((&packet,)),
    ensures
        culled(old(packets)@, *near, arrived, reversed, final(packets)@),
{
    let count = packets.len();
    let ghost mut gone: Seq<bool> = Seq::empty();
    let mut staying: usize = 0;
    let mut k: usize = 0;
    while k < count
        invariant
            staying <= k <= count,
            count == packets.len(),
            count == old(packets).len(),
            gone.len() == k,
            forall|packet: PacketGraphics<P, V>, near: S| arrived.requires((&packet, &near)),
            forall|packet: PacketGraphics<P, V>| reversed.requires((&packet,)),
            forall|j: int|
                0 <= j < k ==> judged(
                    (#[trigger] old(packets)@[j]).graphics,
                    *near,
                    arrived,
                    reversed,
                    gone[j],
                ),
            packets@.take(staying as int) == kept(old(packets)@.take(k as int), gone),
            forall|j: int| k <= j < count ==> packets@[j] == old(packets)@[j],
        decreases count - k,
    {
        let packet = packets[k];
        let leaves = arrived(&packet.graphics, near) || reversed(&packet.graphics);
        proof {
            let items = old(packets)@.take(k + 1);
            assert(items.drop_last() =~= old(packets)@.take(k as int));
            assert(gone.push(leaves).drop_last() =~= gone);
            gone = gone.push(leaves);
        }
        if !leaves {
            packets.set(staying, packet);
            staying = staying + 1;
        }
        k = k + 1;
    }
    packets.truncate(staying);
    proof {
        assert(old(packets)@.take(count as int) =~= old(packets)@);
    }
}

} // verus!
