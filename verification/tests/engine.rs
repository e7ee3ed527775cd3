use traffic_engine::address::Address;
use traffic_engine::data::{IPPacketInfo, Statistics};
use traffic_engine::engine::{Engine, EngineSettings};
use traffic_engine::entities::{Node, NodeGraphics, PacketEntity, PacketGraphics};

type Point = (f32, f32);
type Vector = (f32, f32);
type Sim = Engine<Point, Vector, f32>;

const A: Address = Address::V4(0x0a00_0001);
const B: Address = Address::V4(0x0a00_0002);
const C: Address = Address::V6(3);

fn packet(source: Address, dest: Address, payload_len: u16) -> IPPacketInfo {
    IPPacketInfo { source, dest, payload_len }
}

fn stats(sent: u32, bytes_sent: u64, recv: u32, bytes_recv: u64) -> Statistics {
    Statistics {
        packet_count_recv: recv,
        packet_count_sent: sent,
        packet_bytes_sent: bytes_sent,
        packet_bytes_recv: bytes_recv,
    }
}

fn distance(a: &Point, b: &Point) -> f32 {
    ((a.0 - b.0).powi(2) + (a.1 - b.1).powi(2)).sqrt()
}

fn unit(a: &Point, b: &Point) -> Vector {
    let d = distance(a, b);
    ((b.0 - a.0) / d, (b.1 - a.1) / d)
}

// Launch straight at the destination; no direction where the two coincide.
fn launch(from: &Point, to: &Point, speed: &f32, _angle: &f32) -> Option<Vector> {
    if distance(from, to) == 0.0 {
        None
    } else {
        let u = unit(from, to);
        Some((u.0 * speed, u.1 * speed))
    }
}

fn contains(graphics: &NodeGraphics<Point, f32>, point: &Point) -> bool {
    distance(&graphics.pos, point) < graphics.radius
}

// Straight flight: one velocity per frame.
fn steer(flight: &PacketGraphics<Point, Vector>) -> (Point, Vector) {
    ((flight.pos.0 + flight.velocity.0, flight.pos.1 + flight.velocity.1), flight.velocity)
}

fn arrived(flight: &PacketGraphics<Point, Vector>, near: &f32) -> bool {
    distance(&flight.pos, &flight.dest) < *near
}

fn reversed(flight: &PacketGraphics<Point, Vector>) -> bool {
    let now = unit(&flight.pos, &flight.dest);
    let axis = unit(&flight.src, &flight.dest);
    now.0 * axis.0 + now.1 * axis.1 < 0.0
}

fn never(_flight: &PacketGraphics<Point, Vector>) -> bool {
    false
}

fn sim(max_packets: u32) -> Sim {
    let mut settings = EngineSettings::new(0.0, 2.0, 8.0);
    settings.max_packets = max_packets;
    Engine::new(settings, 10.0)
}

fn tick(engine: &mut Sim, pressed: bool, pointer: Point) {
    engine.update(pressed, pointer, contains, steer, arrived, reversed);
}

fn node<'a>(engine: &'a Sim, ip: &Address) -> &'a Node<Point, f32> {
    engine.get_node(ip).unwrap()
}

#[test]
fn default_settings() {
    let settings: EngineSettings<f32> = EngineSettings::new(0.1, 1.5, 8.0);
    assert!(settings.update);
    assert!(!settings.draw_debug);
    assert_eq!(settings.max_packets, 10000);
    assert_eq!(settings.angle_launch, 0.1);
    assert_eq!(settings.speed_launch, 1.5);
    assert_eq!(settings.delete_distance, 8.0);
}

#[test]
fn new_engine_is_empty() {
    let engine = sim(5);
    assert_eq!(engine.get_visible_packet_count(), 0);
    assert_eq!(engine.nodes().len(), 0);
    assert_eq!(engine.packets().len(), 0);
    assert_eq!(engine.picked_node(), None);
    assert_eq!(engine.tooltip_node(), None);
    assert!(engine.get_node(&A).is_none());
    assert_eq!(engine.settings().max_packets, 5);
}

#[test]
fn two_way_exchange() {
    let mut engine = sim(100);
    assert!(engine.has_room(&packet(A, B, 100)));
    engine.add_packet(&packet(A, B, 100), (0.0, 0.0), (100.0, 0.0), launch);
    engine.add_packet(&packet(B, A, 50), (7.0, 7.0), (9.0, 9.0), launch);
    assert_eq!(node(&engine, &A).data().stats(), stats(1, 100, 1, 50));
    assert_eq!(node(&engine, &B).data().stats(), stats(1, 50, 1, 100));
    assert_eq!(engine.get_visible_packet_count(), 2);
    assert_eq!(engine.nodes().len(), 2);
    // The hosts stay where they were first drawn.
    assert_eq!(*node(&engine, &A).get_position(), (0.0, 0.0));
    assert_eq!(*node(&engine, &B).get_position(), (100.0, 0.0));
    let first: &PacketEntity<Point, Vector> = &engine.packets()[0];
    assert_eq!(*first.get_ip_source(), A);
    assert_eq!(*first.get_ip_dest(), B);
    assert_eq!(*first.get_source(), (0.0, 0.0));
    assert_eq!(*first.get_position(), (0.0, 0.0));
    assert_eq!(*first.get_destination(), (100.0, 0.0));
    assert_eq!(first.graphics.velocity, (2.0, 0.0));
    let second = &engine.packets()[1];
    assert_eq!(*second.get_ip_source(), B);
    assert_eq!(*second.get_ip_dest(), A);
    assert_eq!(*second.get_source(), (100.0, 0.0));
    assert_eq!(*second.get_destination(), (0.0, 0.0));
    assert_eq!(second.graphics.velocity, (-2.0, 0.0));
}

#[test]
fn an_address_is_registered_once() {
    let mut engine = sim(100);
    engine.add_packet(&packet(A, B, 1), (0.0, 0.0), (50.0, 0.0), launch);
    engine.add_packet(&packet(C, A, 1), (0.0, 50.0), (99.0, 99.0), launch);
    engine.add_packet(&packet(B, C, 1), (98.0, 98.0), (97.0, 97.0), launch);
    assert_eq!(engine.nodes().len(), 3);
    let order: Vec<Address> = engine.nodes().iter().map(|n| n.ip()).collect();
    assert_eq!(order, vec![A, B, C]);
    assert_eq!(*node(&engine, &A).get_position(), (0.0, 0.0));
    assert_eq!(*node(&engine, &B).get_position(), (50.0, 0.0));
    assert_eq!(*node(&engine, &C).get_position(), (0.0, 50.0));
    assert_eq!(*node(&engine, &A).graphics().get_radius(), 10.0);
    assert_eq!(node(&engine, &A).data().stats(), stats(1, 1, 1, 1));
}

#[test]
fn no_packets_shown_with_a_cap_of_zero() {
    let mut engine = sim(0);
    for n in 0..25u16 {
        engine.add_packet(&packet(A, B, n), (0.0, 0.0), (100.0, 0.0), launch);
        assert_eq!(engine.get_visible_packet_count(), 0);
        tick(&mut engine, false, (500.0, 500.0));
        assert_eq!(engine.get_visible_packet_count(), 0);
    }
    assert_eq!(node(&engine, &A).data().stats(), stats(25, 300, 0, 0));
    assert_eq!(node(&engine, &B).data().stats(), stats(0, 0, 25, 300));
    assert_eq!(node(&engine, &A).data().sent_to(&B), Some(stats(25, 300, 0, 0)));
}

#[test]
fn cap_holds_and_counting_goes_on() {
    let mut engine = sim(3);
    for n in 0..10u16 {
        engine.add_packet(&packet(A, B, 10), (0.0, 0.0), (1000.0, 0.0), launch);
        assert_eq!(engine.get_visible_packet_count(), usize::min(n as usize + 1, 3));
    }
    assert_eq!(node(&engine, &A).data().stats(), stats(10, 100, 0, 0));
    assert_eq!(node(&engine, &B).data().stats(), stats(0, 0, 10, 100));
    // Raising the cap admits packets again.
    engine.get_settings().max_packets = 4;
    engine.add_packet(&packet(A, B, 10), (0.0, 0.0), (1000.0, 0.0), launch);
    engine.add_packet(&packet(A, B, 10), (0.0, 0.0), (1000.0, 0.0), launch);
    assert_eq!(engine.get_visible_packet_count(), 4);
    // Lowering it takes no packet out, and lets none in.
    engine.get_settings().max_packets = 1;
    engine.add_packet(&packet(A, B, 10), (0.0, 0.0), (1000.0, 0.0), launch);
    assert_eq!(engine.get_visible_packet_count(), 4);
    assert_eq!(node(&engine, &A).data().stats(), stats(13, 130, 0, 0));
}

#[test]
fn paused_engine_counts_but_shows_nothing() {
    let mut engine = sim(100);
    engine.add_packet(&packet(A, B, 5), (0.0, 0.0), (100.0, 0.0), launch);
    engine.get_settings().update = false;
    engine.add_packet(&packet(A, B, 6), (0.0, 0.0), (100.0, 0.0), launch);
    assert_eq!(engine.get_visible_packet_count(), 1);
    assert_eq!(node(&engine, &A).data().stats(), stats(2, 11, 0, 0));
    // A paused frame moves nothing and picks nothing.
    tick(&mut engine, true, (0.0, 0.0));
    assert_eq!(*engine.packets()[0].get_position(), (0.0, 0.0));
    assert_eq!(engine.picked_node(), None);
    assert_eq!(engine.tooltip_node(), None);
    engine.get_settings().update = true;
    tick(&mut engine, false, (500.0, 500.0));
    assert_eq!(*engine.packets()[0].get_position(), (2.0, 0.0));
}

#[test]
fn self_traffic_is_counted_and_not_shown() {
    let mut engine = sim(100);
    engine.add_packet(&packet(A, A, 9), (1.0, 1.0), (2.0, 2.0), launch);
    assert_eq!(engine.nodes().len(), 1);
    assert_eq!(engine.get_visible_packet_count(), 0);
    assert_eq!(node(&engine, &A).data().stats(), stats(1, 9, 1, 9));
    assert_eq!(*node(&engine, &A).get_position(), (1.0, 1.0));
}

#[test]
fn no_launch_without_a_direction() {
    let mut engine = sim(100);
    // Two hosts drawn on the same spot: counted, not shown.
    engine.add_packet(&packet(A, B, 9), (5.0, 5.0), (5.0, 5.0), launch);
    assert_eq!(engine.nodes().len(), 2);
    assert_eq!(engine.get_visible_packet_count(), 0);
    assert_eq!(node(&engine, &A).data().stats(), stats(1, 9, 0, 0));
    assert_eq!(node(&engine, &B).data().stats(), stats(0, 0, 1, 9));
}

#[test]
fn launch_sees_positions_speed_and_angle() {
    let mut engine: Sim = Engine::new(EngineSettings::new(0.25, 3.0, 8.0), 10.0);
    engine.add_packet(&packet(A, B, 1), (1.0, 2.0), (3.0, 4.0), |from, to, speed, angle| {
        assert_eq!(*from, (1.0, 2.0));
        assert_eq!(*to, (3.0, 4.0));
        assert_eq!(*speed, 3.0);
        assert_eq!(*angle, 0.25);
        Some((0.5, -0.5))
    });
    assert_eq!(engine.packets()[0].graphics.velocity, (0.5, -0.5));
    // Known hosts are launched from where they are, not from the new spots.
    engine.add_packet(&packet(B, A, 1), (70.0, 70.0), (80.0, 80.0), |from, to, _, _| {
        assert_eq!(*from, (3.0, 4.0));
        assert_eq!(*to, (1.0, 2.0));
        Some((0.0, 0.0))
    });
    assert_eq!(engine.get_visible_packet_count(), 2);
}

#[test]
fn packets_fly_and_arrive() {
    let mut engine = sim(100);
    engine.add_packet(&packet(A, B, 1), (0.0, 0.0), (20.0, 0.0), launch);
    tick(&mut engine, false, (500.0, 500.0));
    assert_eq!(engine.get_visible_packet_count(), 1);
    assert_eq!(*engine.packets()[0].get_position(), (2.0, 0.0));
    assert_eq!(*engine.packets()[0].get_source(), (0.0, 0.0));
    assert_eq!(*engine.packets()[0].get_destination(), (20.0, 0.0));
    for _ in 0..5 {
        tick(&mut engine, false, (500.0, 500.0));
    }
    // At (12, 0) the packet is 8 away: not yet within the arrival distance.
    assert_eq!(*engine.packets()[0].get_position(), (12.0, 0.0));
    tick(&mut engine, false, (500.0, 500.0));
    assert_eq!(engine.get_visible_packet_count(), 0);
    assert_eq!(node(&engine, &A).data().stats(), stats(1, 1, 0, 0));
}

#[test]
fn packet_near_its_destination_is_removed() {
    let mut engine = sim(100);
    engine.add_packet(&packet(A, B, 1), (0.0, 0.0), (200.0, 0.0), launch);
    engine.add_packet(&packet(A, C, 1), (0.0, 0.0), (0.0, 200.0), launch);
    // Put the first packet's destination next to it.
    engine.move_node(&B, &(3.0, 0.0));
    tick(&mut engine, false, (500.0, 500.0));
    assert_eq!(engine.get_visible_packet_count(), 1);
    assert_eq!(*engine.packets()[0].get_ip_dest(), C);
    assert_eq!(*engine.packets()[0].get_position(), (0.0, 2.0));
}

#[test]
fn packet_that_turned_back_is_removed() {
    let mut engine = sim(100);
    engine.get_settings().delete_distance = 0.5;
    engine.add_packet(&packet(A, B, 1), (0.0, 0.0), (5.0, 0.0), launch);
    tick(&mut engine, false, (500.0, 500.0));
    tick(&mut engine, false, (500.0, 500.0));
    // At (4, 0): one away, still short of the destination.
    assert_eq!(engine.get_visible_packet_count(), 1);
    tick(&mut engine, false, (500.0, 500.0));
    // At (6, 0): one away again, but past the destination.
    assert_eq!(engine.get_visible_packet_count(), 0);
}

#[test]
fn culling_keeps_the_order_of_the_rest() {
    let mut engine = sim(100);
    let spots = [(100.0, 0.0), (4.0, 0.0), (0.0, 100.0), (0.0, 4.0), (-100.0, 0.0)];
    for (n, spot) in spots.iter().enumerate() {
        engine.add_packet(&packet(A, Address::V4(100 + n as u32), 1), (0.0, 0.0), *spot, launch);
    }
    assert_eq!(engine.get_visible_packet_count(), 5);
    engine.update(false, (500.0, 500.0), contains, steer, arrived, never);
    let left: Vec<Address> = engine.packets().iter().map(|p| *p.get_ip_dest()).collect();
    assert_eq!(left, vec![Address::V4(100), Address::V4(102), Address::V4(104)]);
}

#[test]
fn moving_a_host_retargets_its_packets() {
    let mut engine = sim(100);
    engine.add_packet(&packet(A, B, 1), (0.0, 0.0), (100.0, 0.0), launch);
    engine.add_packet(&packet(B, A, 1), (0.0, 0.0), (100.0, 0.0), launch);
    engine.add_packet(&packet(C, B, 1), (0.0, 100.0), (100.0, 0.0), launch);
    tick(&mut engine, false, (500.0, 500.0));
    let before: Vec<PacketEntity<Point, Vector>> = engine.packets().clone();
    engine.move_node(&B, &(60.0, 80.0));
    assert_eq!(*node(&engine, &B).get_position(), (60.0, 80.0));
    assert_eq!(*node(&engine, &A).get_position(), (0.0, 0.0));
    assert_eq!(node(&engine, &B).data().stats(), stats(1, 1, 2, 2));
    let after = engine.packets();
    assert_eq!(after.len(), 3);
    for (old, new) in before.iter().zip(after.iter()) {
        assert_eq!(new.graphics.src, old.graphics.src);
        assert_eq!(new.graphics.pos, old.graphics.pos);
        assert_eq!(new.graphics.velocity, old.graphics.velocity);
        assert_eq!(new.packet_data, old.packet_data);
    }
    assert_eq!(*after[0].get_destination(), (60.0, 80.0));
    assert_eq!(*after[1].get_destination(), (0.0, 0.0));
    assert_eq!(*after[2].get_destination(), (60.0, 80.0));
    // Packets that left the moved host keep where they started.
    assert_eq!(*after[1].get_source(), (100.0, 0.0));
}

#[test]
fn pointer_picks_drags_and_lets_go() {
    let mut engine = sim(100);
    engine.add_packet(&packet(A, B, 1), (0.0, 0.0), (300.0, 0.0), launch);
    assert!(engine.tooltip().is_none());
    // Hovering: tooltip, no pick.
    tick(&mut engine, false, (299.0, 1.0));
    assert_eq!(engine.tooltip_node(), Some(B));
    assert_eq!(engine.picked_node(), None);
    assert_eq!(engine.tooltip().unwrap().ip(), B);
    assert_eq!(engine.tooltip().unwrap().data().stats(), stats(0, 0, 1, 1));
    // Pressing over the host picks it; it has not moved yet.
    tick(&mut engine, true, (299.0, 1.0));
    assert_eq!(engine.picked_node(), Some(B));
    assert_eq!(*node(&engine, &B).get_position(), (300.0, 0.0));
    // Holding the button drags it, and the packet follows on the same frame.
    tick(&mut engine, true, (300.0, 40.0));
    assert_eq!(engine.picked_node(), Some(B));
    assert_eq!(engine.tooltip_node(), Some(B));
    assert_eq!(*node(&engine, &B).get_position(), (300.0, 40.0));
    assert_eq!(*engine.packets()[0].get_destination(), (300.0, 40.0));
    assert_eq!(*engine.packets()[0].get_source(), (0.0, 0.0));
    // Letting go leaves the host there.
    tick(&mut engine, false, (500.0, 500.0));
    assert_eq!(engine.picked_node(), None);
    assert_eq!(engine.tooltip_node(), None);
    assert_eq!(*node(&engine, &B).get_position(), (300.0, 40.0));
    // Pressing over nothing picks nothing.
    tick(&mut engine, true, (500.0, 500.0));
    assert_eq!(engine.picked_node(), None);
}

#[test]
fn first_registered_host_wins_the_hit_test() {
    let mut engine = sim(100);
    engine.add_packet(&packet(A, B, 1), (0.0, 0.0), (5.0, 0.0), launch);
    engine.add_packet(&packet(C, A, 1), (200.0, 0.0), (0.0, 0.0), launch);
    assert_eq!(engine.hit_test(&(3.0, 0.0), contains), Some(A));
    assert_eq!(engine.hit_test(&(12.0, 0.0), contains), Some(B));
    assert_eq!(engine.hit_test(&(195.0, 0.0), contains), Some(C));
    assert_eq!(engine.hit_test(&(100.0, 100.0), contains), None);
    // While one host is dragged, the pointer picks no other.
    tick(&mut engine, true, (12.0, 0.0));
    assert_eq!(engine.picked_node(), Some(B));
    tick(&mut engine, true, (3.0, 0.0));
    assert_eq!(engine.picked_node(), Some(B));
    assert_eq!(engine.tooltip_node(), Some(A));
    assert_eq!(*node(&engine, &B).get_position(), (3.0, 0.0));
}

#[test]
fn entities_are_plain_values() {
    let mut flight = PacketEntity::new(&packet(A, B, 1), &(1.0f32, 2.0f32), &(3.0, 4.0), (0.5f32, 0.5f32));
    assert_eq!(*flight.get_source(), (1.0, 2.0));
    assert_eq!(*flight.get_position(), (1.0, 2.0));
    assert_eq!(*flight.get_destination(), (3.0, 4.0));
    flight.set_destination(&(9.0, 9.0));
    assert_eq!(*flight.get_destination(), (9.0, 9.0));
    assert_eq!(*flight.get_position(), (1.0, 2.0));
    flight.move_to(&(2.0, 2.0));
    assert_eq!(*flight.get_position(), (2.0, 2.0));
    assert_eq!(flight.graphics.velocity, (0.5, 0.5));
    flight.advance((3.0, 3.0), (1.0, 0.0));
    assert_eq!(*flight.get_position(), (3.0, 3.0));
    assert_eq!(*flight.graphics.get_velocity(), (1.0, 0.0));
    assert_eq!(*flight.get_source(), (1.0, 2.0));

    let mut disc = NodeGraphics::new((5.0f32, 5.0f32), 10.0f32);
    disc.move_to(&(6.0, 7.0));
    assert_eq!(*disc.get_position(), (6.0, 7.0));
    assert_eq!(*disc.get_radius(), 10.0);

    let mut host: Node<Point, f32> = Node::new(C, &(1.0, 1.0), 4.0);
    assert_eq!(host.ip(), C);
    assert!(host.has_room(&packet(C, A, 100)));
    host.add_packet(&packet(C, A, 100));
    host.move_to(&(2.0, 2.0));
    assert_eq!(*host.get_position(), (2.0, 2.0));
    assert_eq!(host.data().stats(), stats(1, 100, 0, 0));
}

#[test]
fn a_batch_is_taken_in_order() {
    let mut engine = sim(2);
    let batch = vec![packet(A, B, 100), packet(B, A, 50), packet(C, A, 7), packet(A, A, 1)];
    let spots = std::cell::Cell::new(0u8);
    let taken = engine.ingest(
        &batch,
        || {
            spots.set(spots.get() + 1);
            (spots.get() as f32 * 100.0, 0.0)
        },
        launch,
    );
    assert_eq!(taken, 4);
    // Two spots are asked for per packet, needed or not.
    assert_eq!(spots.get(), 8);
    let order: Vec<Address> = engine.nodes().iter().map(|n| n.ip()).collect();
    assert_eq!(order, vec![A, B, C]);
    assert_eq!(*node(&engine, &A).get_position(), (100.0, 0.0));
    assert_eq!(*node(&engine, &B).get_position(), (200.0, 0.0));
    assert_eq!(*node(&engine, &C).get_position(), (500.0, 0.0));
    assert_eq!(node(&engine, &A).data().stats(), stats(2, 101, 3, 58));
    assert_eq!(node(&engine, &B).data().stats(), stats(1, 50, 1, 100));
    assert_eq!(node(&engine, &C).data().stats(), stats(1, 7, 0, 0));
    // The cap of two let the first two packets take off.
    assert_eq!(engine.get_visible_packet_count(), 2);
    assert_eq!(*engine.packets()[0].get_ip_dest(), B);
    assert_eq!(*engine.packets()[1].get_ip_dest(), A);
}

#[test]
fn a_frame_takes_packets_in_and_then_moves_them() {
    let mut engine = sim(100);
    let batch = vec![packet(A, B, 100), packet(A, B, 100)];
    let next = std::cell::Cell::new(0.0f32);
    let spot = || {
        next.set(next.get() + 50.0);
        (next.get(), 0.0)
    };
    let taken =
        engine.tick(&batch, spot, launch, false, (500.0, 500.0), contains, steer, arrived, reversed);
    assert_eq!(taken, 2);
    assert_eq!(node(&engine, &A).data().stats(), stats(2, 200, 0, 0));
    assert_eq!(engine.get_visible_packet_count(), 2);
    // Launched at (50, 0) towards (100, 0) and moved one step in the same frame.
    assert_eq!(*engine.packets()[0].get_position(), (52.0, 0.0));
    assert_eq!(*engine.packets()[1].get_position(), (52.0, 0.0));
    // An empty batch is a frame all the same.
    let none: Vec<IPPacketInfo> = Vec::new();
    let taken =
        engine.tick(&none, spot, launch, false, (500.0, 500.0), contains, steer, arrived, reversed);
    assert_eq!(taken, 0);
    assert_eq!(*engine.packets()[0].get_position(), (54.0, 0.0));
    assert_eq!(node(&engine, &A).data().stats(), stats(2, 200, 0, 0));
}

#[test]
fn a_full_frame_over_the_cap() {
    let mut engine = sim(3);
    let batch: Vec<IPPacketInfo> = (0..50u16).map(|n| packet(A, B, n)).collect();
    let spot = || (0.0f32, 0.0f32);
    // Both hosts on one spot: nothing can be launched, everything is counted.
    let taken =
        engine.tick(&batch, spot, launch, false, (500.0, 500.0), contains, steer, arrived, reversed);
    assert_eq!(taken, 50);
    assert_eq!(engine.get_visible_packet_count(), 0);
    assert_eq!(node(&engine, &A).data().stats(), stats(50, 1225, 0, 0));
    engine.move_node(&B, &(1000.0, 0.0));
    for _ in 0..4 {
        let taken = engine.tick(
            &batch,
            spot,
            launch,
            false,
            (500.0, 500.0),
            contains,
            steer,
            arrived,
            reversed,
        );
        assert_eq!(taken, 50);
        assert_eq!(engine.get_visible_packet_count(), 3);
    }
    assert_eq!(node(&engine, &B).data().stats(), stats(0, 0, 250, 6125));
}
