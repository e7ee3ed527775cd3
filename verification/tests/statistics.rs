use traffic_engine::address::Address;
use traffic_engine::data::{IPPacketInfo, NodeData, PacketData, Statistics};
use traffic_engine::packet_manager::PacketManager;

const A: Address = Address::V4(0x0a00_0001);
const B: Address = Address::V4(0x0a00_0002);
const C: Address = Address::V6(0xfe80_0000_0000_0000_0000_0000_0000_0003);

fn packet(source: Address, dest: Address, payload_len: u16) -> IPPacketInfo {
    IPPacketInfo { source, dest, payload_len }
}

fn stats(sent: u32, bytes_sent: u64, recv: u32, bytes_recv: u64) -> Statistics {
    Statistics {
        packet_count_recv: recv,
        packet_count_sent: sent,
        packet_bytes_sent: bytes_sent,
        packet_bytes_recv: bytes_recv,
    }
}

#[test]
fn new_statistics_are_zero() {
    assert_eq!(Statistics::new(), stats(0, 0, 0, 0));
}

#[test]
fn statistics_count_by_direction() {
    let mut s = Statistics::new();
    s.record_sent(100);
    assert_eq!(s, stats(1, 100, 0, 0));
    s.record_received(40);
    assert_eq!(s, stats(1, 100, 1, 40));
    s.record_sent(0);
    assert_eq!(s, stats(2, 100, 1, 40));
    s.record_received(u16::MAX);
    assert_eq!(s, stats(2, 100, 2, 40 + 65535));
}

#[test]
fn statistics_fill_up_to_the_last_value() {
    let mut s = stats(u32::MAX - 1, u64::MAX - 10, u32::MAX - 1, u64::MAX - 7);
    s.record_sent(10);
    s.record_received(7);
    assert_eq!(s, stats(u32::MAX, u64::MAX, u32::MAX, u64::MAX));
}

#[test]
fn statistics_add_packet_goes_by_role() {
    let mut s = Statistics::new();
    s.add_packet(&packet(A, B, 100), A);
    assert_eq!(s, stats(1, 100, 0, 0));
    s.add_packet(&packet(B, A, 50), A);
    assert_eq!(s, stats(1, 100, 1, 50));
    s.add_packet(&packet(B, C, 9), A);
    assert_eq!(s, stats(1, 100, 1, 50));
    s.add_packet(&packet(A, A, 7), A);
    assert_eq!(s, stats(2, 107, 2, 57));
}

#[test]
fn packet_data_keeps_the_two_ends() {
    let data = PacketData::new(&packet(A, C, 12));
    assert_eq!(data, PacketData { source: A, dest: C });
}

#[test]
fn node_data_starts_empty() {
    let node = NodeData::new(A);
    assert_eq!(node.ip(), A);
    assert_eq!(node.stats(), stats(0, 0, 0, 0));
    assert_eq!(node.sent_to(&B), None);
    assert_eq!(node.recv_from(&B), None);
}

#[test]
fn node_data_counts_totals_and_peers() {
    let mut node = NodeData::new(A);
    node.add_packet(&packet(A, B, 100));
    node.add_packet(&packet(A, B, 20));
    node.add_packet(&packet(A, C, 3));
    node.add_packet(&packet(B, A, 50));
    assert_eq!(node.stats(), stats(3, 123, 1, 50));
    assert_eq!(node.sent_to(&B), Some(stats(2, 120, 0, 0)));
    assert_eq!(node.sent_to(&C), Some(stats(1, 3, 0, 0)));
    assert_eq!(node.recv_from(&B), Some(stats(0, 0, 1, 50)));
    assert_eq!(node.recv_from(&C), None);
    assert_eq!(node.sent_to(&A), None);
}

#[test]
fn node_data_self_traffic_counts_both_ways() {
    let mut node = NodeData::new(A);
    node.add_packet(&packet(A, A, 8));
    assert_eq!(node.stats(), stats(1, 8, 1, 8));
    assert_eq!(node.sent_to(&A), Some(stats(1, 8, 0, 0)));
    assert_eq!(node.recv_from(&A), Some(stats(0, 0, 1, 8)));
}

#[test]
fn node_data_totals_are_peer_sums() {
    let mut node = NodeData::new(A);
    let peers = [B, C, Address::V4(9), Address::V6(9), A];
    let mut n: u16 = 1;
    for round in 0..5u16 {
        for peer in peers.iter() {
            node.add_packet(&packet(A, *peer, n.wrapping_mul(37) % 1500));
            if round % 2 == 0 {
                node.add_packet(&packet(*peer, A, n.wrapping_mul(91) % 1500));
            }
            n += 1;
        }
    }
    let mut sum = stats(0, 0, 0, 0);
    for peer in peers.iter() {
        if let Some(s) = node.sent_to(peer) {
            assert_eq!(s.packet_count_recv, 0);
            assert_eq!(s.packet_bytes_recv, 0);
            sum.packet_count_sent += s.packet_count_sent;
            sum.packet_bytes_sent += s.packet_bytes_sent;
        }
        if let Some(s) = node.recv_from(peer) {
            assert_eq!(s.packet_count_sent, 0);
            assert_eq!(s.packet_bytes_sent, 0);
            sum.packet_count_recv += s.packet_count_recv;
            sum.packet_bytes_recv += s.packet_bytes_recv;
        }
    }
    assert_eq!(node.stats(), sum);
}

#[test]
fn node_data_has_room_for_ordinary_traffic() {
    let mut node = NodeData::new(A);
    assert!(node.has_room(&packet(A, B, u16::MAX)));
    node.add_packet(&packet(A, B, u16::MAX));
    assert!(node.has_room(&packet(B, A, u16::MAX)));
    assert!(node.has_room(&packet(A, A, u16::MAX)));
}

#[test]
fn manager_records_both_ends() {
    let mut manager = PacketManager::new();
    assert_eq!(manager.get_valid_packet_count(), 0);
    assert!(manager.get(&A).is_none());
    assert!(manager.has_room(&packet(A, B, 100)));
    manager.add_ip_packet(packet(A, B, 100));
    manager.add_ip_packet(packet(B, A, 50));
    assert_eq!(manager.get_valid_packet_count(), 2);
    let a = manager.get(&A).unwrap();
    assert_eq!(a.ip(), A);
    assert_eq!(a.stats(), stats(1, 100, 1, 50));
    assert_eq!(a.sent_to(&B), Some(stats(1, 100, 0, 0)));
    assert_eq!(a.recv_from(&B), Some(stats(0, 0, 1, 50)));
    let b = manager.get(&B).unwrap();
    assert_eq!(b.ip(), B);
    assert_eq!(b.stats(), stats(1, 50, 1, 100));
    assert!(manager.get(&C).is_none());
}

#[test]
fn manager_counts_self_traffic_once_each_way() {
    let mut manager = PacketManager::new();
    manager.add_ip_packet(packet(C, C, 64));
    assert_eq!(manager.get_valid_packet_count(), 1);
    let c = manager.get(&C).unwrap();
    assert_eq!(c.stats(), stats(1, 64, 1, 64));
    assert_eq!(c.sent_to(&C), Some(stats(1, 64, 0, 0)));
    assert_eq!(c.recv_from(&C), Some(stats(0, 0, 1, 64)));
}

#[test]
fn manager_totals_are_sums_over_the_history() {
    let hosts = [A, B, C, Address::V4(77)];
    let mut history: Vec<IPPacketInfo> = Vec::new();
    let mut seed: u32 = 12345;
    for _ in 0..200 {
        seed = seed.wrapping_mul(1664525).wrapping_add(1013904223);
        let s = hosts[(seed >> 8) as usize % hosts.len()];
        let d = hosts[(seed >> 16) as usize % hosts.len()];
        history.push(packet(s, d, (seed >> 20) as u16 % 1500));
    }
    let mut manager = PacketManager::new();
    for p in history.iter() {
        assert!(manager.has_room(p));
        manager.add_ip_packet(*p);
    }
    assert_eq!(manager.get_valid_packet_count(), 200);
    for host in hosts.iter() {
        let mut expected = stats(0, 0, 0, 0);
        for p in history.iter() {
            if p.source == *host {
                expected.packet_count_sent += 1;
                expected.packet_bytes_sent += p.payload_len as u64;
            }
            if p.dest == *host {
                expected.packet_count_recv += 1;
                expected.packet_bytes_recv += p.payload_len as u64;
            }
        }
        assert_eq!(manager.get(host).unwrap().stats(), expected);
    }
}
