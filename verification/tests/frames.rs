use traffic_engine::address::Address;
use traffic_engine::data::IPPacketInfo;
use traffic_engine::network_manager::{
    convert_to_ip_packet_info, packet_of, parse_frame, FrameError, IpFields, Ipv4Fields, Ipv6Fields,
};

fn udp_frame_v4(source: [u8; 4], dest: [u8; 4], payload: &[u8]) -> Vec<u8> {
    let builder = etherparse::PacketBuilder::ethernet2([1, 2, 3, 4, 5, 6], [7, 8, 9, 10, 11, 12])
        .ipv4(source, dest, 20)
        .udp(21, 1234);
    let mut frame = Vec::with_capacity(builder.size(payload.len()));
    builder.write(&mut frame, payload).unwrap();
    frame
}

fn udp_frame_v6(source: [u8; 16], dest: [u8; 16], payload: &[u8]) -> Vec<u8> {
    let builder = etherparse::PacketBuilder::ethernet2([1, 2, 3, 4, 5, 6], [7, 8, 9, 10, 11, 12])
        .ipv6(source, dest, 20)
        .udp(21, 1234);
    let mut frame = Vec::with_capacity(builder.size(payload.len()));
    builder.write(&mut frame, payload).unwrap();
    frame
}

#[test]
fn ipv4_frame_gives_its_packet() {
    let frame = udp_frame_v4([192, 168, 1, 1], [192, 168, 1, 2], &[1, 2, 3, 4, 5, 6, 7, 8]);
    assert_eq!(
        parse_frame(&frame),
        Ok(IPPacketInfo {
            source: Address::V4(0xC0A8_0101),
            dest: Address::V4(0xC0A8_0102),
            payload_len: 16,
        })
    );
}

#[test]
fn ipv6_frame_gives_its_packet() {
    let mut source = [0u8; 16];
    source[0] = 0xfe;
    source[1] = 0x80;
    source[15] = 1;
    let mut dest = [0u8; 16];
    dest[0] = 0xfe;
    dest[1] = 0x80;
    dest[15] = 2;
    let frame = udp_frame_v6(source, dest, &[0u8; 100]);
    assert_eq!(
        parse_frame(&frame),
        Ok(IPPacketInfo {
            source: Address::V6(0xfe80_0000_0000_0000_0000_0000_0000_0001),
            dest: Address::V6(0xfe80_0000_0000_0000_0000_0000_0000_0002),
            payload_len: 108,
        })
    );
}

#[test]
fn frame_without_ip_header_gives_no_packet() {
    // An ARP frame: Ethernet II header with ether type 0x0806.
    let mut frame = vec![0xffu8; 6];
    frame.extend_from_slice(&[1, 2, 3, 4, 5, 6]);
    frame.extend_from_slice(&[0x08, 0x06]);
    frame.extend_from_slice(&[0u8; 28]);
    assert_eq!(parse_frame(&frame), Err(FrameError::NoIpHeader));
}

#[test]
fn short_frame_is_malformed() {
    assert_eq!(parse_frame(&[]), Err(FrameError::Malformed));
    assert_eq!(parse_frame(&[1, 2, 3, 4, 5]), Err(FrameError::Malformed));
}

#[test]
fn cut_off_ip_header_is_malformed() {
    let frame = udp_frame_v4([10, 0, 0, 1], [10, 0, 0, 2], &[9, 9, 9]);
    assert_eq!(parse_frame(&frame[..20]), Err(FrameError::Malformed));
}

#[test]
fn header_fields_are_converted() {
    let v4 = IpFields::Version4(Ipv4Fields { source: [10, 0, 0, 1], destination: [10, 0, 0, 2], payload_len: 77 });
    assert_eq!(
        convert_to_ip_packet_info(&v4),
        IPPacketInfo { source: Address::V4(0x0a00_0001), dest: Address::V4(0x0a00_0002), payload_len: 77 }
    );
    let mut source = [0u8; 16];
    source[14] = 1;
    let v6 = IpFields::Version6(Ipv6Fields { source, destination: [0u8; 16], payload_length: 5 });
    assert_eq!(
        convert_to_ip_packet_info(&v6),
        IPPacketInfo { source: Address::V6(256), dest: Address::V6(0), payload_len: 5 }
    );
}

#[test]
fn decoded_headers_without_ip_are_an_error() {
    assert_eq!(packet_of(None), Err(FrameError::NoIpHeader));
    let v4 = IpFields::Version4(Ipv4Fields { source: [1, 1, 1, 1], destination: [2, 2, 2, 2], payload_len: 0 });
    assert_eq!(
        packet_of(Some(v4)),
        Ok(IPPacketInfo { source: Address::V4(0x0101_0101), dest: Address::V4(0x0202_0202), payload_len: 0 })
    );
}
