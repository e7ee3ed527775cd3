//! From a captured Ethernet frame to an observed packet.

use crate::address::{octets_value, Address};
use crate::data::IPPacketInfo;
use vstd::prelude::*;

verus! {

/// What the engine reads off an IPv4 header: the two addresses as octets in
/// network order, and the payload length.
#[derive(Clone, Copy, Debug)]
pub struct Ipv4Fields {
    pub source: [u8; 4],
    pub destination: [u8; 4],
    pub payload_len: u16,
}

/// What the engine reads off an IPv6 header: the two addresses as octets in
/// network order, and the payload length.
#[derive(Clone, Copy, Debug)]
pub struct Ipv6Fields {
    pub source: [u8; 16],
    pub destination: [u8; 16],
    pub payload_length: u16,
}

/// What the engine reads off an IP header of either version.
#[derive(Clone, Copy, Debug)]
pub enum IpFields {
    Version4(Ipv4Fields),
    Version6(Ipv6Fields),
}

/// Why a frame gives no observed packet.
#[derive(Clone, Copy, Debug, PartialEq, Eq, Structural)]
pub enum FrameError {
    /// The frame's headers could not be decoded.
    Malformed,
    /// The frame's headers were decoded and hold no IP header.
    NoIpHeader,
}

/// The error with which `etherparse` refuses a frame.
#[verifier::external_type_specification]
#[verifier::external_body]
pub struct ExReadError(etherparse::ReadError);

/// What `etherparse::PacketHeaders::from_ethernet_slice` makes of a frame:
/// nothing if it refuses the frame, else the fields of the IP header that it
/// decoded, if it decoded one.
pub uninterp spec fn ethernet_frame_ip(frame: Seq<u8>) -> Option<Option<IpFields>>;

/// Decodes the headers of an Ethernet II frame with
/// `etherparse::PacketHeaders::from_ethernet_slice` and picks the addresses
/// and the payload length out of the IP header, if there is one. The
/// contract claims only that the outcome is a function of the frame's bytes,
/// and gives that function its name.
#[verifier::external_body]
fn read_ethernet_frame(frame: &[u8]) -> (headers: Result<Option<IpFields>, etherparse::ReadError>)
    ensures
        match headers {
            Ok(ip) => ethernet_frame_ip(frame@) == Some(ip),
            Err(_) => ethernet_frame_ip(frame@) is None,
        },
{
    let headers = etherparse::PacketHeaders::from_ethernet_slice(frame)?;
    Ok(
        match headers.ip {
            Some(etherparse::IpHeader::Version4(h, _)) => Some(
                IpFields::Version4(Ipv4Fields { source: h.source, destination: h.destination, payload_len: h.payload_len }),
            ),
            Some(etherparse::IpHeader::Version6(h, _)) => Some(
                IpFields::Version6(Ipv6Fields { source: h.source, destination: h.destination, payload_length: h.payload_length }),
            ),
            None => None,
        },
    )
}

/// The observed packet that an IP header stands for.
pub open spec fn packet_info(header: IpFields) -> IPPacketInfo {
    match header {
        IpFields::Version4(header) => IPPacketInfo {
            source: Address::V4(octets_value(header.source@) as u32),
            dest: Address::V4(octets_value(header.destination@) as u32),
            payload_len: header.payload_len,
        },
        IpFields::Version6(header) => IPPacketInfo {
            source: Address::V6(octets_value(header.source@) as u128),
            dest: Address::V6(octets_value(header.destination@) as u128),
            payload_len: header.payload_length,
        },
    }
}

/// What a frame gives, by what the decoder made of it.
pub open spec fn observation(decoded: Option<Option<IpFields>>) -> Result<IPPacketInfo, FrameError> {
    match decoded {
        None => Err(FrameError::Malformed),
        Some(None) => Err(FrameError::NoIpHeader),
        Some(Some(header)) => Ok(packet_info(header)),
    }
}

/// The observed packet that an IP header stands for: its source, its
/// destination and its payload length, whichever the header's version.
pub fn convert_to_ip_packet_info(network_header: &IpFields) -> (packet: IPPacketInfo)
    ensures
        packet == packet_info(*network_header),
{
    match network_header {
        IpFields::Version4(header) => IPPacketInfo {
            source: Address::from_v4_octets(header.source),
            dest: Address::from_v4_octets(header.destination),
            payload_len: header.payload_len,
        },
        IpFields::Version6(header) => IPPacketInfo {
            source: Address::from_v6_octets(header.source),
            dest: Address::from_v6_octets(header.destination),
            payload_len: header.payload_length,
        },
    }
}

/// What decoded headers give: the observed packet if they hold an IP
/// header, an error if they hold none.
pub fn packet_of(ip: Option<IpFields>) -> (packet: Result<IPPacketInfo, FrameError>)
    ensures
        packet == observation(Some(ip)),
{
    match ip {
        Some(header) => Ok(convert_to_ip_packet_info(&header)),
        None => Err(FrameError::NoIpHeader),
    }
}

/// The observed packet in a captured Ethernet II frame. A frame whose
/// headers cannot be decoded is malformed; one without an IP header gives
/// no packet either.
pub fn parse_frame(frame: &[u8]) -> (packet: Result<IPPacketInfo, FrameError>)
    ensures
        packet == observation(ethernet_frame_ip(frame@)),
{
    match read_ethernet_frame(frame) {
        Ok(ip) => packet_of(ip),
        Err(_) => Err(FrameError::Malformed),
    }
}

} // verus!
