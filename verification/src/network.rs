//! Captured frames: from the bytes of an Ethernet frame, through its IPv4 or
//! IPv6 packet, to the ports of the TCP segment or UDP datagram inside.
//!
//! The headers are read by the `pnet` crate. What each of its accessors
//! returns is stated here over the bytes of the packet and taken on trust;
//! the decoding built on them is proved.

use vstd::prelude::*;
use vstd::string::*;

use pnet::packet::ethernet::EthernetPacket;
use pnet::packet::ipv4::Ipv4Packet;
use pnet::packet::ipv6::Ipv6Packet;
use pnet::packet::tcp::TcpPacket;
use pnet::packet::udp::UdpPacket;
use pnet::packet::Packet;
use pnet::packet::PacketSize;

use crate::address::{be16, IpAddress};

verus! {

/// The ethertype of IPv4.
pub const ETHERTYPE_IPV4: u16 = 0x0800;

/// The ethertype of IPv6.
pub const ETHERTYPE_IPV6: u16 = 0x86DD;

/// The protocol number of TCP.
pub const TCP: u8 = 6;

/// The protocol number of UDP.
pub const UDP: u8 = 17;

/// The transport protocol of a flow.
#[derive(Clone, Copy, Debug, PartialEq, Eq)]
pub enum Transport {
    Tcp,
    Udp,
}

impl Transport {
    /// The name of the protocol in lower case.
    pub open spec fn name_text(self) -> Seq<char> {
        match self {
            Transport::Tcp => "tcp"@,
            Transport::Udp => "udp"@,
        }
    }

    /// The name of the protocol in lower case.
    pub fn name(&self) -> (r: &'static str)
        ensures
            r@ == self.name_text(),
    {
        match self {
            Transport::Tcp => "tcp",
            Transport::Udp => "udp",
        }
    }
}

/// What can go wrong with a captured frame.
#[derive(Clone, Copy, Debug, PartialEq, Eq)]
pub enum SnifferError {
    HandlePacketError,
    UnknownPacketProtocol,
    Ipv4PacketError,
    Ipv6PacketError,
}

impl SnifferError {
    /// What the error is shown as.
    pub open spec fn message_text(self) -> Seq<char> {
        match self {
            SnifferError::HandlePacketError => "Error: Couldnt handle packet "@,
            SnifferError::UnknownPacketProtocol => "Error: Unkown packet protocol "@,
            SnifferError::Ipv4PacketError => "Error: Couldnt handle ipv4 packet "@,
            SnifferError::Ipv6PacketError => "Error: Couldnt handle ipv6 packet "@,
        }
    }

    /// What the error is described as.
    pub open spec fn description_text(self) -> Seq<char> {
        match self {
            SnifferError::HandlePacketError => "Error: Couldnt handle packet "@,
            SnifferError::UnknownPacketProtocol => "Error: Unkown packet protocol"@,
            SnifferError::Ipv4PacketError => "Error: Couldnt handle ipv4 packet "@,
            SnifferError::Ipv6PacketError => "Error: Couldnt handle ipv6 packet "@,
        }
    }

    /// The text that shows the error.
    pub fn message(&self) -> (r: String)
        ensures
            r@ == self.message_text(),
    {
        match self {
            SnifferError::HandlePacketError => "Error: Couldnt handle packet ".to_owned(),
            SnifferError::UnknownPacketProtocol => "Error: Unkown packet protocol ".to_owned(),
            SnifferError::Ipv4PacketError => "Error: Couldnt handle ipv4 packet ".to_owned(),
            SnifferError::Ipv6PacketError => "Error: Couldnt handle ipv6 packet ".to_owned(),
        }
    }

    /// A short description of the error.
    pub fn description(&self) -> (r: &'static str)
        ensures
            r@ == self.description_text(),
    {
        match self {
            SnifferError::HandlePacketError => "Error: Couldnt handle packet ",
            SnifferError::UnknownPacketProtocol => "Error: Unkown packet protocol",
            SnifferError::Ipv4PacketError => "Error: Couldnt handle ipv4 packet ",
            SnifferError::Ipv6PacketError => "Error: Couldnt handle ipv6 packet ",
        }
    }
}

/// One observed flow: the transport protocol, both ends, and the size of the
/// transport packet.
#[derive(Clone, Copy, Debug, PartialEq, Eq)]
pub struct Proto {
    pub protocol: Transport,
    /// The size of the transport packet: its header, with the options that
    /// a TCP header declares, and the payload after it, as far as the
    /// network layer says that the packet reaches.
    pub packet_size: usize,
    pub source: IpAddress,
    pub source_port: u16,
    pub destination: IpAddress,
    pub destination_port: u16,
}

impl Proto {
    /// Source and destination are addresses of one family.
    pub open spec fn wf(self) -> bool {
        self.source.same_family(self.destination)
    }
}

/// The four bytes of `p` from `at` on.
pub open spec fn octets_at(p: Seq<u8>, at: int) -> [u8; 4] {
    [p[at], p[at + 1], p[at + 2], p[at + 3]]
}

/// The eight 16-bit groups that the sixteen bytes of `p` from `at` on hold,
/// each with its high byte first.
pub open spec fn groups_at(p: Seq<u8>, at: int) -> [u16; 8] {
    [
        be16(p[at], p[at + 1]),
        be16(p[at + 2], p[at + 3]),
        be16(p[at + 4], p[at + 5]),
        be16(p[at + 6], p[at + 7]),
        be16(p[at + 8], p[at + 9]),
        be16(p[at + 10], p[at + 11]),
        be16(p[at + 12], p[at + 13]),
        be16(p[at + 14], p[at + 15]),
    ]
}

/// The ethertype of an Ethernet frame: bytes 12 and 13 of a frame of at
/// least 14 bytes.
pub open spec fn ethertype_of(frame: Seq<u8>) -> Option<u16> {
    if frame.len() >= 14 {
        Some(be16(frame[12], frame[13]))
    } else {
        None
    }
}

/// The payload of an Ethernet frame: all that follows its 14 bytes of header.
pub open spec fn ethernet_payload_of(frame: Seq<u8>) -> Option<Seq<u8>> {
    if frame.len() >= 14 {
        Some(frame.subrange(14, frame.len() as int))
    } else {
        None
    }
}

/// The source address of an IPv4 packet: bytes 12 to 15 of a packet of at
/// least 20 bytes.
pub open spec fn ipv4_source_of(p: Seq<u8>) -> Option<[u8; 4]> {
    if p.len() >= 20 {
        Some(octets_at(p, 12))
    } else {
        None
    }
}

/// The destination address of an IPv4 packet: bytes 16 to 19.
pub open spec fn ipv4_destination_of(p: Seq<u8>) -> Option<[u8; 4]> {
    if p.len() >= 20 {
        Some(octets_at(p, 16))
    } else {
        None
    }
}

/// The protocol number of what an IPv4 packet carries: byte 9.
pub open spec fn ipv4_protocol_of(p: Seq<u8>) -> Option<u8> {
    if p.len() >= 20 {
        Some(p[9])
    } else {
        None
    }
}

/// The length of the header of an IPv4 packet as the packet declares it: four
/// bytes for each unit of the low half of byte 0.
pub open spec fn ipv4_header_length(p: Seq<u8>) -> int {
    (p[0] % 16) * 4
}

/// The length of a whole IPv4 packet as the packet declares it in bytes 2
/// and 3.
pub open spec fn ipv4_total_length(p: Seq<u8>) -> int {
    be16(p[2], p[3]) as int
}

/// Where the payload of an IPv4 packet starts: after the declared header,
/// and never before byte 20.
pub open spec fn ipv4_payload_start(p: Seq<u8>) -> int {
    if ipv4_header_length(p) > 20 {
        ipv4_header_length(p)
    } else {
        20
    }
}

/// Where the payload of an IPv4 packet ends: after as many bytes as the
/// declared total length exceeds the declared header length, and never
/// after the end of the packet.
pub open spec fn ipv4_payload_end(p: Seq<u8>) -> int {
    let declared = if ipv4_total_length(p) > ipv4_header_length(p) {
        ipv4_payload_start(p) + ipv4_total_length(p) - ipv4_header_length(p)
    } else {
        ipv4_payload_start(p)
    };
    if declared < p.len() {
        declared
    } else {
        p.len() as int
    }
}

/// The payload of an IPv4 packet of at least 20 bytes; it is empty where the
/// packet ends before the payload starts.
pub open spec fn ipv4_payload_of(p: Seq<u8>) -> Option<Seq<u8>> {
    if p.len() < 20 {
        None
    } else if p.len() <= ipv4_payload_start(p) {
        Some(Seq::<u8>::empty())
    } else {
        Some(p.subrange(ipv4_payload_start(p), ipv4_payload_end(p)))
    }
}

/// The source address of an IPv6 packet: bytes 8 to 23 of a packet of at
/// least 40 bytes.
pub open spec fn ipv6_source_of(p: Seq<u8>) -> Option<[u16; 8]> {
    if p.len() >= 40 {
        Some(groups_at(p, 8))
    } else {
        None
    }
}

/// The destination address of an IPv6 packet: bytes 24 to 39.
pub open spec fn ipv6_destination_of(p: Seq<u8>) -> Option<[u16; 8]> {
    if p.len() >= 40 {
        Some(groups_at(p, 24))
    } else {
        None
    }
}

/// The protocol number of what follows the header of an IPv6 packet: byte 6.
pub open spec fn ipv6_next_header_of(p: Seq<u8>) -> Option<u8> {
    if p.len() >= 40 {
        Some(p[6])
    } else {
        None
    }
}

/// Where the payload of an IPv6 packet ends: after as many bytes as bytes 4
/// and 5 declare, and never after the end of the packet.
pub open spec fn ipv6_payload_end(p: Seq<u8>) -> int {
    let declared = 40 + be16(p[4], p[5]) as int;
    if declared < p.len() {
        declared
    } else {
        p.len() as int
    }
}

/// The payload of an IPv6 packet of at least 40 bytes.
pub open spec fn ipv6_payload_of(p: Seq<u8>) -> Option<Seq<u8>> {
    if p.len() < 40 {
        None
    } else if p.len() == 40 {
        Some(Seq::<u8>::empty())
    } else {
        Some(p.subrange(40, ipv6_payload_end(p)))
    }
}

/// The source port of a TCP segment: bytes 0 and 1 of a segment of at least
/// 20 bytes.
pub open spec fn tcp_source_of(p: Seq<u8>) -> Option<u16> {
    if p.len() >= 20 {
        Some(be16(p[0], p[1]))
    } else {
        None
    }
}

/// The destination port of a TCP segment: bytes 2 and 3.
pub open spec fn tcp_destination_of(p: Seq<u8>) -> Option<u16> {
    if p.len() >= 20 {
        Some(be16(p[2], p[3]))
    } else {
        None
    }
}

/// The size of the header of a TCP segment: four bytes for each unit of the
/// high half of byte 12, and never less than 20.
pub open spec fn tcp_header_size_of(p: Seq<u8>) -> Option<usize> {
    if p.len() >= 20 {
        if p[12] / 16 > 5 {
            Some(((p[12] / 16) * 4) as usize)
        } else {
            Some(20usize)
        }
    } else {
        None
    }
}

/// The length of the payload of a TCP segment: of what follows the header,
/// which is nothing where the segment ends before its header does.
pub open spec fn tcp_payload_length_of(p: Seq<u8>) -> Option<usize> {
    if p.len() >= 20 {
        if p.len() > tcp_header_size_of(p)->0 {
            Some((p.len() - tcp_header_size_of(p)->0) as usize)
        } else {
            Some(0usize)
        }
    } else {
        None
    }
}

/// The size of a TCP segment: that of its header and its payload together.
pub open spec fn tcp_size_of(p: Seq<u8>) -> usize {
    (tcp_header_size_of(p)->0 + tcp_payload_length_of(p)->0) as usize
}

/// The source port of a UDP datagram: bytes 0 and 1 of a datagram of at
/// least 8 bytes.
pub open spec fn udp_source_of(p: Seq<u8>) -> Option<u16> {
    if p.len() >= 8 {
        Some(be16(p[0], p[1]))
    } else {
        None
    }
}

/// The destination port of a UDP datagram: bytes 2 and 3.
pub open spec fn udp_destination_of(p: Seq<u8>) -> Option<u16> {
    if p.len() >= 8 {
        Some(be16(p[2], p[3]))
    } else {
        None
    }
}

/// The size of the header of a UDP datagram: 8 bytes.
pub open spec fn udp_header_size_of(p: Seq<u8>) -> Option<usize> {
    if p.len() >= 8 {
        Some(8usize)
    } else {
        None
    }
}

/// The length of the payload of a UDP datagram: of what follows the header.
pub open spec fn udp_payload_length_of(p: Seq<u8>) -> Option<usize> {
    if p.len() >= 8 {
        Some((p.len() - 8) as usize)
    } else {
        None
    }
}

/// The size of a UDP datagram: that of its header and its payload together.
pub open spec fn udp_size_of(p: Seq<u8>) -> usize {
    (udp_header_size_of(p)->0 + udp_payload_length_of(p)->0) as usize
}

/// `EthernetPacket::new` takes a frame of at least 14 bytes, and
/// `get_ethertype` reads bytes 12 and 13 as one number, high byte first.
#[verifier::external_body]
fn ethernet_ethertype(frame: &[u8]) -> (r: Option<u16>)
    ensures
        r == ethertype_of(frame@),
{
    EthernetPacket::new(frame).map(|p| p.get_ethertype().0)
}

/// `EthernetPacket::new` takes a frame of at least 14 bytes, and `payload`
/// is all that follows them.
#[verifier::external_body]
fn ethernet_payload(frame: &[u8]) -> (r: Option<Vec<u8>>)
    ensures
        r matches Some(payload) ==> ethernet_payload_of(frame@) == Some(payload@),
        r is None ==> ethernet_payload_of(frame@) is None,
{
    EthernetPacket::new(frame).map(|p| p.payload().to_vec())
}

/// `Ipv4Packet::new` takes a packet of at least 20 bytes, and `get_source`
/// reads bytes 12 to 15.
#[verifier::external_body]
fn ipv4_source(packet: &[u8]) -> (r: Option<[u8; 4]>)
    ensures
        r == ipv4_source_of(packet@),
{
    Ipv4Packet::new(packet).map(|p| p.get_source().octets())
}

/// `Ipv4Packet::new` takes a packet of at least 20 bytes, and
/// `get_destination` reads bytes 16 to 19.
#[verifier::external_body]
fn ipv4_destination(packet: &[u8]) -> (r: Option<[u8; 4]>)
    ensures
        r == ipv4_destination_of(packet@),
{
    Ipv4Packet::new(packet).map(|p| p.get_destination().octets())
}

/// `Ipv4Packet::new` takes a packet of at least 20 bytes, and
/// `get_next_level_protocol` reads byte 9.
#[verifier::external_body]
fn ipv4_next_level_protocol(packet: &[u8]) -> (r: Option<u8>)
    ensures
        r == ipv4_protocol_of(packet@),
{
    Ipv4Packet::new(packet).map(|p| p.get_next_level_protocol().0)
}

/// `Ipv4Packet::new` takes a packet of at least 20 bytes, and `payload` is
/// the part of it between the declared end of the header and the declared
/// end of the packet, cut to the bytes that are there.
#[verifier::external_body]
fn ipv4_payload(packet: &[u8]) -> (r: Option<Vec<u8>>)
    ensures
        r matches Some(payload) ==> ipv4_payload_of(packet@) == Some(payload@),
        r is None ==> ipv4_payload_of(packet@) is None,
{
    Ipv4Packet::new(packet).map(|p| p.payload().to_vec())
}

/// `Ipv6Packet::new` takes a packet of at least 40 bytes, and `get_source`
/// reads bytes 8 to 23 as eight numbers, high bytes first.
#[verifier::external_body]
fn ipv6_source(packet: &[u8]) -> (r: Option<[u16; 8]>)
    ensures
        r == ipv6_source_of(packet@),
{
    Ipv6Packet::new(packet).map(|p| p.get_source().segments())
}

/// `Ipv6Packet::new` takes a packet of at least 40 bytes, and
/// `get_destination` reads bytes 24 to 39 as eight numbers, high bytes
/// first.
#[verifier::external_body]
fn ipv6_destination(packet: &[u8]) -> (r: Option<[u16; 8]>)
    ensures
        r == ipv6_destination_of(packet@),
{
    Ipv6Packet::new(packet).map(|p| p.get_destination().segments())
}

/// `Ipv6Packet::new` takes a packet of at least 40 bytes, and
/// `get_next_header` reads byte 6.
#[verifier::external_body]
fn ipv6_next_header(packet: &[u8]) -> (r: Option<u8>)
    ensures
        r == ipv6_next_header_of(packet@),
{
    Ipv6Packet::new(packet).map(|p| p.get_next_header().0)
}

/// `Ipv6Packet::new` takes a packet of at least 40 bytes, and `payload` is
/// what follows them, up to the declared payload length and cut to the bytes
/// that are there.
#[verifier::external_body]
fn ipv6_payload(packet: &[u8]) -> (r: Option<Vec<u8>>)
    ensures
        r matches Some(payload) ==> ipv6_payload_of(packet@) == Some(payload@),
        r is None ==> ipv6_payload_of(packet@) is None,
{
    Ipv6Packet::new(packet).map(|p| p.payload().to_vec())
}

/// `TcpPacket::new` takes a segment of at least 20 bytes, and `get_source`
/// reads bytes 0 and 1 as one number, high byte first.
#[verifier::external_body]
fn tcp_source(segment: &[u8]) -> (r: Option<u16>)
    ensures
        r == tcp_source_of(segment@),
{
    TcpPacket::new(segment).map(|p| p.get_source())
}

/// `TcpPacket::new` takes a segment of at least 20 bytes, and
/// `get_destination` reads bytes 2 and 3 as one number, high byte first.
#[verifier::external_body]
fn tcp_destination(segment: &[u8]) -> (r: Option<u16>)
    ensures
        r == tcp_destination_of(segment@),
{
    TcpPacket::new(segment).map(|p| p.get_destination())
}

/// `TcpPacket::new` takes a segment of at least 20 bytes, and `packet_size`
/// adds to the 20 bytes of fixed header the length of the options that the
/// data offset in byte 12 declares.
#[verifier::external_body]
fn tcp_packet_size(segment: &[u8]) -> (r: Option<usize>)
    ensures
        r == tcp_header_size_of(segment@),
{
    TcpPacket::new(segment).map(|p| p.packet_size())
}

/// `TcpPacket::new` takes a segment of at least 20 bytes, and `payload` is
/// what follows the header and its declared options; this is its length.
#[verifier::external_body]
fn tcp_payload_length(segment: &[u8]) -> (r: Option<usize>)
    ensures
        r == tcp_payload_length_of(segment@),
{
    TcpPacket::new(segment).map(|p| p.payload().len())
}

/// `UdpPacket::new` takes a datagram of at least 8 bytes, and `get_source`
/// reads bytes 0 and 1 as one number, high byte first.
#[verifier::external_body]
fn udp_source(datagram: &[u8]) -> (r: Option<u16>)
    ensures
        r == udp_source_of(datagram@),
{
    UdpPacket::new(datagram).map(|p| p.get_source())
}

/// `UdpPacket::new` takes a datagram of at least 8 bytes, and
/// `get_destination` reads bytes 2 and 3 as one number, high byte first.
#[verifier::external_body]
fn udp_destination(datagram: &[u8]) -> (r: Option<u16>)
    ensures
        r == udp_destination_of(datagram@),
{
    UdpPacket::new(datagram).map(|p| p.get_destination())
}

/// `UdpPacket::new` takes a datagram of at least 8 bytes, and `packet_size`
/// is the 8 bytes of its header.
#[verifier::external_body]
fn udp_packet_size(datagram: &[u8]) -> (r: Option<usize>)
    ensures
        r == udp_header_size_of(datagram@),
{
    UdpPacket::new(datagram).map(|p| p.packet_size())
}

/// `UdpPacket::new` takes a datagram of at least 8 bytes, and `payload` is
/// what follows the 8 bytes of header; this is its length.
#[verifier::external_body]
fn udp_payload_length(datagram: &[u8]) -> (r: Option<usize>)
    ensures
        r == udp_payload_length_of(datagram@),
{
    UdpPacket::new(datagram).map(|p| p.payload().len())
}

/// The flow that a transport packet between `source` and `destination`
/// shows, where `protocol` says what kind of packet it is. Only a TCP segment
/// and a UDP datagram with a whole header show one.
pub open spec fn transport_record(
    source: IpAddress,
    destination: IpAddress,
    protocol: u8,
    packet: Seq<u8>,
) -> Option<Proto> {
    if protocol == UDP && packet.len() >= 8 {
        Some(
            Proto {
                protocol: Transport::Udp,
                packet_size: udp_size_of(packet),
                source,
                source_port: udp_source_of(packet)->0,
                destination,
                destination_port: udp_destination_of(packet)->0,
            },
        )
    } else if protocol == TCP && packet.len() >= 20 {
        Some(
            Proto {
                protocol: Transport::Tcp,
                packet_size: tcp_size_of(packet),
                source,
                source_port: tcp_source_of(packet)->0,
                destination,
                destination_port: tcp_destination_of(packet)->0,
            },
        )
    } else {
        None
    }
}

/// The flow that an IPv4 packet shows.
pub open spec fn ipv4_record(packet: Seq<u8>) -> Option<Proto> {
    if packet.len() >= 20 {
        transport_record(
            IpAddress::V4(ipv4_source_of(packet)->0),
            IpAddress::V4(ipv4_destination_of(packet)->0),
            ipv4_protocol_of(packet)->0,
            ipv4_payload_of(packet)->0,
        )
    } else {
        None
    }
}

/// The flow that an IPv6 packet shows.
pub open spec fn ipv6_record(packet: Seq<u8>) -> Option<Proto> {
    if packet.len() >= 40 {
        transport_record(
            IpAddress::V6(ipv6_source_of(packet)->0),
            IpAddress::V6(ipv6_destination_of(packet)->0),
            ipv6_next_header_of(packet)->0,
            ipv6_payload_of(packet)->0,
        )
    } else {
        None
    }
}

/// The flow that an Ethernet frame shows: that of the IPv4 or IPv6 packet it
/// carries, and none where it carries anything else or is cut short.
pub open spec fn frame_record(frame: Seq<u8>) -> Option<Proto> {
    if ethertype_of(frame) == Some(ETHERTYPE_IPV4) {
        ipv4_record(ethernet_payload_of(frame)->0)
    } else if ethertype_of(frame) == Some(ETHERTYPE_IPV6) {
        ipv6_record(ethernet_payload_of(frame)->0)
    } else {
        None
    }
}

/// Decodes a transport packet between `source` and `destination`.
pub fn handle_transport_protocol(
    source: IpAddress,
    destination: IpAddress,
    protocol: u8,
    packet: &[u8],
) -> (r: Option<Proto>)
    ensures
        r == transport_record(source, destination, protocol, packet@),
{
    assert(packet@.len() == packet.len() <= usize::MAX);
    if protocol == UDP {
        match (
            udp_packet_size(packet),
            udp_payload_length(packet),
            udp_source(packet),
            udp_destination(packet),
        ) {
            (Some(header), Some(payload), Some(source_port), Some(destination_port)) => Some(
                Proto {
                    protocol: Transport::Udp,
                    packet_size: header + payload,
                    source,
                    source_port,
                    destination,
                    destination_port,
                },
            ),
            _ => None,
        }
    } else if protocol == TCP {
        match (
            tcp_packet_size(packet),
            tcp_payload_length(packet),
            tcp_source(packet),
            tcp_destination(packet),
        ) {
            (Some(header), Some(payload), Some(source_port), Some(destination_port)) => Some(
                Proto {
                    protocol: Transport::Tcp,
                    packet_size: header + payload,
                    source,
                    source_port,
                    destination,
                    destination_port,
                },
            ),
            _ => None,
        }
    } else {
        None
    }
}

/// Decodes the IPv4 packet that an Ethernet frame carries.
pub fn handle_ipv4_packet(ethernet: &[u8]) -> (r: Option<Proto>)
    ensures
        ethernet@.len() >= 14 ==> r == ipv4_record(ethernet_payload_of(ethernet@)->0),
        ethernet@.len() < 14 ==> r is None,
{
    let packet = match ethernet_payload(ethernet) {
        Some(packet) => packet,
        None => { return None; },
    };
    match (
        ipv4_source(packet.as_slice()),
        ipv4_destination(packet.as_slice()),
        ipv4_next_level_protocol(packet.as_slice()),
        ipv4_payload(packet.as_slice()),
    ) {
        (Some(source), Some(destination), Some(protocol), Some(payload)) => {
            handle_transport_protocol(
                IpAddress::V4(source),
                IpAddress::V4(destination),
                protocol,
                payload.as_slice(),
            )
        },
        _ => None,
    }
}

/// Decodes the IPv6 packet that an Ethernet frame carries.
pub fn handle_ipv6_packet(ethernet: &[u8]) -> (r: Option<Proto>)
    ensures
        ethernet@.len() >= 14 ==> r == ipv6_record(ethernet_payload_of(ethernet@)->0),
        ethernet@.len() < 14 ==> r is None,
{
    let packet = match ethernet_payload(ethernet) {
        Some(packet) => packet,
        None => { return None; },
    };
    match (
        ipv6_source(packet.as_slice()),
        ipv6_destination(packet.as_slice()),
        ipv6_next_header(packet.as_slice()),
        ipv6_payload(packet.as_slice()),
    ) {
        (Some(source), Some(destination), Some(protocol), Some(payload)) => {
            handle_transport_protocol(
                IpAddress::V6(source),
                IpAddress::V6(destination),
                protocol,
                payload.as_slice(),
            )
        },
        _ => None,
    }
}

/// Decodes one captured Ethernet frame of any length into the flow it shows,
/// if it shows one.
pub fn handle_packet(ethernet: &[u8]) -> (r: Option<Proto>)
    ensures
        r == frame_record(ethernet@),
        r matches Some(flow) ==> flow.wf(),
{
    match ethernet_ethertype(ethernet) {
        Some(ethertype) => {
            if ethertype == ETHERTYPE_IPV4 {
                handle_ipv4_packet(ethernet)
            } else if ethertype == ETHERTYPE_IPV6 {
                handle_ipv6_packet(ethernet)
            } else {
                None
            }
        },
        None => None,
    }
}

/// A frame that carries a TCP segment with a whole header in an IPv4 packet
/// shows a TCP flow between the addresses of the packet and the ports of the
/// segment.
pub proof fn lemma_tcp_over_ipv4(frame: Seq<u8>)
    requires
        ethertype_of(frame) == Some(ETHERTYPE_IPV4),
        ipv4_protocol_of(ethernet_payload_of(frame)->0) == Some(TCP),
        ipv4_payload_of(ethernet_payload_of(frame)->0) matches Some(segment) && segment.len() >= 20,
    ensures
        ({
            let packet = ethernet_payload_of(frame)->0;
            let segment = ipv4_payload_of(packet)->0;
            frame_record(frame) == Some(
                Proto {
                    protocol: Transport::Tcp,
                    packet_size: tcp_size_of(segment),
                    source: IpAddress::V4(octets_at(packet, 12)),
                    source_port: be16(segment[0], segment[1]),
                    destination: IpAddress::V4(octets_at(packet, 16)),
                    destination_port: be16(segment[2], segment[3]),
                },
            )
        }),
{
}

/// A frame put together from an Ethernet header with the ethertype of IPv4,
/// a plain IPv4 header that announces TCP and the length of what follows, and
/// a TCP segment with a whole header shows a TCP flow between the addresses
/// in the IPv4 header and the ports at the start of the segment.
pub proof fn lemma_synthetic_tcp_frame(link: Seq<u8>, header: Seq<u8>, segment: Seq<u8>)
    requires
        link.len() == 14,
        be16(link[12], link[13]) == ETHERTYPE_IPV4,
        header.len() == 20,
        header[0] % 16 == 5,
        be16(header[2], header[3]) == 20 + segment.len(),
        header[9] == TCP,
        segment.len() >= 20,
    ensures
        frame_record(link + header + segment) == Some(
            Proto {
                protocol: Transport::Tcp,
                packet_size: tcp_size_of(segment),
                source: IpAddress::V4(octets_at(header, 12)),
                source_port: be16(segment[0], segment[1]),
                destination: IpAddress::V4(octets_at(header, 16)),
                destination_port: be16(segment[2], segment[3]),
            },
        ),
{
    let frame = link + header + segment;
    let packet = header + segment;
    assert(ethernet_payload_of(frame)->0 =~= packet);
    assert(ipv4_payload_of(packet)->0 =~= segment);
    assert(octets_at(packet, 12) == octets_at(header, 12));
    assert(octets_at(packet, 16) == octets_at(header, 16));
    lemma_tcp_over_ipv4(frame);
}

/// The size of a UDP datagram is its length. The size of a TCP segment is
/// its length too, unless its header declares more than there is: then it is
/// the declared size of the header.
pub proof fn lemma_size_is_length(packet: Seq<u8>)
    requires
        packet.len() <= usize::MAX,
    ensures
        packet.len() >= 8 ==> udp_size_of(packet) == packet.len(),
        packet.len() >= 20 ==> tcp_size_of(packet) == if packet.len() > tcp_header_size_of(
            packet,
        )->0 {
            packet.len()
        } else {
            tcp_header_size_of(packet)->0 as nat
        },
{
}

/// A frame whose ethertype is neither that of IPv4 nor that of IPv6, or which
/// is too short to have one, shows no flow.
pub proof fn lemma_other_ethertype(frame: Seq<u8>)
    requires
        ethertype_of(frame) != Some(ETHERTYPE_IPV4),
        ethertype_of(frame) != Some(ETHERTYPE_IPV6),
    ensures
        frame_record(frame) is None,
{
}

/// A frame that claims to carry IPv4 and ends before the 20 bytes of an IPv4
/// header are complete shows no flow.
pub proof fn lemma_truncated_ipv4(frame: Seq<u8>)
    requires
        ethertype_of(frame) == Some(ETHERTYPE_IPV4),
        frame.len() < 14 + 20,
    ensures
        frame_record(frame) is None,
{
}

/// A frame that claims to carry IPv6 and ends before the 40 bytes of an IPv6
/// header are complete shows no flow.
pub proof fn lemma_truncated_ipv6(frame: Seq<u8>)
    requires
        ethertype_of(frame) == Some(ETHERTYPE_IPV6),
        frame.len() < 14 + 40,
    ensures
        frame_record(frame) is None,
{
}

/// A frame with a whole IPv4 or IPv6 header that carries neither TCP nor UDP
/// shows no flow.
pub proof fn lemma_other_transport(frame: Seq<u8>)
    requires
        frame.len() >= 14,
        ethertype_of(frame) == Some(ETHERTYPE_IPV4) ==> ipv4_protocol_of(
            ethernet_payload_of(frame)->0,
        ) != Some(TCP) && ipv4_protocol_of(ethernet_payload_of(frame)->0) != Some(UDP),
        ethertype_of(frame) == Some(ETHERTYPE_IPV6) ==> ipv6_next_header_of(
            ethernet_payload_of(frame)->0,
        ) != Some(TCP) && ipv6_next_header_of(ethernet_payload_of(frame)->0) != Some(UDP),
    ensures
        frame_record(frame) is None,
{
}

/// A frame shows a flow only between two addresses of one family.
pub proof fn lemma_flow_is_well_formed(frame: Seq<u8>)
    ensures
        frame_record(frame) matches Some(flow) ==> flow.wf(),
{
}

} // verus!
