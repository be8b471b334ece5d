use pnet::packet::ethernet::{EtherTypes, MutableEthernetPacket};
use pnet::packet::ip::IpNextHeaderProtocols;
use pnet::packet::ipv4::MutableIpv4Packet;
use pnet::packet::ipv6::MutableIpv6Packet;
use pnet::packet::tcp::MutableTcpPacket;
use pnet::packet::udp::MutableUdpPacket;
use trubadur::address::IpAddress;
use trubadur::network::{
    handle_ipv4_packet, handle_ipv6_packet, handle_packet, handle_transport_protocol, Proto,
    SnifferError, Transport, TCP, UDP,
};

fn ethernet(ethertype: u16, payload: &[u8]) -> Vec<u8> {
    let mut frame = vec![0u8; 12];
    frame.push((ethertype >> 8) as u8);
    frame.push((ethertype & 0xff) as u8);
    frame.extend_from_slice(payload);
    frame
}

fn ipv4(header_words: u8, total_length: u16, protocol: u8, payload: &[u8]) -> Vec<u8> {
    let mut packet = vec![0u8; 4 * header_words.max(5) as usize];
    packet[0] = 0x40 | header_words;
    packet[2] = (total_length >> 8) as u8;
    packet[3] = (total_length & 0xff) as u8;
    packet[8] = 64;
    packet[9] = protocol;
    packet[12..16].copy_from_slice(&[192, 168, 1, 10]);
    packet[16..20].copy_from_slice(&[10, 0, 0, 2]);
    packet.extend_from_slice(payload);
    packet
}

fn ipv6(payload_length: u16, next_header: u8, payload: &[u8]) -> Vec<u8> {
    let mut packet = vec![0u8; 40];
    packet[0] = 0x60;
    packet[4] = (payload_length >> 8) as u8;
    packet[5] = (payload_length & 0xff) as u8;
    packet[6] = next_header;
    packet[7] = 64;
    packet[8..24].copy_from_slice(&[0xfe, 0x80, 0, 0, 0, 0, 0, 0, 0, 0, 0, 0, 0, 0, 0, 1]);
    packet[24..40].copy_from_slice(&[0x20, 0x01, 0x0d, 0xb8, 0, 0, 0, 0, 0, 0, 0, 0, 0, 0, 0xab, 0xcd]);
    packet.extend_from_slice(payload);
    packet
}

fn tcp(source: u16, destination: u16, data_offset: u8, trailing: usize) -> Vec<u8> {
    let mut segment = vec![0u8; 20 + trailing];
    segment[0] = (source >> 8) as u8;
    segment[1] = (source & 0xff) as u8;
    segment[2] = (destination >> 8) as u8;
    segment[3] = (destination & 0xff) as u8;
    segment[12] = data_offset << 4;
    segment
}

fn udp(source: u16, destination: u16, trailing: usize) -> Vec<u8> {
    let mut datagram = vec![0u8; 8 + trailing];
    datagram[0] = (source >> 8) as u8;
    datagram[1] = (source & 0xff) as u8;
    datagram[2] = (destination >> 8) as u8;
    datagram[3] = (destination & 0xff) as u8;
    let length = (8 + trailing) as u16;
    datagram[4] = (length >> 8) as u8;
    datagram[5] = (length & 0xff) as u8;
    datagram
}

const V4_SOURCE: IpAddress = IpAddress::V4([192, 168, 1, 10]);
const V4_DESTINATION: IpAddress = IpAddress::V4([10, 0, 0, 2]);
const V6_SOURCE: IpAddress = IpAddress::V6([0xfe80, 0, 0, 0, 0, 0, 0, 1]);
const V6_DESTINATION: IpAddress = IpAddress::V6([0x2001, 0x0db8, 0, 0, 0, 0, 0, 0xabcd]);

#[test]
fn tcp_over_ipv4_is_decoded() {
    let segment = tcp(443, 51000, 5, 12);
    let frame = ethernet(0x0800, &ipv4(5, 20 + 32, 6, &segment));
    assert_eq!(
        handle_packet(&frame),
        Some(Proto {
            protocol: Transport::Tcp,
            packet_size: 32,
            source: V4_SOURCE,
            source_port: 443,
            destination: V4_DESTINATION,
            destination_port: 51000,
        })
    );
}

#[test]
fn tcp_ports_cover_the_whole_range() {
    for (source, destination) in [(0u16, 65535u16), (65535, 0), (1, 256), (255, 257), (0x1234, 0xfedc)] {
        let segment = tcp(source, destination, 5, 0);
        let frame = ethernet(0x0800, &ipv4(5, 40, 6, &segment));
        let flow = handle_packet(&frame).unwrap();
        assert_eq!(flow.protocol, Transport::Tcp);
        assert_eq!(flow.source, V4_SOURCE);
        assert_eq!(flow.destination, V4_DESTINATION);
        assert_eq!(flow.source_port, source);
        assert_eq!(flow.destination_port, destination);
    }
}

#[test]
fn tcp_size_is_the_length_of_the_segment() {
    for trailing in [0usize, 1, 12, 100, 1440] {
        for data_offset in [0u8, 5, 6, 8] {
            let segment = tcp(80, 8080, data_offset, trailing + 12);
            let frame = ethernet(0x0800, &ipv4(5, (20 + segment.len()) as u16, 6, &segment));
            assert_eq!(handle_packet(&frame).unwrap().packet_size, 32 + trailing);
        }
    }
}

#[test]
fn tcp_size_is_never_below_the_declared_header() {
    let segment = tcp(80, 8080, 8, 0);
    let frame = ethernet(0x0800, &ipv4(5, 40, 6, &segment));
    assert_eq!(handle_packet(&frame).unwrap().packet_size, 32);
    let segment = tcp(80, 8080, 15, 20);
    let frame = ethernet(0x0800, &ipv4(5, 60, 6, &segment));
    assert_eq!(handle_packet(&frame).unwrap().packet_size, 60);
    let segment = tcp(80, 8080, 15, 40);
    let frame = ethernet(0x0800, &ipv4(5, 80, 6, &segment));
    assert_eq!(handle_packet(&frame).unwrap().packet_size, 60);
    let segment = tcp(80, 8080, 15, 41);
    let frame = ethernet(0x0800, &ipv4(5, 81, 6, &segment));
    assert_eq!(handle_packet(&frame).unwrap().packet_size, 61);
}

#[test]
fn size_leaves_out_the_link_layer_trailer() {
    let segment = tcp(80, 8080, 5, 10);
    let mut packet = ipv4(5, 50, 6, &segment);
    packet.extend_from_slice(&[0u8; 6]);
    assert_eq!(handle_packet(&ethernet(0x0800, &packet)).unwrap().packet_size, 30);
    let datagram = udp(53, 53, 4);
    let mut packet = ipv4(5, 32, 17, &datagram);
    packet.extend_from_slice(&[0u8; 14]);
    assert_eq!(handle_packet(&ethernet(0x0800, &packet)).unwrap().packet_size, 12);
}

#[test]
fn udp_size_is_the_length_of_the_datagram() {
    for trailing in [0usize, 1, 30, 512, 1472] {
        let datagram = udp(53, 40000, trailing);
        let frame = ethernet(0x0800, &ipv4(5, (28 + trailing) as u16, 17, &datagram));
        assert_eq!(handle_packet(&frame).unwrap().packet_size, 8 + trailing);
    }
}

#[test]
fn udp_over_ipv4_is_decoded() {
    let datagram = udp(53, 40000, 30);
    let frame = ethernet(0x0800, &ipv4(5, 20 + 38, 17, &datagram));
    assert_eq!(
        handle_packet(&frame),
        Some(Proto {
            protocol: Transport::Udp,
            packet_size: 38,
            source: V4_SOURCE,
            source_port: 53,
            destination: V4_DESTINATION,
            destination_port: 40000,
        })
    );
}

#[test]
fn tcp_over_ipv6_is_decoded() {
    let segment = tcp(22, 60022, 5, 4);
    let frame = ethernet(0x86dd, &ipv6(24, 6, &segment));
    assert_eq!(
        handle_packet(&frame),
        Some(Proto {
            protocol: Transport::Tcp,
            packet_size: 24,
            source: V6_SOURCE,
            source_port: 22,
            destination: V6_DESTINATION,
            destination_port: 60022,
        })
    );
}

#[test]
fn udp_over_ipv6_is_decoded() {
    let datagram = udp(5353, 5353, 0);
    let frame = ethernet(0x86dd, &ipv6(8, 17, &datagram));
    assert_eq!(
        handle_packet(&frame),
        Some(Proto {
            protocol: Transport::Udp,
            packet_size: 8,
            source: V6_SOURCE,
            source_port: 5353,
            destination: V6_DESTINATION,
            destination_port: 5353,
        })
    );
}

#[test]
fn unrecognized_ethertype_gives_no_record() {
    let segment = tcp(443, 51000, 5, 0);
    let packet = ipv4(5, 40, 6, &segment);
    for ethertype in [0x0806u16, 0x0000, 0xffff, 0x0801, 0x86dc, 0x8100, 0x0008] {
        assert_eq!(handle_packet(&ethernet(ethertype, &packet)), None);
    }
}

#[test]
fn short_frames_give_no_record() {
    let segment = tcp(443, 51000, 5, 0);
    let frame = ethernet(0x0800, &ipv4(5, 40, 6, &segment));
    for length in 0..14 {
        assert_eq!(handle_packet(&frame[..length]), None);
        assert_eq!(handle_ipv4_packet(&frame[..length]), None);
        assert_eq!(handle_ipv6_packet(&frame[..length]), None);
    }
}

#[test]
fn truncated_ipv4_header_gives_no_record() {
    let segment = tcp(443, 51000, 5, 0);
    let frame = ethernet(0x0800, &ipv4(5, 40, 6, &segment));
    for length in 14..34 {
        assert_eq!(handle_packet(&frame[..length]), None);
    }
}

#[test]
fn truncated_ipv6_header_gives_no_record() {
    let segment = tcp(443, 51000, 5, 0);
    let frame = ethernet(0x86dd, &ipv6(20, 6, &segment));
    for length in 14..54 {
        assert_eq!(handle_packet(&frame[..length]), None);
    }
}

#[test]
fn truncated_transport_header_gives_no_record() {
    let segment = tcp(443, 51000, 5, 0);
    let frame = ethernet(0x0800, &ipv4(5, 40, 6, &segment));
    for length in 34..54 {
        assert_eq!(handle_packet(&frame[..length]), None);
    }
    assert!(handle_packet(&frame).is_some());
    let datagram = udp(53, 53, 0);
    let frame = ethernet(0x0800, &ipv4(5, 28, 17, &datagram));
    for length in 34..42 {
        assert_eq!(handle_packet(&frame[..length]), None);
    }
    assert!(handle_packet(&frame).is_some());
}

#[test]
fn other_transports_give_no_record() {
    let body = vec![0u8; 64];
    for protocol in [1u8, 0, 2, 5, 7, 16, 18, 41, 47, 58, 132, 255] {
        assert_eq!(handle_packet(&ethernet(0x0800, &ipv4(5, 84, protocol, &body))), None);
        assert_eq!(handle_packet(&ethernet(0x86dd, &ipv6(64, protocol, &body))), None);
    }
}

#[test]
fn ipv4_options_move_the_payload() {
    let segment = tcp(1000, 2000, 5, 0);
    let frame = ethernet(0x0800, &ipv4(7, 28 + 20, 6, &segment));
    let flow = handle_packet(&frame).unwrap();
    assert_eq!(flow.source_port, 1000);
    assert_eq!(flow.destination_port, 2000);
}

#[test]
fn ipv4_header_length_below_five_words_counts_as_five() {
    let segment = tcp(1000, 2000, 5, 0);
    let mut packet = ipv4(5, 40, 6, &segment);
    packet[0] = 0x42;
    let flow = handle_packet(&ethernet(0x0800, &packet)).unwrap();
    assert_eq!(flow.source_port, 1000);
    assert_eq!(flow.destination_port, 2000);
}

#[test]
fn ipv4_total_length_cuts_the_link_layer_trailer() {
    let segment = tcp(1000, 2000, 5, 0);
    let mut packet = ipv4(5, 20 + 19, 6, &segment);
    packet.extend_from_slice(&[0u8; 8]);
    assert_eq!(handle_packet(&ethernet(0x0800, &packet)), None);
    let mut packet = ipv4(5, 20 + 20, 6, &segment);
    packet.extend_from_slice(&[0u8; 8]);
    assert!(handle_packet(&ethernet(0x0800, &packet)).is_some());
}

#[test]
fn ipv6_payload_length_cuts_the_link_layer_trailer() {
    let datagram = udp(1000, 2000, 0);
    let mut packet = ipv6(7, 17, &datagram);
    packet.extend_from_slice(&[0u8; 8]);
    assert_eq!(handle_packet(&ethernet(0x86dd, &packet)), None);
    let mut packet = ipv6(8, 17, &datagram);
    packet.extend_from_slice(&[0u8; 8]);
    assert!(handle_packet(&ethernet(0x86dd, &packet)).is_some());
}

#[test]
fn transport_dispatch_keeps_the_addresses() {
    let segment = tcp(7, 9, 6, 4);
    assert_eq!(
        handle_transport_protocol(V6_SOURCE, V6_DESTINATION, TCP, &segment),
        Some(Proto {
            protocol: Transport::Tcp,
            packet_size: 24,
            source: V6_SOURCE,
            source_port: 7,
            destination: V6_DESTINATION,
            destination_port: 9,
        })
    );
    let datagram = udp(7, 9, 0);
    assert_eq!(
        handle_transport_protocol(V4_SOURCE, V4_DESTINATION, UDP, &datagram),
        Some(Proto {
            protocol: Transport::Udp,
            packet_size: 8,
            source: V4_SOURCE,
            source_port: 7,
            destination: V4_DESTINATION,
            destination_port: 9,
        })
    );
    assert_eq!(handle_transport_protocol(V4_SOURCE, V4_DESTINATION, 1, &segment), None);
    assert_eq!(handle_transport_protocol(V4_SOURCE, V4_DESTINATION, UDP, &datagram[..7]), None);
    assert_eq!(handle_transport_protocol(V4_SOURCE, V4_DESTINATION, TCP, &segment[..19]), None);
}

#[test]
fn frames_built_by_the_packet_library_are_decoded() {
    let mut buffer = vec![0u8; 14 + 24 + 28];
    {
        let mut frame = MutableEthernetPacket::new(&mut buffer).unwrap();
        frame.set_ethertype(EtherTypes::Ipv4);
    }
    {
        let mut packet = MutableIpv4Packet::new(&mut buffer[14..]).unwrap();
        packet.set_version(4);
        packet.set_header_length(6);
        packet.set_total_length(24 + 28);
        packet.set_next_level_protocol(IpNextHeaderProtocols::Tcp);
        packet.set_source("172.16.254.1".parse().unwrap());
        packet.set_destination("8.8.4.4".parse().unwrap());
    }
    {
        let mut segment = MutableTcpPacket::new(&mut buffer[14 + 24..]).unwrap();
        segment.set_source(49152);
        segment.set_destination(8443);
        segment.set_data_offset(7);
    }
    assert_eq!(
        handle_packet(&buffer),
        Some(Proto {
            protocol: Transport::Tcp,
            packet_size: 28,
            source: IpAddress::V4([172, 16, 254, 1]),
            source_port: 49152,
            destination: IpAddress::V4([8, 8, 4, 4]),
            destination_port: 8443,
        })
    );

    let mut buffer = vec![0u8; 14 + 40 + 12];
    {
        let mut frame = MutableEthernetPacket::new(&mut buffer).unwrap();
        frame.set_ethertype(EtherTypes::Ipv6);
    }
    {
        let mut packet = MutableIpv6Packet::new(&mut buffer[14..]).unwrap();
        packet.set_version(6);
        packet.set_payload_length(12);
        packet.set_next_header(IpNextHeaderProtocols::Udp);
        packet.set_source("2001:db8::1:2".parse().unwrap());
        packet.set_destination("fe80::ff".parse().unwrap());
    }
    {
        let mut datagram = MutableUdpPacket::new(&mut buffer[14 + 40..]).unwrap();
        datagram.set_source(123);
        datagram.set_destination(32123);
        datagram.set_length(12);
    }
    assert_eq!(
        handle_packet(&buffer),
        Some(Proto {
            protocol: Transport::Udp,
            packet_size: 12,
            source: IpAddress::V6([0x2001, 0x0db8, 0, 0, 0, 0, 1, 2]),
            source_port: 123,
            destination: IpAddress::V6([0xfe80, 0, 0, 0, 0, 0, 0, 0xff]),
            destination_port: 32123,
        })
    );
}

#[test]
fn transport_names_are_lower_case() {
    assert_eq!(Transport::Tcp.name(), "tcp");
    assert_eq!(Transport::Udp.name(), "udp");
}

#[test]
fn sniffer_errors_have_their_texts() {
    assert_eq!(SnifferError::HandlePacketError.message(), "Error: Couldnt handle packet ");
    assert_eq!(SnifferError::UnknownPacketProtocol.message(), "Error: Unkown packet protocol ");
    assert_eq!(SnifferError::Ipv4PacketError.message(), "Error: Couldnt handle ipv4 packet ");
    assert_eq!(SnifferError::Ipv6PacketError.message(), "Error: Couldnt handle ipv6 packet ");
    assert_eq!(SnifferError::HandlePacketError.description(), "Error: Couldnt handle packet ");
    assert_eq!(SnifferError::UnknownPacketProtocol.description(), "Error: Unkown packet protocol");
    assert_eq!(SnifferError::Ipv4PacketError.description(), "Error: Couldnt handle ipv4 packet ");
    assert_eq!(SnifferError::Ipv6PacketError.description(), "Error: Couldnt handle ipv6 packet ");
}

fn patterned(length: usize) -> Vec<u8> {
    (0..length).map(|i| (i * 7 + 3) as u8).collect()
}

fn port_at(bytes: &[u8], at: usize) -> u16 {
    (bytes[at] as u16) * 256 + bytes[at + 1] as u16
}

#[test]
fn ipv4_payload_lies_between_the_declared_bounds() {
    for header_words in 0..=15usize {
        for total_length in [0usize, 8, 19, 20, 21, 27, 28, 29, 40, 59, 60, 61, 68, 100, 65535] {
            for length in [20usize, 21, 27, 28, 29, 40, 59, 60, 61, 67, 68, 69, 100] {
                let mut packet = patterned(length);
                packet[0] = 0x40 | header_words as u8;
                packet[2] = (total_length >> 8) as u8;
                packet[3] = (total_length & 0xff) as u8;
                packet[9] = UDP;
                let declared_header = header_words * 4;
                let start = declared_header.max(20);
                let end = (start + total_length.saturating_sub(declared_header)).min(length);
                let payload: &[u8] = if length <= start { &[] } else { &packet[start..end] };
                let expected = if payload.len() >= 8 {
                    Some(Proto {
                        protocol: Transport::Udp,
                        packet_size: payload.len(),
                        source: IpAddress::V4([packet[12], packet[13], packet[14], packet[15]]),
                        source_port: port_at(payload, 0),
                        destination: IpAddress::V4([packet[16], packet[17], packet[18], packet[19]]),
                        destination_port: port_at(payload, 2),
                    })
                } else {
                    None
                };
                let frame = ethernet(0x0800, &packet);
                assert_eq!(
                    handle_packet(&frame),
                    expected,
                    "header words {}, total length {}, length {}",
                    header_words,
                    total_length,
                    length
                );
            }
        }
    }
}

#[test]
fn ipv6_payload_lies_within_the_declared_length() {
    for payload_length in [0usize, 1, 7, 8, 9, 19, 20, 21, 40, 100, 65535] {
        for length in [40usize, 41, 47, 48, 49, 59, 60, 61, 80, 140] {
            let mut packet = patterned(length);
            packet[4] = (payload_length >> 8) as u8;
            packet[5] = (payload_length & 0xff) as u8;
            packet[6] = TCP;
            let end = (40 + payload_length).min(length);
            let payload: &[u8] = if length <= 40 { &[] } else { &packet[40..end] };
            let expected = if payload.len() >= 20 {
                let words = (payload[12] >> 4) as usize;
                let mut source = [0u16; 8];
                let mut destination = [0u16; 8];
                for i in 0..8 {
                    source[i] = port_at(&packet, 8 + 2 * i);
                    destination[i] = port_at(&packet, 24 + 2 * i);
                }
                Some(Proto {
                    protocol: Transport::Tcp,
                    packet_size: payload.len().max(if words > 5 { words * 4 } else { 20 }),
                    source: IpAddress::V6(source),
                    source_port: port_at(payload, 0),
                    destination: IpAddress::V6(destination),
                    destination_port: port_at(payload, 2),
                })
            } else {
                None
            };
            let frame = ethernet(0x86dd, &packet);
            assert_eq!(
                handle_packet(&frame),
                expected,
                "payload length {}, length {}",
                payload_length,
                length
            );
        }
    }
}

#[test]
fn tcp_size_follows_the_length_and_the_data_offset() {
    for byte in 0..=255u8 {
        let mut segment = patterned(64);
        segment[12] = byte;
        let words = (byte >> 4) as usize;
        let flow = handle_transport_protocol(V4_SOURCE, V4_DESTINATION, TCP, &segment).unwrap();
        assert_eq!(flow.packet_size, 64.max(if words > 5 { words * 4 } else { 20 }));
        let short = handle_transport_protocol(V4_SOURCE, V4_DESTINATION, TCP, &segment[..20]);
        assert_eq!(short.unwrap().packet_size, if words > 5 { words * 4 } else { 20 });
        assert_eq!(flow.source_port, port_at(&segment, 0));
        assert_eq!(flow.destination_port, port_at(&segment, 2));
    }
}

#[test]
fn every_protocol_number_is_dispatched() {
    let segment = patterned(64);
    for protocol in 0..=255u8 {
        let flow = handle_transport_protocol(V4_SOURCE, V4_DESTINATION, protocol, &segment);
        match protocol {
            6 => assert_eq!(flow.unwrap().protocol, Transport::Tcp),
            17 => assert_eq!(flow.unwrap().protocol, Transport::Udp),
            _ => assert_eq!(flow, None),
        }
    }
}

#[test]
fn every_ethertype_is_dispatched() {
    let packet = patterned(128);
    for high in 0..=255u8 {
        for low in [0x00u8, 0x01, 0x06, 0x08, 0xdc, 0xdd, 0xde, 0xff] {
            let ethertype = (high as u16) * 256 + low as u16;
            let frame = ethernet(ethertype, &packet);
            let flow = handle_packet(&frame);
            match ethertype {
                0x0800 => assert_eq!(flow, handle_ipv4_packet(&frame)),
                0x86dd => assert_eq!(flow, handle_ipv6_packet(&frame)),
                _ => assert_eq!(flow, None),
            }
        }
    }
}
