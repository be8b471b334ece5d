//! The measurement that a flow is handed to the metrics sink as.

use vstd::prelude::*;
use vstd::string::*;

use crate::address::{ip_text, ip_to_string, IpAddress};
use crate::decimal::{decimal_string, decimal_text};
use crate::network::{ethernet_payload_of, frame_record, ipv4_payload_of, Proto};

verus! {

/// The name of the measurement.
pub const MEASUREMENT: &'static str = "packets";

/// The tag that holds the transport protocol.
pub const TAG_PROTOCOL: &'static str = "protocol";

/// The tag that holds the source address.
pub const TAG_SOURCE: &'static str = "source";

/// The tag that holds the source port.
pub const TAG_SOURCE_PORT: &'static str = "source_port";

/// The tag that holds the destination address.
pub const TAG_DESTINATION: &'static str = "destination";

/// The tag that holds the destination port.
pub const TAG_DESTINATION_PORT: &'static str = "destination_port";

/// The field that holds the size.
pub const FIELD_SIZE: &'static str = "size";

/// The largest size that a field can hold.
pub const SIZE_MAX: u64 = 0x7fff_ffff_ffff_ffff;

/// Why a flow cannot be handed on.
#[derive(Clone, Copy, Debug, PartialEq, Eq)]
pub enum ExportError {
    /// One of its addresses is an IPv6 address, which has no text form here.
    Ipv6Unsupported,
    /// Its size does not fit the field.
    SizeOutOfRange,
}

/// A named measurement with text tags and integer fields, each in the order
/// in which it was added.
#[derive(Clone, Debug, PartialEq, Eq)]
pub struct Measurement {
    pub key: String,
    pub tags: Vec<(String, String)>,
    pub fields: Vec<(String, i64)>,
}

/// What a `Measurement` holds.
pub struct MeasurementView {
    pub key: Seq<char>,
    pub tags: Seq<(Seq<char>, Seq<char>)>,
    pub fields: Seq<(Seq<char>, i64)>,
}

impl View for Measurement {
    type V = MeasurementView;

    open spec fn view(&self) -> MeasurementView {
        MeasurementView {
            key: self.key@,
            tags: Seq::new(self.tags@.len(), |i: int| (self.tags@[i].0@, self.tags@[i].1@)),
            fields: Seq::new(self.fields@.len(), |i: int| (self.fields@[i].0@, self.fields@[i].1)),
        }
    }
}

/// The measurement that stands for a flow: its protocol, addresses and ports
/// as tags and its size as the one field. A flow with an IPv6 address or
/// with a size beyond the field has none.
pub open spec fn measurement_of(packet: Proto) -> Result<MeasurementView, ExportError> {
    if !(packet.source is V4 && packet.destination is V4) {
        Err(ExportError::Ipv6Unsupported)
    } else if packet.packet_size > SIZE_MAX {
        Err(ExportError::SizeOutOfRange)
    } else {
        Ok(
            MeasurementView {
                key: MEASUREMENT@,
                tags: seq![
                    (TAG_PROTOCOL@, packet.protocol.name_text()),
                    (TAG_SOURCE@, ip_text(packet.source)),
                    (TAG_SOURCE_PORT@, decimal_text(packet.source_port as nat)),
                    (TAG_DESTINATION@, ip_text(packet.destination)),
                    (TAG_DESTINATION_PORT@, decimal_text(packet.destination_port as nat)),
                ],
                fields: seq![(FIELD_SIZE@, packet.packet_size as i64)],
            },
        )
    }
}

/// Builds the measurement that stands for a flow.
pub fn measurement(packet: &Proto) -> (r: Result<Measurement, ExportError>)
    ensures
        match r {
            Ok(m) => measurement_of(*packet) == Ok::<MeasurementView, ExportError>(m@),
            Err(e) => measurement_of(*packet) == Err::<MeasurementView, ExportError>(e),
        },
{
    match (packet.source, packet.destination) {
        (IpAddress::V4(_), IpAddress::V4(_)) => {},
        _ => {
            return Err(ExportError::Ipv6Unsupported);
        },
    }
    if packet.packet_size as u64 > SIZE_MAX {
        return Err(ExportError::SizeOutOfRange);
    }
    let mut tags: Vec<(String, String)> = Vec::new();
    tags.push((TAG_PROTOCOL.to_owned(), packet.protocol.name().to_owned()));
    tags.push((TAG_SOURCE.to_owned(), ip_to_string(packet.source)));
    tags.push((TAG_SOURCE_PORT.to_owned(), decimal_string(packet.source_port as u32)));
    tags.push((TAG_DESTINATION.to_owned(), ip_to_string(packet.destination)));
    tags.push((TAG_DESTINATION_PORT.to_owned(), decimal_string(packet.destination_port as u32)));
    let mut fields: Vec<(String, i64)> = Vec::new();
    fields.push((FIELD_SIZE.to_owned(), packet.packet_size as i64));
    let m = Measurement { key: MEASUREMENT.to_owned(), tags, fields };
    assert(m@.tags =~= measurement_of(*packet)->Ok_0.tags);
    assert(m@.fields =~= measurement_of(*packet)->Ok_0.fields);
    Ok(m)
}

/// Every flow that a frame shows between two IPv4 addresses has a
/// measurement.
pub proof fn lemma_decoded_flow_has_measurement(frame: Seq<u8>)
    requires
        frame_record(frame) matches Some(flow) && flow.source is V4,
    ensures
        measurement_of(frame_record(frame)->0) is Ok,
{
    let flow = frame_record(frame)->0;
    let packet = ethernet_payload_of(frame)->0;
    let segment = ipv4_payload_of(packet)->0;
    assert(segment.len() <= 0xffff + 60);
    assert(segment[12] / 16 <= 15);
    assert(flow.packet_size <= 0xffff + 60);
}

} // verus!
