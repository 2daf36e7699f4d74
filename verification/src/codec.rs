use crate::error::ErrorKind;
use vstd::prelude::*;

verus! {

/// Length of the fixed transport header in front of every payload unit.
pub const HEADER_LEN: usize = 12;

/// Length of the transport header together with the two bytes that head a fragment.
pub const FRAGMENT_PREFIX_LEN: usize = 14;

/// The unit-type byte of a sequence parameter set, which opens a group.
pub const START_OF_GROUP: u8 = 103;

/// The unit-type byte that announces a fragment of a larger unit.
pub const FRAGMENT_INDICATOR: u8 = 124;

/// What a transport packet carries.
#[derive(Debug, Clone, Copy, PartialEq, Eq, Structural)]
pub enum UnitType {
    /// A sequence parameter set: a new group of access-unit data starts here.
    StartOfGroup,
    /// One fragment of a unit that was split over several packets.
    Fragment { fragment_header: u8 },
    /// A whole unit in one packet.
    Complete,
}

/// The unit type of a packet, decided by the byte after the transport header; `None` where
/// the packet ends before the bytes that decide it.
pub open spec fn unit_type_of(packet: Seq<u8>) -> Option<UnitType> {
    if packet.len() <= HEADER_LEN {
        None
    } else if packet[HEADER_LEN as int] == START_OF_GROUP {
        Some(UnitType::StartOfGroup)
    } else if packet[HEADER_LEN as int] != FRAGMENT_INDICATOR {
        Some(UnitType::Complete)
    } else if packet.len() < FRAGMENT_PREFIX_LEN {
        None
    } else {
        Some(UnitType::Fragment { fragment_header: packet[HEADER_LEN + 1] })
    }
}

/// Where in its packet the payload of a unit starts.
pub open spec fn payload_start(unit: UnitType) -> nat {
    match unit {
        UnitType::Fragment { .. } => FRAGMENT_PREFIX_LEN as nat,
        _ => HEADER_LEN as nat,
    }
}

/// The bytes of a packet that belong to the access unit: what follows the transport
/// header and, in a fragment, the two fragment bytes.
pub open spec fn payload_of(packet: Seq<u8>) -> Seq<u8>
    recommends
        unit_type_of(packet) is Some,
{
    packet.skip(payload_start(unit_type_of(packet).unwrap()) as int)
}

/// Classifies a transport packet.
///
/// Fails with `MalformedPacket`, reading nothing beyond the packet's end, where the
/// packet is too short to be classified.
pub fn classify(packet: &[u8]) -> (unit: Result<UnitType, ErrorKind>)
    ensures
        unit == match unit_type_of(packet@) {
            Some(u) => Ok::<UnitType, ErrorKind>(u),
            None => Err(ErrorKind::MalformedPacket),
        },
{
    if packet.len() <= HEADER_LEN {
        return Err(ErrorKind::MalformedPacket);
    }
    let kind: u8 = packet[HEADER_LEN];
    if kind == START_OF_GROUP {
        Ok(UnitType::StartOfGroup)
    } else if kind != FRAGMENT_INDICATOR {
        Ok(UnitType::Complete)
    } else if packet.len() < FRAGMENT_PREFIX_LEN {
        Err(ErrorKind::MalformedPacket)
    } else {
        Ok(UnitType::Fragment { fragment_header: packet[HEADER_LEN + 1] })
    }
}

/// Classifies a packet and hands out its payload along with the unit type.
pub fn split(packet: &[u8]) -> (r: Result<(UnitType, &[u8]), ErrorKind>)
    ensures
        match r {
            Ok((unit, payload)) => unit_type_of(packet@) == Some(unit) && payload@ == payload_of(
                packet@,
            ),
            Err(e) => unit_type_of(packet@) is None && e == ErrorKind::MalformedPacket,
        },
{
    match classify(packet) {
        Ok(unit) => {
            let start: usize = match unit {
                UnitType::Fragment { .. } => FRAGMENT_PREFIX_LEN,
                _ => HEADER_LEN,
            };
            Ok((unit, vstd::slice::slice_subrange(packet, start, packet.len())))
        },
        Err(e) => Err(e),
    }
}

/// Whether a packet of the given unit type can be made around `body`. A complete unit
/// brings its own type byte, which must not be one of the two that mean something else.
pub open spec fn encodable(unit: UnitType, body: Seq<u8>) -> bool {
    unit is Complete ==> body.len() > 0 && body[0] != START_OF_GROUP && body[0]
        != FRAGMENT_INDICATOR
}

/// The packet of the given unit type around `body`: the transport header, the bytes that
/// tell the unit type, and the body. The body of a complete unit is the whole unit.
pub open spec fn encoded(header: Seq<u8>, unit: UnitType, body: Seq<u8>) -> Seq<u8> {
    match unit {
        UnitType::StartOfGroup => header + seq![START_OF_GROUP] + body,
        UnitType::Fragment { fragment_header } => header + seq![
            FRAGMENT_INDICATOR,
            fragment_header,
        ] + body,
        UnitType::Complete => header + body,
    }
}

/// Appends `bytes` to `buffer`.
pub(crate) fn append_bytes(buffer: &mut Vec<u8>, bytes: &[u8])
    ensures
        final(buffer)@ == old(buffer)@ + bytes@,
{
    buffer.extend_from_slice(bytes);
}

/// Builds the packet of the given unit type around `body`, behind the transport header
/// `header`. Fails with `MalformedPacket` where no such packet exists.
pub fn encode(header: &[u8; 12], unit: UnitType, body: &[u8]) -> (packet: Result<
    Vec<u8>,
    ErrorKind,
>)
    ensures
        match packet {
            Ok(bytes) => encodable(unit, body@) && bytes@ == encoded(header@, unit, body@),
            Err(e) => !encodable(unit, body@) && e == ErrorKind::MalformedPacket,
        },
{
    let mut bytes: Vec<u8> = Vec::new();
    append_bytes(&mut bytes, header.as_slice());
    match unit {
        UnitType::StartOfGroup => {
            bytes.push(START_OF_GROUP);
        },
        UnitType::Fragment { fragment_header } => {
            bytes.push(FRAGMENT_INDICATOR);
            bytes.push(fragment_header);
        },
        UnitType::Complete => {
            if body.len() == 0 || body[0] == START_OF_GROUP || body[0] == FRAGMENT_INDICATOR {
                return Err(ErrorKind::MalformedPacket);
            }
        },
    }
    append_bytes(&mut bytes, body);
    Ok(bytes)
}

/// Encoding and then classifying gives back the unit type, and the payload of the packet
/// is the body, behind the type byte where the packet opens a group.
pub proof fn lemma_encode_then_classify(header: Seq<u8>, unit: UnitType, body: Seq<u8>)
    requires
        header.len() == HEADER_LEN,
        encodable(unit, body),
    ensures
        unit_type_of(encoded(header, unit, body)) == Some(unit),
        payload_of(encoded(header, unit, body)) == if unit is StartOfGroup {
            seq![START_OF_GROUP] + body
        } else {
            body
        },
{
}

/// Classification is total: every packet long enough for its headers has a unit type,
/// and the byte behind the transport header alone decides which.
pub proof fn lemma_classification_is_total(packet: Seq<u8>)
    requires
        packet.len() > HEADER_LEN,
        packet[HEADER_LEN as int] == FRAGMENT_INDICATOR ==> packet.len() >= FRAGMENT_PREFIX_LEN,
    ensures
        unit_type_of(packet) == Some(
            if packet[HEADER_LEN as int] == START_OF_GROUP {
                UnitType::StartOfGroup
            } else if packet[HEADER_LEN as int] == FRAGMENT_INDICATOR {
                UnitType::Fragment { fragment_header: packet[HEADER_LEN + 1] }
            } else {
                UnitType::Complete
            },
        ),
{
}

/// Classifying the same packet twice gives the same answer: whatever two calls of
/// `classify` return on one packet, the two results are equal.
pub proof fn lemma_classify_is_repeatable(
    packet: &[u8],
    first: Result<UnitType, ErrorKind>,
    second: Result<UnitType, ErrorKind>,
)
    requires
        call_ensures(classify, (packet,), first),
        call_ensures(classify, (packet,), second),
    ensures
        first == second,
{
}

/// Whether a fragment header is one of the three that mark a fragment of a key-frame
/// slice: its start, its middle, or its end.
pub open spec fn marks_fragment_end(fragment_header: u8) -> bool {
    fragment_header == 133 || fragment_header == 69 || fragment_header == 5
}

/// Tells whether a fragment header belongs to a key-frame slice, so that the unit in
/// progress may be considered for flushing.
pub fn is_fragment_end(fragment_header: u8) -> (r: bool)
    ensures
        r == marks_fragment_end(fragment_header),
{
    fragment_header == 133 || fragment_header == 69 || fragment_header == 5
}

/// The fields of the byte that heads a fragment.
#[derive(Debug, Clone, Copy, PartialEq, Eq, Structural)]
pub struct FragmentHeader {
    /// Set on the first fragment of a unit.
    pub start: bool,
    /// Set on the last fragment of a unit.
    pub end: bool,
    /// The reserved bit.
    pub reserved: bool,
    /// The type of the unit that was fragmented, five bits wide.
    pub unit_type: u8,
}

/// The fields of a fragment header byte: from the top bit down, start flag, end flag,
/// reserved bit, and the unit type in the low five bits.
pub open spec fn fragment_fields(byte: u8) -> FragmentHeader {
    FragmentHeader {
        start: byte & 0x80 != 0,
        end: byte & 0x40 != 0,
        reserved: byte & 0x20 != 0,
        unit_type: byte & 0x1f,
    }
}

impl FragmentHeader {
    /// Takes a fragment header byte apart.
    pub fn parse(byte: u8) -> (header: FragmentHeader)
        ensures
            header == fragment_fields(byte),
    {
        FragmentHeader {
            start: byte & 0x80 != 0,
            end: byte & 0x40 != 0,
            reserved: byte & 0x20 != 0,
            unit_type: byte & 0x1f,
        }
    }
}

/// The key-frame markers are exactly the fragment headers of unit type 5 with the
/// reserved bit clear and at most one of the two flags set.
pub proof fn lemma_fragment_end_fields(byte: u8)
    ensures
        marks_fragment_end(byte) <==> {
            let f = fragment_fields(byte);
            f.unit_type == 5 && !f.reserved && !(f.start && f.end)
        },
{
    assert((byte == 133 || byte == 69 || byte == 5) <==> ((byte & 0x1f) == 5 && (byte & 0x20) == 0
        && !((byte & 0x80) != 0 && (byte & 0x40) != 0))) by (bit_vector);
}

} // verus!
