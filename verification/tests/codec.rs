use rtsp_client::codec::{
    classify, encode, is_fragment_end, split, FragmentHeader, UnitType, FRAGMENT_INDICATOR,
    FRAGMENT_PREFIX_LEN, HEADER_LEN, START_OF_GROUP,
};
use rtsp_client::error::ErrorKind;

fn packet(after_header: &[u8]) -> Vec<u8> {
    let mut bytes = vec![0x80, 0x60, 0x12, 0x34, 0, 0, 0, 1, 0xde, 0xad, 0xbe, 0xef];
    bytes.extend_from_slice(after_header);
    bytes
}

#[test]
fn constants_have_the_documented_values() {
    assert_eq!(HEADER_LEN, 12);
    assert_eq!(FRAGMENT_PREFIX_LEN, 14);
    assert_eq!(START_OF_GROUP, 103);
    assert_eq!(FRAGMENT_INDICATOR, 124);
}

#[test]
fn byte_103_is_a_start_of_group() {
    assert_eq!(classify(&packet(&[103, 0x42, 0x00, 0x1f])), Ok(UnitType::StartOfGroup));
}

#[test]
fn byte_124_is_a_fragment_with_its_header() {
    assert_eq!(
        classify(&packet(&[124, 133, 1, 2, 3])),
        Ok(UnitType::Fragment { fragment_header: 133 })
    );
    assert_eq!(classify(&packet(&[124, 0])), Ok(UnitType::Fragment { fragment_header: 0 }));
}

#[test]
fn every_other_byte_is_a_complete_unit() {
    for kind in 0..=255u8 {
        if kind == 103 || kind == 124 {
            continue;
        }
        assert_eq!(classify(&packet(&[kind, 9, 9])), Ok(UnitType::Complete), "byte {}", kind);
    }
}

#[test]
fn thirteen_byte_start_of_group_is_classified() {
    let bytes = packet(&[103]);
    assert_eq!(bytes.len(), 13);
    assert_eq!(classify(&bytes), Ok(UnitType::StartOfGroup));
}

#[test]
fn thirteen_byte_complete_unit_is_classified() {
    assert_eq!(classify(&packet(&[0x41])), Ok(UnitType::Complete));
}

#[test]
fn ten_byte_packet_is_malformed() {
    let bytes = [0u8; 10];
    assert_eq!(classify(&bytes), Err(ErrorKind::MalformedPacket));
    assert_eq!(split(&bytes), Err(ErrorKind::MalformedPacket));
}

#[test]
fn empty_and_header_only_packets_are_malformed() {
    assert_eq!(classify(&[]), Err(ErrorKind::MalformedPacket));
    assert_eq!(classify(&[0u8; 12]), Err(ErrorKind::MalformedPacket));
}

#[test]
fn fragment_without_its_header_byte_is_malformed() {
    let bytes = packet(&[124]);
    assert_eq!(bytes.len(), 13);
    assert_eq!(classify(&bytes), Err(ErrorKind::MalformedPacket));
}

#[test]
fn classifying_twice_gives_the_same_answer() {
    for bytes in [packet(&[103, 1]), packet(&[124, 69, 7]), packet(&[1, 2, 3]), vec![0u8; 10]] {
        assert_eq!(classify(&bytes), classify(&bytes));
    }
}

#[test]
fn split_strips_the_headers() {
    assert_eq!(
        split(&packet(&[124, 133, 1, 2, 3])),
        Ok((UnitType::Fragment { fragment_header: 133 }, &[1u8, 2, 3][..]))
    );
    assert_eq!(split(&packet(&[0x41, 7, 8])), Ok((UnitType::Complete, &[0x41u8, 7, 8][..])));
    assert_eq!(split(&packet(&[103, 5])), Ok((UnitType::StartOfGroup, &[103u8, 5][..])));
    assert_eq!(
        split(&packet(&[124, 5])),
        Ok((UnitType::Fragment { fragment_header: 5 }, &[][..]))
    );
}

#[test]
fn key_frame_markers_are_133_69_and_5() {
    for header in 0..=255u8 {
        assert_eq!(is_fragment_end(header), header == 133 || header == 69 || header == 5);
    }
}

#[test]
fn fragment_header_fields() {
    assert_eq!(
        FragmentHeader::parse(133),
        FragmentHeader { start: true, end: false, reserved: false, unit_type: 5 }
    );
    assert_eq!(
        FragmentHeader::parse(69),
        FragmentHeader { start: false, end: true, reserved: false, unit_type: 5 }
    );
    assert_eq!(
        FragmentHeader::parse(5),
        FragmentHeader { start: false, end: false, reserved: false, unit_type: 5 }
    );
    assert_eq!(
        FragmentHeader::parse(0xff),
        FragmentHeader { start: true, end: true, reserved: true, unit_type: 31 }
    );
    assert_eq!(
        FragmentHeader::parse(0x20),
        FragmentHeader { start: false, end: false, reserved: true, unit_type: 0 }
    );
}

#[test]
fn key_frame_markers_match_their_fields() {
    for byte in 0..=255u8 {
        let f = FragmentHeader::parse(byte);
        assert_eq!(
            is_fragment_end(byte),
            f.unit_type == 5 && !f.reserved && !(f.start && f.end)
        );
    }
}

#[test]
fn encoded_start_of_group_classifies_as_start_of_group() {
    let header = [0x80, 0x60, 0, 1, 0, 0, 0, 2, 0, 0, 0, 3];
    let bytes = encode(&header, UnitType::StartOfGroup, &[0x42, 0x00, 0x1f]).unwrap();
    assert_eq!(bytes, vec![0x80, 0x60, 0, 1, 0, 0, 0, 2, 0, 0, 0, 3, 103, 0x42, 0x00, 0x1f]);
    assert_eq!(classify(&bytes), Ok(UnitType::StartOfGroup));
    let bare = encode(&header, UnitType::StartOfGroup, &[]).unwrap();
    assert_eq!(bare.len(), 13);
    assert_eq!(classify(&bare), Ok(UnitType::StartOfGroup));
}

#[test]
fn encoded_packets_classify_as_what_was_encoded() {
    let header = [7u8; 12];
    for fragment_header in [0u8, 5, 69, 133, 255] {
        let unit = UnitType::Fragment { fragment_header };
        let bytes = encode(&header, unit, &[1, 2, 3]).unwrap();
        assert_eq!(bytes[..12], header);
        assert_eq!(bytes[12..], [124, fragment_header, 1, 2, 3]);
        assert_eq!(split(&bytes), Ok((unit, &[1u8, 2, 3][..])));
    }
    let bytes = encode(&header, UnitType::Complete, &[0x41, 9]).unwrap();
    assert_eq!(bytes[12..], [0x41, 9]);
    assert_eq!(split(&bytes), Ok((UnitType::Complete, &[0x41u8, 9][..])));
}

#[test]
fn complete_unit_must_bring_a_fitting_type_byte() {
    let header = [0u8; 12];
    assert_eq!(encode(&header, UnitType::Complete, &[]), Err(ErrorKind::MalformedPacket));
    assert_eq!(encode(&header, UnitType::Complete, &[103, 1]), Err(ErrorKind::MalformedPacket));
    assert_eq!(encode(&header, UnitType::Complete, &[124, 1]), Err(ErrorKind::MalformedPacket));
    assert!(encode(&header, UnitType::Complete, &[104]).is_ok());
}
