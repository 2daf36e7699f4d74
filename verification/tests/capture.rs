use rtsp_client::capture::Capture;
use rtsp_client::codec::{encode, UnitType};
use rtsp_client::error::ErrorKind;

const HEADER: [u8; 12] = [0x80, 0x60, 0, 1, 0, 0, 0, 2, 0, 0, 0, 3];

fn start_of_group(rest: &[u8]) -> Vec<u8> {
    encode(&HEADER, UnitType::StartOfGroup, rest).unwrap()
}

fn fragment(fragment_header: u8, payload: &[u8]) -> Vec<u8> {
    encode(&HEADER, UnitType::Fragment { fragment_header }, payload).unwrap()
}

fn complete(unit: &[u8]) -> Vec<u8> {
    encode(&HEADER, UnitType::Complete, unit).unwrap()
}

#[test]
fn second_start_of_group_flushes_what_came_between() {
    let stream = [
        start_of_group(&[0x42, 0x00]),
        fragment(133, &[1, 2, 3]),
        fragment(5, &[4, 5]),
        fragment(69, &[6]),
        complete(&[0x41, 7, 8]),
        complete(&[0x41, 9]),
        start_of_group(&[0x42, 0x01]),
    ];
    let mut capture = Capture::single_shot();
    for packet in &stream[..6] {
        assert!(!capture.is_finished());
        assert_eq!(capture.on_packet(packet), Ok(None));
    }
    assert_eq!(
        capture.on_packet(&stream[6]),
        Ok(Some(vec![1, 2, 3, 4, 5, 6, 0x41, 7, 8, 0x41, 9]))
    );
    assert!(capture.is_finished());
    assert_eq!(capture.remaining(), 0);
}

#[test]
fn finished_capture_takes_no_more_packets() {
    let mut capture = Capture::single_shot();
    capture.on_packet(&start_of_group(&[])).unwrap();
    capture.on_packet(&complete(&[1])).unwrap();
    assert_eq!(capture.on_packet(&start_of_group(&[])), Ok(Some(vec![1])));
    assert_eq!(capture.on_packet(&complete(&[2])), Err(ErrorKind::OutOfTurn));
    assert_eq!(capture.on_packet(&[0u8; 3]), Err(ErrorKind::OutOfTurn));
    assert!(capture.is_finished());
}

#[test]
fn capture_of_no_units_is_finished_at_once() {
    let mut capture = Capture::new(100, 0);
    assert!(capture.is_finished());
    assert_eq!(capture.on_packet(&start_of_group(&[])), Err(ErrorKind::OutOfTurn));
}

#[test]
fn malformed_packet_is_refused_and_changes_nothing() {
    let mut capture = Capture::single_shot();
    capture.on_packet(&start_of_group(&[])).unwrap();
    capture.on_packet(&fragment(133, &[1, 2])).unwrap();
    assert_eq!(capture.on_packet(&[0u8; 10]), Err(ErrorKind::MalformedPacket));
    assert_eq!(capture.on_packet(&HEADER), Err(ErrorKind::MalformedPacket));
    let mut cut = HEADER.to_vec();
    cut.push(124);
    assert_eq!(capture.on_packet(&cut), Err(ErrorKind::MalformedPacket));
    assert!(!capture.is_finished());
    assert_eq!(capture.reassembler().buffered(), &[1, 2]);
    assert!(capture.reassembler().group_started());
    capture.on_packet(&fragment(69, &[3])).unwrap();
    assert_eq!(capture.on_packet(&start_of_group(&[])), Ok(Some(vec![1, 2, 3])));
}

#[test]
fn capture_counts_down_the_units() {
    let mut capture = Capture::new(1024, 2);
    assert_eq!(capture.remaining(), 2);
    assert_eq!(capture.on_packet(&start_of_group(&[1])), Ok(None));
    assert_eq!(capture.remaining(), 2);
    assert_eq!(capture.on_packet(&complete(&[0x41])), Ok(None));
    assert_eq!(capture.on_packet(&start_of_group(&[2])), Ok(Some(vec![0x41])));
    assert_eq!(capture.remaining(), 1);
    assert!(!capture.is_finished());
    assert_eq!(capture.on_packet(&fragment(133, &[5, 6])), Ok(None));
    assert_eq!(capture.on_packet(&fragment(69, &[7])), Ok(None));
    assert_eq!(capture.on_packet(&start_of_group(&[3])), Ok(Some(vec![5, 6, 7])));
    assert!(capture.is_finished());
}

#[test]
fn capture_refuses_a_payload_past_the_limit() {
    let mut capture = Capture::new(3, 1);
    capture.on_packet(&start_of_group(&[])).unwrap();
    assert_eq!(capture.on_packet(&fragment(133, &[1, 2])), Ok(None));
    assert_eq!(capture.on_packet(&fragment(5, &[3, 4])), Err(ErrorKind::BufferLimit));
    assert_eq!(capture.on_packet(&complete(&[0x41, 3])), Err(ErrorKind::BufferLimit));
    assert_eq!(capture.on_packet(&complete(&[0x41])), Ok(None));
    assert_eq!(capture.on_packet(&start_of_group(&[])), Ok(Some(vec![1, 2, 0x41])));
}

#[test]
fn start_of_group_payload_is_not_gathered() {
    let mut capture = Capture::single_shot();
    assert_eq!(capture.on_packet(&start_of_group(&[0x42, 0x00, 0x1f])), Ok(None));
    assert_eq!(capture.on_packet(&start_of_group(&[0x42])), Ok(Some(vec![])));
}

#[test]
fn cancelled_capture_is_finished_and_empty() {
    let mut capture = Capture::new(64, 3);
    capture.on_packet(&start_of_group(&[])).unwrap();
    capture.on_packet(&fragment(133, &[1, 2])).unwrap();
    capture.cancel();
    assert!(capture.is_finished());
    assert_eq!(capture.remaining(), 0);
    assert!(capture.reassembler().buffered().is_empty());
    assert_eq!(capture.on_packet(&start_of_group(&[])), Err(ErrorKind::OutOfTurn));
}
