use md_shootout::iex::{CaptureErr, FeedErr, IexMessage, IexParser};
use md_shootout::parsers::{
    enhanced_packet_block, extract_iex_data, interface_description_block, read_block,
    section_header_block, Block, BlockErr, FrameErr,
};

fn section_header() -> Vec<u8> {
    let mut b = vec![0x0a, 0x0d, 0x0d, 0x0a];
    b.extend_from_slice(&28u32.to_le_bytes());
    b.extend_from_slice(&[0x4d, 0x3c, 0x2b, 0x1a]);
    b.extend_from_slice(&[1, 0, 0, 0]); // version
    b.extend_from_slice(&[0xff; 8]); // section length
    b.extend_from_slice(&28u32.to_le_bytes());
    b
}

fn interface_description() -> Vec<u8> {
    let mut b = vec![1, 0, 0, 0];
    b.extend_from_slice(&20u32.to_le_bytes());
    b.extend_from_slice(&[1, 0, 0, 0]); // link type, reserved
    b.extend_from_slice(&0u32.to_le_bytes()); // snap length
    b.extend_from_slice(&20u32.to_le_bytes());
    b
}

fn enhanced_packet(frame: &[u8], padding: usize) -> Vec<u8> {
    let total = (32 + frame.len() + padding) as u32;
    let mut b = vec![6, 0, 0, 0];
    b.extend_from_slice(&total.to_le_bytes());
    b.extend_from_slice(&0u32.to_le_bytes()); // interface
    b.extend_from_slice(&0u32.to_le_bytes()); // timestamp high
    b.extend_from_slice(&0u32.to_le_bytes()); // timestamp low
    b.extend_from_slice(&(frame.len() as u32).to_le_bytes());
    b.extend_from_slice(&(frame.len() as u32).to_le_bytes());
    b.extend_from_slice(frame);
    b.extend(std::iter::repeat(0u8).take(padding));
    b.extend_from_slice(&total.to_le_bytes());
    b
}

fn udp_frame(payload: &[u8]) -> Vec<u8> {
    let mut f = vec![0u8; 12];
    f.extend_from_slice(&[0x08, 0x00]);
    let mut ip = vec![0u8; 20];
    ip[0] = 0x45;
    f.extend(ip);
    f.extend_from_slice(&10378u16.to_be_bytes());
    f.extend_from_slice(&10378u16.to_be_bytes());
    f.extend_from_slice(&((payload.len() + 8) as u16).to_be_bytes());
    f.extend_from_slice(&0u16.to_be_bytes());
    f.extend_from_slice(payload);
    f
}

fn feed_payload(first_seq_no: u64, with_trade: bool) -> Vec<u8> {
    let mut p = vec![1u8, 0];
    p.extend_from_slice(&0x8001u16.to_le_bytes());
    p.extend_from_slice(&1u32.to_le_bytes());
    p.extend_from_slice(&2u32.to_le_bytes());
    p.extend_from_slice(&0u16.to_le_bytes());
    p.extend_from_slice(&(if with_trade { 1u16 } else { 0u16 }).to_le_bytes());
    p.extend_from_slice(&0u64.to_le_bytes());
    p.extend_from_slice(&first_seq_no.to_le_bytes());
    p.extend_from_slice(&0i64.to_le_bytes());
    if with_trade {
        p.extend_from_slice(&38u16.to_le_bytes());
        p.extend_from_slice(&[0x54, 0]);
        p.extend_from_slice(&0i64.to_le_bytes());
        p.extend_from_slice(b"MSFT    ");
        p.extend_from_slice(&200u32.to_le_bytes());
        p.extend_from_slice(&1_000_000u64.to_le_bytes());
        p.extend_from_slice(&1u64.to_le_bytes());
    }
    p
}

#[test]
fn section_header_block_is_read_with_its_length() {
    let mut input = section_header();
    input.extend_from_slice(&[9, 9]);
    let (rest, block) = section_header_block(&input).unwrap();
    assert_eq!(rest, &[9u8, 9]);
    match block {
        Block::SectionHeader(b) => assert_eq!(b.block_len, 28),
        other => panic!("unexpected {:?}", other),
    }
}

#[test]
fn interface_description_block_is_read_with_its_length() {
    let input = interface_description();
    let (rest, block) = interface_description_block(&input).unwrap();
    assert_eq!(rest.len(), 0);
    match block {
        Block::InterfaceDescription(b) => assert_eq!(b.block_len, 20),
        other => panic!("unexpected {:?}", other),
    }
}

#[test]
fn enhanced_packet_block_borrows_exactly_the_captured_frame() {
    let frame = [1u8, 2, 3, 4, 5];
    let mut input = enhanced_packet(&frame, 3);
    input.extend_from_slice(&[7]);
    let (rest, block) = enhanced_packet_block(&input).unwrap();
    assert_eq!(rest, &[7u8]);
    match block {
        Block::EnhancedPacket(b) => {
            assert_eq!(b.block_len, 40);
            assert_eq!(b.packet_data, &frame);
        }
        other => panic!("unexpected {:?}", other),
    }
}

#[test]
fn enhanced_packet_block_without_padding_is_accepted() {
    let frame = [1u8, 2, 3];
    let input = enhanced_packet(&frame, 0);
    let (rest, block) = read_block(&input).unwrap();
    assert_eq!(rest.len(), 0);
    match block {
        Block::EnhancedPacket(b) => assert_eq!(b.packet_data, &frame),
        other => panic!("unexpected {:?}", other),
    }
}

#[test]
fn read_block_tells_the_kinds_apart() {
    assert!(matches!(read_block(&section_header()).unwrap().1, Block::SectionHeader(_)));
    assert!(matches!(
        read_block(&interface_description()).unwrap().1,
        Block::InterfaceDescription(_)
    ));
    assert!(matches!(read_block(&enhanced_packet(&[0], 0)).unwrap().1, Block::EnhancedPacket(_)));
}

#[test]
fn a_block_of_another_kind_is_unrecognized() {
    assert_eq!(
        section_header_block(&interface_description()).unwrap_err(),
        BlockErr::UnrecognizedBlockType
    );
    assert_eq!(
        enhanced_packet_block(&section_header()).unwrap_err(),
        BlockErr::UnrecognizedBlockType
    );
    assert_eq!(
        interface_description_block(&section_header()).unwrap_err(),
        BlockErr::UnrecognizedBlockType
    );
    let mut unknown = interface_description();
    unknown[0] = 5;
    assert_eq!(read_block(&unknown).unwrap_err(), BlockErr::UnrecognizedBlockType);
}

#[test]
fn a_block_cut_short_is_truncated() {
    let input = section_header();
    assert_eq!(read_block(&input[..27]).unwrap_err(), BlockErr::TruncatedBlock);
    assert_eq!(read_block(&input[..7]).unwrap_err(), BlockErr::TruncatedBlock);
    assert_eq!(read_block(&input[..3]).unwrap_err(), BlockErr::TruncatedBlock);
    assert_eq!(read_block(&[]).unwrap_err(), BlockErr::TruncatedBlock);
}

#[test]
fn a_block_whose_two_lengths_differ_is_corrupt() {
    let mut input = interface_description();
    let n = input.len();
    input[n - 4] = 24;
    assert_eq!(read_block(&input).unwrap_err(), BlockErr::CorruptBlock);
}

#[test]
fn a_length_shorter_than_the_fixed_part_is_corrupt() {
    let mut input = enhanced_packet(&[1, 2, 3], 0);
    input[4..8].copy_from_slice(&31u32.to_le_bytes());
    assert_eq!(read_block(&input).unwrap_err(), BlockErr::CorruptBlock);
    let mut input = section_header();
    input[4..8].copy_from_slice(&0u32.to_le_bytes());
    assert_eq!(read_block(&input).unwrap_err(), BlockErr::CorruptBlock);
}

#[test]
fn a_section_header_without_the_byte_order_mark_is_corrupt() {
    let mut input = section_header();
    input[8] = 0x1a;
    assert_eq!(read_block(&input).unwrap_err(), BlockErr::CorruptBlock);
}

#[test]
fn a_packet_longer_than_its_block_is_corrupt() {
    let mut input = enhanced_packet(&[1, 2, 3, 4], 0);
    input[20..24].copy_from_slice(&5u32.to_le_bytes());
    assert_eq!(read_block(&input).unwrap_err(), BlockErr::CorruptBlock);
}

#[test]
fn payload_is_what_lies_behind_the_three_headers() {
    let frame = udp_frame(b"hello");
    let (rem, data) = extract_iex_data(&frame).unwrap();
    assert_eq!(data, b"hello");
    assert_eq!(rem.len(), 0);
}

#[test]
fn network_header_length_comes_from_the_low_nibble() {
    let mut f = vec![0u8; 12];
    f.extend_from_slice(&[0x08, 0x00]);
    let mut ip = vec![0u8; 24];
    ip[0] = 0x46; // six words
    f.extend(ip);
    f.extend_from_slice(&[0, 1, 0, 2]);
    f.extend_from_slice(&11u16.to_be_bytes());
    f.extend_from_slice(&[0, 0]);
    f.extend_from_slice(b"abc");
    f.extend_from_slice(b"!!");
    let (rem, data) = extract_iex_data(&f).unwrap();
    assert_eq!(data, b"abc");
    assert_eq!(rem, b"!!");
}

#[test]
fn a_link_layer_that_is_not_ipv4_is_unsupported() {
    let mut frame = udp_frame(b"hello");
    frame[12] = 0x86;
    frame[13] = 0xdd;
    assert_eq!(extract_iex_data(&frame).unwrap_err(), FrameErr::UnsupportedProtocol);
}

#[test]
fn a_frame_shorter_than_its_headers_declare_is_truncated() {
    let frame = udp_frame(b"hello");
    assert_eq!(extract_iex_data(&frame[..13]).unwrap_err(), FrameErr::TruncatedFrame);
    assert_eq!(extract_iex_data(&frame[..14]).unwrap_err(), FrameErr::TruncatedFrame);
    assert_eq!(extract_iex_data(&frame[..30]).unwrap_err(), FrameErr::TruncatedFrame);
    assert_eq!(extract_iex_data(&frame[..41]).unwrap_err(), FrameErr::TruncatedFrame);
    assert_eq!(
        extract_iex_data(&frame[..frame.len() - 1]).unwrap_err(),
        FrameErr::TruncatedFrame
    );
}

#[test]
fn a_transport_length_below_its_own_header_is_truncated() {
    let mut frame = udp_frame(b"hello");
    frame[38..40].copy_from_slice(&7u16.to_be_bytes());
    assert_eq!(extract_iex_data(&frame).unwrap_err(), FrameErr::TruncatedFrame);
}

#[test]
fn capture_yields_the_payload_of_each_packet_in_order() {
    let mut capture = section_header();
    capture.extend(interface_description());
    capture.extend(enhanced_packet(&udp_frame(&feed_payload(10, true)), 0));
    capture.extend(interface_description());
    capture.extend(enhanced_packet(&udp_frame(&feed_payload(11, false)), 2));
    let mut parser = IexParser::new(&capture);
    let first = parser.next().unwrap().unwrap();
    assert_eq!(first.first_seq_no, 10);
    assert_eq!(first.msg_count, 1);
    assert!(matches!(first.messages.get(0), Some(IexMessage::TradeReport(_))));
    let second = parser.next().unwrap().unwrap();
    assert_eq!(second.first_seq_no, 11);
    assert_eq!(second.messages.len(), 0);
    assert!(parser.next().is_none());
    assert!(parser.next().is_none());
}

#[test]
fn capture_without_packets_yields_nothing() {
    let mut capture = section_header();
    capture.extend(interface_description());
    let mut parser = IexParser::new(&capture);
    assert!(parser.next().is_none());
    let mut empty = IexParser::new(&[]);
    assert!(empty.next().is_none());
}

#[test]
fn capture_reports_a_block_that_cannot_be_read_and_then_ends() {
    let mut capture = section_header();
    capture.extend_from_slice(&[0xde, 0xad, 0xbe, 0xef, 0, 0, 0, 0]);
    let mut parser = IexParser::new(&capture);
    assert_eq!(
        parser.next().unwrap().unwrap_err(),
        CaptureErr::Block(BlockErr::UnrecognizedBlockType)
    );
    assert!(parser.next().is_none());
}

#[test]
fn capture_reports_a_bad_frame_and_goes_on_behind_its_block() {
    let mut bad = udp_frame(&feed_payload(1, false));
    bad[12] = 0;
    let mut capture = enhanced_packet(&bad, 0);
    capture.extend(enhanced_packet(&udp_frame(&feed_payload(2, true)), 0));
    let mut parser = IexParser::new(&capture);
    assert_eq!(
        parser.next().unwrap().unwrap_err(),
        CaptureErr::Frame(FrameErr::UnsupportedProtocol)
    );
    assert_eq!(parser.next().unwrap().unwrap().first_seq_no, 2);
    assert!(parser.next().is_none());
}

#[test]
fn capture_reports_a_payload_that_cannot_be_decoded() {
    let mut payload = feed_payload(1, true);
    payload.push(0);
    let capture = enhanced_packet(&udp_frame(&payload), 0);
    let mut parser = IexParser::new(&capture);
    assert_eq!(
        parser.next().unwrap().unwrap_err(),
        CaptureErr::Feed(FeedErr::PayloadLengthMismatch)
    );
}
