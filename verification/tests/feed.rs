use md_shootout::iex::{FeedErr, IexMessage, IexPayload, MessageList};

fn header(msg_count: u16, first_seq_no: u64) -> Vec<u8> {
    let mut h = Vec::new();
    h.push(1u8); // version
    h.push(0u8); // reserved
    h.extend_from_slice(&0x8001u16.to_le_bytes()); // proto_id
    h.extend_from_slice(&7u32.to_le_bytes()); // channel_id
    h.extend_from_slice(&0x4400_0001u32.to_le_bytes()); // session_id
    h.extend_from_slice(&0u16.to_le_bytes()); // payload_len
    h.extend_from_slice(&msg_count.to_le_bytes());
    h.extend_from_slice(&1234u64.to_le_bytes()); // stream_offset
    h.extend_from_slice(&first_seq_no.to_le_bytes());
    h.extend_from_slice(&(-5i64).to_le_bytes()); // send_time
    h
}

fn framed(body: &[u8]) -> Vec<u8> {
    let mut f = Vec::new();
    f.extend_from_slice(&(body.len() as u16).to_le_bytes());
    f.extend_from_slice(body);
    f
}

fn trade_report(symbol: &[u8; 8], size: u32, price: u64) -> Vec<u8> {
    let mut b = vec![0x54u8, 0x01];
    b.extend_from_slice(&1_500_000_000i64.to_le_bytes());
    b.extend_from_slice(symbol);
    b.extend_from_slice(&size.to_le_bytes());
    b.extend_from_slice(&price.to_le_bytes());
    b.extend_from_slice(&99u64.to_le_bytes());
    b
}

fn price_level_update(tag: u8, symbol: &[u8; 8], size: u32, price: u64) -> Vec<u8> {
    let mut b = vec![tag, 0x01];
    b.extend_from_slice(&1_500_000_001i64.to_le_bytes());
    b.extend_from_slice(symbol);
    b.extend_from_slice(&size.to_le_bytes());
    b.extend_from_slice(&price.to_le_bytes());
    b
}

fn system_event() -> Vec<u8> {
    let mut b = vec![0x53u8, 0x4f];
    b.extend_from_slice(&42i64.to_le_bytes());
    b
}

#[test]
fn payload_header_fields_are_little_endian() {
    let bytes = header(0, 77);
    let (rest, p) = IexPayload::parse(&bytes).unwrap();
    assert_eq!(rest.len(), 0);
    assert_eq!(p.version, 1);
    assert_eq!(p.reserved, 0);
    assert_eq!(p.proto_id, 0x8001);
    assert_eq!(p.channel_id, 7);
    assert_eq!(p.session_id, 0x4400_0001);
    assert_eq!(p.payload_len, 0);
    assert_eq!(p.msg_count, 0);
    assert_eq!(p.stream_offset, 1234);
    assert_eq!(p.first_seq_no, 77);
    assert_eq!(p.send_time, -5);
    assert_eq!(p.messages.len(), 0);
}

#[test]
fn payload_with_three_messages_keeps_their_order() {
    let mut bytes = header(3, 1);
    bytes.extend(framed(&system_event()));
    bytes.extend(framed(&trade_report(b"MSFT    ", 200, 1_000_000)));
    bytes.extend(framed(&price_level_update(0x38, b"MSFT    ", 500, 1_000_000)));
    let (_, p) = IexPayload::parse(&bytes).unwrap();
    assert_eq!(p.messages.len(), 3);
    match p.messages.get(0) {
        Some(IexMessage::SystemEvent(e)) => {
            assert_eq!(e.msg_type, 0x53);
            assert_eq!(e.system_event, 0x4f);
            assert_eq!(e.timestamp, 42);
        }
        other => panic!("unexpected {:?}", other),
    }
    match p.messages.get(1) {
        Some(IexMessage::TradeReport(t)) => {
            assert_eq!(t.msg_type, 0x54);
            assert_eq!(t.sale_condition, 1);
            assert_eq!(t.timestamp, 1_500_000_000);
            assert_eq!(&t.symbol, b"MSFT    ");
            assert_eq!(t.size, 200);
            assert_eq!(t.price, 1_000_000);
            assert_eq!(t.trade_id, 99);
        }
        other => panic!("unexpected {:?}", other),
    }
    match p.messages.get(2) {
        Some(IexMessage::PriceLevelUpdate(u)) => {
            assert_eq!(u.msg_type, 0x38);
            assert_eq!(u.event_flags, 1);
            assert_eq!(u.timestamp, 1_500_000_001);
            assert_eq!(&u.symbol, b"MSFT    ");
            assert_eq!(u.size, 500);
            assert_eq!(u.price, 1_000_000);
        }
        other => panic!("unexpected {:?}", other),
    }
    assert!(p.messages.get(3).is_none());
}

#[test]
fn declared_count_above_messages_present_is_a_length_mismatch() {
    let mut bytes = header(2, 1);
    bytes.extend(framed(&system_event()));
    assert_eq!(IexPayload::parse(&bytes).unwrap_err(), FeedErr::PayloadLengthMismatch);
}

#[test]
fn declared_count_below_messages_present_is_a_length_mismatch() {
    let mut bytes = header(1, 1);
    bytes.extend(framed(&system_event()));
    bytes.extend(framed(&system_event()));
    assert_eq!(IexPayload::parse(&bytes).unwrap_err(), FeedErr::PayloadLengthMismatch);
}

#[test]
fn message_cut_short_by_the_end_of_the_payload_is_a_length_mismatch() {
    let mut bytes = header(1, 1);
    let frame = framed(&system_event());
    bytes.extend_from_slice(&frame[..frame.len() - 1]);
    assert_eq!(IexPayload::parse(&bytes).unwrap_err(), FeedErr::PayloadLengthMismatch);
}

#[test]
fn zero_count_with_trailing_bytes_is_a_length_mismatch() {
    let mut bytes = header(0, 1);
    bytes.push(0);
    assert_eq!(IexPayload::parse(&bytes).unwrap_err(), FeedErr::PayloadLengthMismatch);
}

#[test]
fn header_shorter_than_forty_bytes_is_truncated() {
    let bytes = header(0, 1);
    assert_eq!(IexPayload::parse(&bytes[..39]).unwrap_err(), FeedErr::Truncated);
    assert_eq!(IexPayload::parse(&[]).unwrap_err(), FeedErr::Truncated);
}

#[test]
fn unknown_tag_is_fatal() {
    let mut bytes = header(1, 1);
    bytes.extend(framed(&[0x99u8, 0, 0, 0]));
    assert_eq!(IexPayload::parse(&bytes).unwrap_err(), FeedErr::UnknownMessageType);
    assert_eq!(
        IexMessage::parse(&framed(&[0x00u8])).unwrap_err(),
        FeedErr::UnknownMessageType
    );
}

#[test]
fn body_shorter_than_its_layout_is_truncated() {
    let body = trade_report(b"MSFT    ", 1, 1);
    let short = framed(&body[..37]);
    assert_eq!(IexMessage::parse(&short).unwrap_err(), FeedErr::Truncated);
    assert_eq!(IexMessage::parse(&framed(&[])).unwrap_err(), FeedErr::Truncated);
    assert_eq!(IexMessage::parse(&[5u8]).unwrap_err(), FeedErr::Truncated);
    assert_eq!(IexMessage::parse(&[5u8, 0, 0x53]).unwrap_err(), FeedErr::Truncated);
}

#[test]
fn bytes_behind_a_layout_within_the_declared_length_are_skipped() {
    let mut body = system_event();
    body.extend_from_slice(&[0xAA, 0xBB, 0xCC]);
    let mut input = framed(&body);
    input.extend_from_slice(&[1, 2, 3, 4]);
    let (rest, msg) = IexMessage::parse(&input).unwrap();
    assert_eq!(rest, &[1u8, 2, 3, 4]);
    match msg {
        IexMessage::SystemEvent(e) => assert_eq!(e.timestamp, 42),
        other => panic!("unexpected {:?}", other),
    }
}

#[test]
fn both_price_level_tags_select_the_same_layout() {
    for tag in [0x38u8, 0x35u8] {
        let input = framed(&price_level_update(tag, b"IBM     ", 3, 9));
        match IexMessage::parse(&input).unwrap().1 {
            IexMessage::PriceLevelUpdate(u) => {
                assert_eq!(u.msg_type, tag);
                assert_eq!(u.size, 3);
                assert_eq!(u.price, 9);
            }
            other => panic!("unexpected {:?}", other),
        }
    }
}

#[test]
fn every_tag_of_the_table_selects_its_variant() {
    let cases: [(u8, usize); 11] = [
        (0x53, 10),
        (0x44, 31),
        (0x48, 22),
        (0x4f, 18),
        (0x50, 19),
        (0x45, 18),
        (0x38, 30),
        (0x54, 38),
        (0x58, 26),
        (0x42, 38),
        (0x41, 80),
    ];
    for (tag, len) in cases {
        let mut body = vec![0u8; len];
        body[0] = tag;
        let input = framed(&body);
        let (rest, msg) = IexMessage::parse(&input).unwrap();
        assert_eq!(rest.len(), 0);
        let ok = match (tag, msg) {
            (0x53, IexMessage::SystemEvent(m)) => m.msg_type == tag,
            (0x44, IexMessage::SecurityDirectory(m)) => m.msg_type == tag,
            (0x48, IexMessage::TradingStatus(m)) => m.msg_type == tag,
            (0x4f, IexMessage::OperationalHaltStatus(m)) => m.msg_type == tag,
            (0x50, IexMessage::ShortSalePriceTest(m)) => m.msg_type == tag,
            (0x45, IexMessage::SecurityEvent(m)) => m.msg_type == tag,
            (0x38, IexMessage::PriceLevelUpdate(m)) => m.msg_type == tag,
            (0x54, IexMessage::TradeReport(m)) => m.msg_type == tag,
            (0x58, IexMessage::OfficialPrice(m)) => m.msg_type == tag,
            (0x42, IexMessage::TradeBreak(m)) => m.msg_type == tag,
            (0x41, IexMessage::AuctionInformation(m)) => m.msg_type == tag,
            _ => false,
        };
        assert!(ok, "tag {:#x}", tag);
        // one byte less than the layout needs
        assert_eq!(
            IexMessage::parse(&framed(&body[..len - 1])).unwrap_err(),
            FeedErr::Truncated
        );
    }
}

#[test]
fn auction_information_fields_lie_at_their_offsets() {
    let mut b = vec![0x41u8, 0x43];
    b.extend_from_slice(&(-1i64).to_le_bytes());
    b.extend_from_slice(b"ZIEXT   ");
    b.extend_from_slice(&100u32.to_le_bytes());
    b.extend_from_slice(&200u64.to_le_bytes());
    b.extend_from_slice(&300u64.to_le_bytes());
    b.extend_from_slice(&400u32.to_le_bytes());
    b.push(0x42);
    b.push(3);
    b.extend_from_slice(&500u32.to_le_bytes());
    b.extend_from_slice(&600u64.to_le_bytes());
    b.extend_from_slice(&700u64.to_le_bytes());
    b.extend_from_slice(&800u64.to_le_bytes());
    b.extend_from_slice(&0xFFFF_FFFF_FFFF_FFFFu64.to_le_bytes());
    assert_eq!(b.len(), 80);
    match IexMessage::parse(&framed(&b)).unwrap().1 {
        IexMessage::AuctionInformation(a) => {
            assert_eq!(a.auction_type, 0x43);
            assert_eq!(a.timestamp, -1);
            assert_eq!(&a.symbol, b"ZIEXT   ");
            assert_eq!(a.paired_shares, 100);
            assert_eq!(a.reference_price, 200);
            assert_eq!(a.indicative_clearing_price, 300);
            assert_eq!(a.imbalance_shares, 400);
            assert_eq!(a.imbalance_side, 0x42);
            assert_eq!(a.extension_number, 3);
            assert_eq!(a.scheduled_auction, 500);
            assert_eq!(a.auction_book_clearing_price, 600);
            assert_eq!(a.collar_reference_price, 700);
            assert_eq!(a.lower_auction_collar, 800);
            assert_eq!(a.upper_auction_collar, u64::MAX);
        }
        other => panic!("unexpected {:?}", other),
    }
}

#[test]
fn security_directory_and_trading_status_fields() {
    let mut b = vec![0x44u8, 0x80];
    b.extend_from_slice(&7i64.to_le_bytes());
    b.extend_from_slice(b"ZIEXT   ");
    b.extend_from_slice(&100u32.to_le_bytes());
    b.extend_from_slice(&995_000u64.to_le_bytes());
    b.push(1);
    match IexMessage::parse(&framed(&b)).unwrap().1 {
        IexMessage::SecurityDirectory(d) => {
            assert_eq!(d.flags, 0x80);
            assert_eq!(d.timestamp, 7);
            assert_eq!(d.lot_size, 100);
            assert_eq!(d.previous_closing, 995_000);
            assert_eq!(d.luld_tier, 1);
        }
        other => panic!("unexpected {:?}", other),
    }
    let mut b = vec![0x48u8, 0x48];
    b.extend_from_slice(&8i64.to_le_bytes());
    b.extend_from_slice(b"ZIEXT   ");
    b.extend_from_slice(b"T1  ");
    match IexMessage::parse(&framed(&b)).unwrap().1 {
        IexMessage::TradingStatus(t) => {
            assert_eq!(t.trading_status, 0x48);
            assert_eq!(&t.reason, b"T1  ");
        }
        other => panic!("unexpected {:?}", other),
    }
}

#[test]
fn message_list_holds_what_was_pushed_in_order() {
    let a = IexMessage::parse(&framed(&system_event())).unwrap().1;
    let b = IexMessage::parse(&framed(&trade_report(b"A       ", 1, 2))).unwrap().1;
    let mut list = MessageList::new();
    assert_eq!(list.len(), 0);
    assert!(list.get(0).is_none());
    list.push(a);
    assert_eq!(list.len(), 1);
    list.push(b);
    assert_eq!(list.len(), 2);
    assert!(matches!(list.get(0), Some(IexMessage::SystemEvent(_))));
    assert!(matches!(list.get(1), Some(IexMessage::TradeReport(_))));
    assert!(list.get(2).is_none());
}

#[test]
fn a_payload_longer_than_the_inline_capacity_is_held_whole() {
    let n: u16 = 300;
    let mut bytes = header(n, 1);
    for i in 0..n {
        bytes.extend(framed(&trade_report(b"SPY     ", i as u32, 5)));
    }
    let (_, p) = IexPayload::parse(&bytes).unwrap();
    assert_eq!(p.messages.len(), 300);
    match p.messages.get(299) {
        Some(IexMessage::TradeReport(t)) => assert_eq!(t.size, 299),
        other => panic!("unexpected {:?}", other),
    }
}
