use md_shootout::capnp_runner::{read_segment_table, CapnpReader, SegmentErr};
use md_shootout::codec::{
    batch_to_write, fold_payload, fold_records, forwarded_records, parse_symbol, BookRecord,
    ReadErr,
};
use md_shootout::flatbuffers_runner::{FlatbuffersReader, PrefixErr};
use md_shootout::iex::{IexPayload, MessageList};
use md_shootout::marketdata_sbe::{
    start_decoding_message_header, start_decoding_multi_message, start_encoding_multi_message,
    CodecErr, Either, MessageHeader, MsgType, MultiMessageFields, MultiMessageMessageHeader,
    MultiMessageMessagesMember, MultiMessageMessagesMemberEncoder, Quote, ScratchEncoderData, Side,
    Trade,
};
use md_shootout::sbe_runner::{SBEReader, SBEWriter};
use md_shootout::{StreamVec, Summarizer};

fn payload_bytes(first_seq_no: u64, bodies: &[Vec<u8>]) -> Vec<u8> {
    let mut p = vec![1u8, 0];
    p.extend_from_slice(&0x8001u16.to_le_bytes());
    p.extend_from_slice(&1u32.to_le_bytes());
    p.extend_from_slice(&2u32.to_le_bytes());
    p.extend_from_slice(&0u16.to_le_bytes());
    p.extend_from_slice(&(bodies.len() as u16).to_le_bytes());
    p.extend_from_slice(&0u64.to_le_bytes());
    p.extend_from_slice(&first_seq_no.to_le_bytes());
    p.extend_from_slice(&0i64.to_le_bytes());
    for body in bodies {
        p.extend_from_slice(&(body.len() as u16).to_le_bytes());
        p.extend_from_slice(body);
    }
    p
}

fn trade(symbol: &[u8; 8], size: u32, price: u64) -> Vec<u8> {
    let mut b = vec![0x54u8, 0];
    b.extend_from_slice(&11i64.to_le_bytes());
    b.extend_from_slice(symbol);
    b.extend_from_slice(&size.to_le_bytes());
    b.extend_from_slice(&price.to_le_bytes());
    b.extend_from_slice(&1u64.to_le_bytes());
    b
}

fn quote(tag: u8, symbol: &[u8; 8], size: u32, price: u64) -> Vec<u8> {
    let mut b = vec![tag, 3];
    b.extend_from_slice(&12i64.to_le_bytes());
    b.extend_from_slice(symbol);
    b.extend_from_slice(&size.to_le_bytes());
    b.extend_from_slice(&price.to_le_bytes());
    b
}

fn system_event() -> Vec<u8> {
    let mut b = vec![0x53u8, 0x4f];
    b.extend_from_slice(&42i64.to_le_bytes());
    b
}

fn parse(bytes: &[u8]) -> IexPayload {
    IexPayload::parse(bytes).unwrap().1
}

fn member_trade(size: u32, price: u64) -> MultiMessageMessagesMember {
    MultiMessageMessagesMember {
        timestamp: 11,
        msg_type: MsgType::Trade,
        trade: Trade { price, size },
        quote: Quote::default(),
    }
}

#[test]
fn symbol_is_cut_at_its_first_space() {
    assert_eq!(parse_symbol(b"AAPL    "), b"AAPL");
    assert_eq!(parse_symbol(b"A       "), b"A");
    assert_eq!(parse_symbol(b"        "), b"");
    assert_eq!(parse_symbol(b"AB CD   "), b"AB");
}

#[test]
fn symbol_without_padding_is_taken_whole() {
    assert_eq!(parse_symbol(b"ABCDEFGH"), b"ABCDEFGH");
}

#[test]
fn padded_symbol_comes_out_trimmed_of_the_fixed_layout_backend() {
    let payload = parse(&payload_bytes(1, &[trade(b"AAPL    ", 10, 5)]));
    let mut writer = SBEWriter::new();
    let mut out = Vec::new();
    writer.serialize(&payload, &mut out).unwrap();
    let mut buf = StreamVec::new(out);
    let mut stats = Summarizer::default();
    SBEReader::new().deserialize(&mut buf, &mut stats).unwrap();
    assert!(stats.get(b"AAPL").is_some());
    assert!(stats.get(b"AAPL    ").is_none());
    assert_eq!(stats.get(b"AAPL").unwrap().symbol, b"AAPL");
}

#[test]
fn padded_symbol_comes_out_trimmed_of_the_forwarded_records() {
    let payload = parse(&payload_bytes(1, &[quote(0x35, b"AAPL    ", 10, 5)]));
    let records = forwarded_records(&payload);
    assert_eq!(records.len(), 1);
    assert_eq!(records[0].symbol, b"AAPL");
}

#[test]
fn batch_without_relevant_messages_writes_nothing() {
    let payload = parse(&payload_bytes(1, &[system_event(), system_event()]));
    let mut writer = SBEWriter::new();
    let mut out = vec![1u8, 2, 3];
    writer.serialize(&payload, &mut out).unwrap();
    assert_eq!(out, vec![1u8, 2, 3]);
    let empty = parse(&payload_bytes(1, &[]));
    writer.serialize(&empty, &mut out).unwrap();
    assert_eq!(out, vec![1u8, 2, 3]);
    assert!(forwarded_records(&payload).is_empty());
}

#[test]
fn fixed_layout_batch_has_the_documented_bytes() {
    let payload = parse(&payload_bytes(0x0102_0304, &[trade(b"MS      ", 200, 1_000_000)]));
    let mut writer = SBEWriter::new();
    let mut out = Vec::new();
    writer.serialize(&payload, &mut out).unwrap();
    let mut expected: Vec<u8> = Vec::new();
    // message header: block length 8, template 1, schema 1, version 0
    expected.extend_from_slice(&[8, 0, 1, 0, 1, 0, 0, 0]);
    expected.extend_from_slice(&0x0102_0304u64.to_le_bytes());
    // group header: block length 35, one member
    expected.extend_from_slice(&[35, 0, 1, 0]);
    expected.extend_from_slice(&11i64.to_le_bytes());
    expected.push(0); // trade
    expected.extend_from_slice(&1_000_000u64.to_le_bytes());
    expected.extend_from_slice(&200u32.to_le_bytes());
    expected.extend_from_slice(&0u64.to_le_bytes());
    expected.extend_from_slice(&0u32.to_le_bytes());
    expected.push(0);
    expected.push(255); // no side
    expected.extend_from_slice(&2u32.to_le_bytes());
    expected.extend_from_slice(b"MS");
    assert_eq!(out, expected);
    assert_eq!(out.len(), 20 + 35 + 4 + 2);
}

#[test]
fn each_call_writes_a_batch_of_its_own() {
    let first = parse(&payload_bytes(1, &[trade(b"A       ", 1, 1)]));
    let second = parse(&payload_bytes(2, &[quote(0x38, b"BB      ", 2, 2), system_event()]));
    let mut writer = SBEWriter::new();
    let mut out = Vec::new();
    writer.serialize(&first, &mut out).unwrap();
    let n = out.len();
    assert_eq!(n, 20 + 39 + 1);
    writer.serialize(&second, &mut out).unwrap();
    assert_eq!(out.len(), n + 20 + 39 + 2);

    let mut alone = Vec::new();
    SBEWriter::new().serialize(&second, &mut alone).unwrap();
    assert_eq!(&out[n..], &alone[..]);
}

#[test]
fn round_trip_gives_what_direct_folding_gives() {
    let payloads = vec![
        parse(&payload_bytes(
            1,
            &[
                quote(0x38, b"MSFT    ", 500, 1_000_000),
                trade(b"MSFT    ", 200, 1_000_000),
                quote(0x35, b"MSFT    ", 100, 1_000_500),
                trade(b"IBM     ", 7, 3),
            ],
        )),
        parse(&payload_bytes(2, &[system_event()])),
        parse(&payload_bytes(
            3,
            &[quote(0x38, b"IBM     ", 1, 2), quote(0x38, b"IBM     ", 1, 9), trade(b"MSFT    ", 1, 1)],
        )),
    ];
    let mut writer = SBEWriter::new();
    let mut out = Vec::new();
    let mut direct = Summarizer::default();
    for p in &payloads {
        writer.serialize(p, &mut out).unwrap();
        fold_payload(&mut direct, p);
    }
    let mut buf = StreamVec::new(out);
    let mut stats = Summarizer::default();
    let reader = SBEReader::new();
    let mut batches = 0;
    loop {
        match reader.deserialize(&mut buf, &mut stats) {
            Ok(()) => batches += 1,
            Err(ReadErr::NoMoreData) => break,
            Err(e) => panic!("unexpected {:?}", e),
        }
    }
    assert_eq!(batches, 2);
    assert_eq!(stats, direct);
    assert!(stats.same_as(&direct));
    let msft = stats.get(b"MSFT").unwrap();
    assert_eq!(msft.trade_volume, 201);
    assert_eq!(msft.bid_high, 1_000_000);
    assert_eq!(msft.bid_low, 1_000_000);
    assert_eq!(msft.ask_high, 1_000_500);
    assert_eq!(msft.ask_low, 1_000_500);
    let ibm = stats.get(b"IBM").unwrap();
    assert_eq!(ibm.trade_volume, 7);
    assert_eq!(ibm.bid_high, 9);
    assert_eq!(ibm.bid_low, 2);
}

#[test]
fn one_quote_and_one_trade_for_msft() {
    let payload = parse(&payload_bytes(
        1,
        &[quote(0x38, b"MSFT    ", 500, 100_0000), trade(b"MSFT    ", 200, 100_0000)],
    ));
    let mut out = Vec::new();
    SBEWriter::new().serialize(&payload, &mut out).unwrap();
    let mut buf = StreamVec::new(out);
    let mut stats = Summarizer::default();
    SBEReader::new().deserialize(&mut buf, &mut stats).unwrap();
    let msft = stats.get(b"MSFT").unwrap();
    assert_eq!(msft.symbol, b"MSFT");
    assert_eq!(msft.trade_volume, 200);
    assert_eq!(msft.bid_high, 100_0000);
    assert_eq!(msft.bid_low, 100_0000);
    assert_eq!(msft.ask_high, 0);
    assert_eq!(msft.ask_low, u64::MAX);
    assert_eq!(buf.fill_buf().len(), 0);
    assert_eq!(
        SBEReader::new().deserialize(&mut buf, &mut stats).unwrap_err(),
        ReadErr::NoMoreData
    );
}

#[test]
fn one_quote_and_one_trade_for_msft_through_the_forwarded_records() {
    let payload = parse(&payload_bytes(
        1,
        &[quote(0x38, b"MSFT    ", 500, 100_0000), trade(b"MSFT    ", 200, 100_0000)],
    ));
    let records = forwarded_records(&payload);
    assert_eq!(records.len(), 2);
    assert_eq!(records[0].fields.msg_type, MsgType::Quote);
    assert_eq!(records[0].fields.quote.side, Side::Buy);
    assert_eq!(records[0].fields.quote.price, 100_0000);
    assert_eq!(records[0].fields.quote.size, 500);
    assert_eq!(records[0].fields.quote.flags, 3);
    assert_eq!(records[1].fields.msg_type, MsgType::Trade);
    assert_eq!(records[1].fields.trade.size, 200);
    let mut stats = Summarizer::default();
    fold_records(&mut stats, &records);
    let msft = stats.get(b"MSFT").unwrap();
    assert_eq!(msft.trade_volume, 200);
    assert_eq!(msft.bid_high, 100_0000);
    assert_eq!(msft.bid_low, 100_0000);
    assert_eq!(msft.ask_high, 0);
    assert_eq!(msft.ask_low, u64::MAX);
}

#[test]
fn sell_side_tag_updates_the_ask_range_only() {
    let payload = parse(&payload_bytes(1, &[quote(0x35, b"X       ", 1, 50)]));
    let mut stats = Summarizer::default();
    fold_payload(&mut stats, &payload);
    let x = stats.get(b"X").unwrap();
    assert_eq!(x.ask_high, 50);
    assert_eq!(x.ask_low, 50);
    assert_eq!(x.bid_high, 0);
    assert_eq!(x.bid_low, u64::MAX);
    assert_eq!(x.trade_volume, 0);
}

#[test]
fn batch_larger_than_the_first_staging_buffer_round_trips() {
    // 210 members of 41 bytes each and the preamble are more than 8192 bytes
    let bodies: Vec<Vec<u8>> = (0..210).map(|i| trade(b"AB      ", i, 1)).collect();
    let payload = parse(&payload_bytes(1, &bodies));
    let mut out = vec![9u8];
    let mut writer = SBEWriter::new();
    writer.serialize(&payload, &mut out).unwrap();
    assert_eq!(out.len(), 1 + 20 + 210 * 41);
    assert_eq!(out[0], 9);
    assert_eq!(&out[17..21], &[35u8, 0, 210, 0]);
    // the writer is as good for a small batch afterwards
    let small = parse(&payload_bytes(2, &bodies[..2]));
    let mut alone = Vec::new();
    writer.serialize(&small, &mut alone).unwrap();
    let mut fresh = Vec::new();
    SBEWriter::new().serialize(&small, &mut fresh).unwrap();
    assert_eq!(alone, fresh);
    assert_eq!(alone.len(), 20 + 2 * 41);

    let mut buf = StreamVec::new(out[1..].to_vec());
    let mut stats = Summarizer::default();
    SBEReader::new().deserialize(&mut buf, &mut stats).unwrap();
    let mut direct = Summarizer::default();
    fold_payload(&mut direct, &payload);
    assert!(stats.same_as(&direct));
    assert_eq!(stats.get(b"AB").unwrap().trade_volume, (0..210u64).sum::<u64>());
    assert_eq!(buf.fill_buf().len(), 0);
}

#[test]
fn batch_around_the_size_of_the_first_staging_buffer_is_written_whole() {
    // 20 + 199 * 41 = 8179; one member with a symbol of eight bytes more
    // makes 8226
    let mut bodies: Vec<Vec<u8>> = (0..199).map(|i| trade(b"AB      ", i, 1)).collect();
    let under = parse(&payload_bytes(1, &bodies));
    let mut out = Vec::new();
    SBEWriter::new().serialize(&under, &mut out).unwrap();
    assert_eq!(out.len(), 8179);
    bodies.push(trade(b"ABCDEFGH", 1, 1));
    let over = parse(&payload_bytes(1, &bodies));
    let mut out = Vec::new();
    SBEWriter::new().serialize(&over, &mut out).unwrap();
    assert_eq!(out.len(), 8179 + 47);
    assert_eq!(&out[out.len() - 8..], b"ABCDEFGH");
}

fn payload_of_trades(n: usize) -> IexPayload {
    let one = parse(&payload_bytes(1, &[trade(b"AB      ", 1, 1)]));
    let msg = *one.messages.get(0).unwrap();
    let mut messages = MessageList::new();
    for _ in 0..n {
        messages.push(msg);
    }
    IexPayload { messages, ..one }
}

#[test]
fn largest_group_that_the_count_holds_round_trips() {
    let payload = payload_of_trades(65535);
    let mut out = Vec::new();
    SBEWriter::new().serialize(&payload, &mut out).unwrap();
    assert_eq!(out.len(), 20 + 65535 * 41);
    assert_eq!(&out[16..20], &[35u8, 0, 0xff, 0xff]);
    let mut buf = StreamVec::new(out);
    let mut stats = Summarizer::default();
    SBEReader::new().deserialize(&mut buf, &mut stats).unwrap();
    assert_eq!(stats.get(b"AB").unwrap().trade_volume, 65535);
    assert_eq!(buf.fill_buf().len(), 0);
}

#[test]
fn more_records_than_the_count_holds_are_refused() {
    let payload = payload_of_trades(65536);
    let mut out = vec![9u8];
    let mut writer = SBEWriter::new();
    assert_eq!(
        writer.serialize(&payload, &mut out).unwrap_err(),
        CodecErr::SliceIsLongerThanAllowedBySchema
    );
    assert_eq!(out, vec![9u8]);
}

#[test]
fn payload_without_forwarded_records_gives_no_batch_to_write() {
    let none = parse(&payload_bytes(1, &[system_event()]));
    assert!(batch_to_write(&none).is_none());
    assert!(batch_to_write(&parse(&payload_bytes(1, &[]))).is_none());
    let some = parse(&payload_bytes(
        1,
        &[system_event(), quote(0x35, b"AAPL    ", 10, 5), trade(b"IBM     ", 1, 2)],
    ));
    let records = batch_to_write(&some).unwrap();
    assert_eq!(records, forwarded_records(&some));
    assert_eq!(records.len(), 2);
    assert_eq!(records[0].symbol, b"AAPL");
    assert_eq!(records[0].fields.quote.side, Side::Sell);
    assert_eq!(records[1].symbol, b"IBM");
    assert_eq!(records[1].fields.trade.size, 1);
}

#[test]
fn reader_stops_where_a_batch_is_cut_short() {
    let payload = parse(&payload_bytes(
        1,
        &[trade(b"A       ", 5, 1), trade(b"B       ", 6, 1)],
    ));
    let mut out = Vec::new();
    SBEWriter::new().serialize(&payload, &mut out).unwrap();
    let whole = out.len();
    out.truncate(whole - 1);
    let mut buf = StreamVec::new(out);
    let mut stats = Summarizer::default();
    assert_eq!(
        SBEReader::new().deserialize(&mut buf, &mut stats).unwrap_err(),
        ReadErr::Malformed(CodecErr::NotEnoughBytes)
    );
    // the member that was whole has been folded in; the cursor has not moved
    assert_eq!(stats.get(b"A").unwrap().trade_volume, 5);
    assert!(stats.get(b"B").is_none());
    assert_eq!(buf.fill_buf().len(), whole - 1);

    let mut short = StreamVec::new(vec![8u8, 0, 1]);
    assert_eq!(
        SBEReader::new().deserialize(&mut short, &mut stats).unwrap_err(),
        ReadErr::Malformed(CodecErr::NotEnoughBytes)
    );
}

#[test]
fn reader_takes_exactly_the_bytes_of_one_batch() {
    let payload = parse(&payload_bytes(1, &[trade(b"A       ", 5, 1)]));
    let mut out = Vec::new();
    SBEWriter::new().serialize(&payload, &mut out).unwrap();
    let n = out.len();
    out.extend_from_slice(&[0xEE; 5]);
    let mut buf = StreamVec::new(out);
    let mut stats = Summarizer::default();
    SBEReader::new().deserialize(&mut buf, &mut stats).unwrap();
    assert_eq!(n, 60);
    assert_eq!(buf.fill_buf(), &[0xEEu8; 5]);
}

#[test]
fn session_types_encode_and_decode_step_by_step() {
    let mut scratch = vec![0u8; 128];
    let enc = start_encoding_multi_message(&mut scratch[..]);
    let enc = enc.header_copy(&MultiMessageMessageHeader::default().message_header).unwrap();
    let enc = enc.multi_message_fields_copy(&MultiMessageFields { sequence_number: 9 }).unwrap();
    let enc = enc.messages_individually().unwrap();
    let enc = enc.next_messages_member(&member_trade(3, 4)).unwrap().symbol(b"ABC").unwrap();
    let quote = MultiMessageMessagesMember {
        timestamp: -2,
        msg_type: MsgType::Quote,
        trade: Trade::default(),
        quote: Quote { price: u64::MAX, size: u32::MAX, flags: 0x81, side: Side::Sell },
    };
    let enc = enc.next_messages_member(&quote).unwrap().symbol(b"").unwrap();
    let n = enc.done_with_messages().unwrap().unwrap();
    assert_eq!(n, 20 + 39 + 3 + 39);
    assert_eq!(&scratch[16..20], &[35u8, 0, 2, 0]);

    let (header, dec) = start_decoding_multi_message(&scratch[..n]).header().unwrap();
    assert_eq!(header.block_length, 8);
    assert_eq!(header.template_id, 1);
    assert_eq!(header.schema_id, 1);
    assert_eq!(header.version, 0);
    let (fields, dec) = dec.multi_message_fields().unwrap();
    assert_eq!(fields.sequence_number, 9);
    let dec = match dec.messages_individually().unwrap() {
        Either::Left(d) => d,
        Either::Right(_) => panic!("group has members"),
    };
    let (m, sym) = dec.next_messages_member().unwrap();
    assert_eq!(m, member_trade(3, 4));
    let (text, next) = sym.symbol().unwrap();
    assert_eq!(text, b"ABC");
    let dec = match next {
        Either::Left(d) => d,
        Either::Right(_) => panic!("a member is left"),
    };
    let (m, sym) = dec.next_messages_member().unwrap();
    assert_eq!(m, quote);
    let (text, next) = sym.symbol().unwrap();
    assert_eq!(text, b"");
    match next {
        Either::Left(_) => panic!("no member is left"),
        Either::Right(done) => assert_eq!(done.unwrap(), n),
    }
}

#[test]
fn empty_group_decodes_to_the_finished_session() {
    let mut scratch = vec![0u8; 20];
    let enc = start_encoding_multi_message(&mut scratch[..]);
    let enc = enc.header_copy(&MessageHeader::default()).unwrap();
    let enc = enc.multi_message_fields_copy(&MultiMessageFields::default()).unwrap();
    let n = enc.messages_individually().unwrap().done_with_messages().unwrap().unwrap();
    assert_eq!(n, 20);
    let (_, dec) = start_decoding_multi_message(&scratch).header().unwrap();
    let (_, dec) = dec.multi_message_fields().unwrap();
    match dec.messages_individually().unwrap() {
        Either::Right(done) => assert_eq!(done.unwrap(), 20),
        Either::Left(_) => panic!("group is empty"),
    }
}

#[test]
fn encoder_refuses_what_does_not_fit() {
    let mut small = vec![0u8; 7];
    assert_eq!(
        start_encoding_multi_message(&mut small[..])
            .header_copy(&MessageHeader::default())
            .err()
            .unwrap(),
        CodecErr::NotEnoughBytes
    );
    assert_eq!(
        start_encoding_multi_message(&mut small[..]).header().err().unwrap(),
        CodecErr::NotEnoughBytes
    );
    let mut scratch = vec![0u8; 20 + 39 + 2];
    let enc = start_encoding_multi_message(&mut scratch[..]);
    let enc = enc.header_copy(&MessageHeader::default()).unwrap();
    let enc = enc.multi_message_fields_copy(&MultiMessageFields::default()).unwrap();
    let enc = enc.messages_individually().unwrap();
    let sym = enc.next_messages_member(&member_trade(1, 1)).unwrap();
    assert_eq!(sym.symbol(b"ABC").err().unwrap(), CodecErr::NotEnoughBytes);
    // nothing of the symbol was written, not even its length
    assert_eq!(&scratch[55..61], &[0u8; 6]);
}

#[test]
fn encoder_refuses_a_member_beyond_the_sixteen_bit_count() {
    let mut scratch = vec![0u8; 64];
    let full = MultiMessageMessagesMemberEncoder {
        scratch: ScratchEncoderData { data: &mut scratch[..], pos: 20 },
        count_write_pos: 18,
        count: u16::MAX,
    };
    assert_eq!(
        full.next_messages_member(&member_trade(1, 1)).err().unwrap(),
        CodecErr::SliceIsLongerThanAllowedBySchema
    );
}

#[test]
fn overlay_steps_set_bytes_aside_and_hand_back_what_they_hold() {
    let mut scratch = vec![0u8; 32];
    scratch[..8].copy_from_slice(&[8, 0, 1, 0, 1, 0, 0, 0]);
    scratch[8..16].copy_from_slice(&77u64.to_le_bytes());
    let (header, enc) = start_encoding_multi_message(&mut scratch[..]).header().unwrap();
    assert_eq!(header, MultiMessageMessageHeader::default().message_header);
    let (fields, enc) = enc.multi_message_fields().unwrap();
    assert_eq!(fields.sequence_number, 77);
    let n = enc.messages_individually().unwrap().done_with_messages().unwrap().unwrap();
    assert_eq!(n, 20);
    assert_eq!(&scratch[..8], &[8u8, 0, 1, 0, 1, 0, 0, 0]);
}

#[test]
fn message_header_entry_point_reads_eight_bytes() {
    let (h, _) = start_decoding_message_header(&[8, 0, 1, 0, 2, 0, 3, 1]).unwrap();
    assert_eq!(h, MessageHeader { block_length: 8, template_id: 1, schema_id: 2, version: 259 });
    assert_eq!(
        start_decoding_message_header(&[0u8; 7]).err().unwrap(),
        CodecErr::NotEnoughBytes
    );
}

#[test]
fn bytes_that_name_no_side_or_type_read_as_the_null_value() {
    assert_eq!(Side::from_u8(0), Side::Buy);
    assert_eq!(Side::from_u8(1), Side::Sell);
    assert_eq!(Side::from_u8(2), Side::NullVal);
    assert_eq!(Side::NullVal.to_u8(), 255);
    assert_eq!(MsgType::from_u8(0), MsgType::Trade);
    assert_eq!(MsgType::from_u8(1), MsgType::Quote);
    assert_eq!(MsgType::from_u8(200), MsgType::NullVal);
    assert_eq!(Side::default(), Side::NullVal);
    assert_eq!(MsgType::default(), MsgType::NullVal);
}

fn table(stored_count: u32, lens: &[u32]) -> Vec<u8> {
    let mut t = Vec::new();
    t.extend_from_slice(&stored_count.to_le_bytes());
    for l in lens {
        t.extend_from_slice(&l.to_le_bytes());
    }
    if t.len() % 8 != 0 {
        t.extend_from_slice(&[0u8; 4]);
    }
    t
}

#[test]
fn single_segment_takes_one_word_of_table() {
    let w: usize = 5;
    let mut wire = table(0, &[w as u32]);
    wire.extend(std::iter::repeat(0xABu8).take(w * 8 + 3));
    let (rest, total, slices) = read_segment_table(&wire, 1 << 23).unwrap();
    assert_eq!(total, w);
    assert_eq!(slices, vec![(0, w)]);
    assert_eq!(rest.len(), w * 8 + 3);
    let (segments, consumed) = CapnpReader::new(false).frame(&wire).unwrap();
    assert_eq!(consumed, 8 + w * 8);
    assert_eq!(segments.len(), 1);
    assert_eq!(segments.get_segment(0).unwrap().len(), w * 8);
    assert!(segments.get_segment(1).is_none());
}

#[test]
fn six_hundred_segments_are_too_many() {
    let wire = table(599, &[1]);
    assert_eq!(wire.len(), 8);
    assert_eq!(read_segment_table(&wire, u64::MAX).unwrap_err(), SegmentErr::TooManySegments);
    assert_eq!(
        read_segment_table(&table(511, &[1]), u64::MAX).unwrap_err(),
        SegmentErr::TooManySegments
    );
    assert_eq!(
        CapnpReader::new(false).frame(&wire).unwrap_err(),
        ReadErr::Malformed(SegmentErr::TooManySegments)
    );
}

#[test]
fn a_count_that_wraps_to_zero_is_too_few() {
    let wire = table(u32::MAX, &[1]);
    assert_eq!(read_segment_table(&wire, u64::MAX).unwrap_err(), SegmentErr::TooFewSegments);
}

#[test]
fn segment_offsets_are_the_running_sums_of_the_lengths() {
    let mut wire = table(2, &[2, 3, 1]);
    assert_eq!(wire.len(), 16);
    wire.extend((0..48u8).map(|i| i));
    let (rest, total, slices) = read_segment_table(&wire, 100).unwrap();
    assert_eq!(total, 6);
    assert_eq!(slices, vec![(0, 2), (2, 5), (5, 6)]);
    assert_eq!(rest.len(), 48);
    let (segments, consumed) = CapnpReader::new(false).frame(&wire).unwrap();
    assert_eq!(consumed, 16 + 48);
    assert_eq!(segments.get_segment(1).unwrap(), &(16..40u8).collect::<Vec<u8>>()[..]);
    assert_eq!(segments.get_segment(2).unwrap()[0], 40);
}

#[test]
fn table_is_padded_to_whole_words() {
    // two segments: count, two lengths, padding
    let t2 = table(1, &[1, 1]);
    assert_eq!(t2.len(), 16);
    let mut wire = t2.clone();
    wire.extend_from_slice(&[0u8; 16]);
    assert_eq!(CapnpReader::new(false).frame(&wire).unwrap().1, 32);
    // four segments: count, four lengths, padding
    let t4 = table(3, &[1, 1, 1, 1]);
    assert_eq!(t4.len(), 24);
    let (rest, total, slices) = read_segment_table(&t4, 100).unwrap();
    assert_eq!((rest.len(), total, slices.len()), (0, 4, 4));
    // five segments: count and five lengths fill three words
    let t5 = table(4, &[1, 1, 1, 1, 1]);
    assert_eq!(t5.len(), 24);
    assert_eq!(read_segment_table(&t5, 100).unwrap().1, 5);
}

#[test]
fn table_cut_short_is_truncated() {
    assert_eq!(read_segment_table(&[0u8; 7], 100).unwrap_err(), SegmentErr::Truncated);
    let t = table(2, &[1, 1, 1]);
    assert_eq!(read_segment_table(&t[..15], 100).unwrap_err(), SegmentErr::Truncated);
    // the table is whole but the segments are not
    let mut wire = table(0, &[2]);
    wire.extend_from_slice(&[0u8; 15]);
    assert_eq!(
        CapnpReader::new(false).frame(&wire).unwrap_err(),
        ReadErr::Malformed(SegmentErr::Truncated)
    );
}

#[test]
fn message_above_the_traversal_limit_is_too_large() {
    let wire = table(1, &[60, 41]);
    assert_eq!(read_segment_table(&wire, 100).unwrap_err(), SegmentErr::MessageTooLarge);
    assert_eq!(read_segment_table(&wire, 101).unwrap().1, 101);
    // the default limit is eight mebiwords
    let reader = CapnpReader::new(false);
    assert_eq!(reader.traversal_limit_in_words, 8 * 1024 * 1024);
    assert!(!reader.packed);
    assert!(CapnpReader::new(true).packed);
    let big = table(0, &[8 * 1024 * 1024 + 1]);
    assert_eq!(reader.frame(&big).unwrap_err(), ReadErr::Malformed(SegmentErr::MessageTooLarge));
}

#[test]
fn plain_segmented_message_is_taken_off_the_buffer_with_its_records() {
    let mut wire = table(0, &[2]);
    wire.extend_from_slice(&[0u8; 16]);
    wire.extend_from_slice(&[7u8; 3]);
    let records = vec![BookRecord { fields: member_trade(12, 1), symbol: b"Q".to_vec() }];
    let mut buf = StreamVec::new(wire);
    let mut stats = Summarizer::default();
    let reader = CapnpReader::new(false);
    reader.deserialize(&mut buf, &mut stats, &records, 0).unwrap();
    assert_eq!(buf.fill_buf(), &[7u8; 3]);
    assert_eq!(stats.get(b"Q").unwrap().trade_volume, 12);
    // what is left is no table: nothing moves
    assert_eq!(
        reader.deserialize_unpacked(&mut buf, &mut stats, &records).unwrap_err(),
        ReadErr::Malformed(SegmentErr::Truncated)
    );
    assert_eq!(buf.fill_buf().len(), 3);
    assert_eq!(stats.get(b"Q").unwrap().trade_volume, 12);
    let mut empty = StreamVec::new(Vec::new());
    assert_eq!(
        reader.deserialize(&mut empty, &mut stats, &records, 0).unwrap_err(),
        ReadErr::NoMoreData
    );
}

#[test]
fn packed_message_is_taken_off_the_buffer_by_the_bytes_it_took() {
    let records = vec![BookRecord { fields: member_trade(12, 1), symbol: b"Q".to_vec() }];
    let mut buf = StreamVec::new(vec![1, 2, 3, 4, 5]);
    let mut stats = Summarizer::default();
    let reader = CapnpReader::new(true);
    reader.deserialize(&mut buf, &mut stats, &records, 3).unwrap();
    assert_eq!(buf.fill_buf(), &[4u8, 5]);
    assert_eq!(stats.get(b"Q").unwrap().trade_volume, 12);
    reader.deserialize_packed(&mut buf, &mut stats, &records, 2).unwrap();
    assert_eq!(buf.fill_buf().len(), 0);
    assert_eq!(stats.get(b"Q").unwrap().trade_volume, 24);
}

#[test]
fn packed_reader_reports_the_end_of_the_stream_on_an_empty_buffer() {
    let records = vec![BookRecord { fields: member_trade(12, 1), symbol: b"Q".to_vec() }];
    let mut buf = StreamVec::new(Vec::new());
    let mut stats = Summarizer::default();
    let reader = CapnpReader::new(true);
    assert_eq!(
        reader.deserialize(&mut buf, &mut stats, &records, 0).unwrap_err(),
        ReadErr::NoMoreData
    );
    assert_eq!(
        reader.deserialize_packed(&mut buf, &mut stats, &records, 0).unwrap_err(),
        ReadErr::NoMoreData
    );
    assert!(stats.get(b"Q").is_none());
    // a buffer that has been read to its end is at the end of the stream too
    let mut buf = StreamVec::new(vec![1, 2]);
    reader.deserialize(&mut buf, &mut stats, &records, 2).unwrap();
    assert_eq!(
        reader.deserialize(&mut buf, &mut stats, &records, 0).unwrap_err(),
        ReadErr::NoMoreData
    );
    assert_eq!(stats.get(b"Q").unwrap().trade_volume, 12);
}

#[test]
fn size_prefixed_message_is_framed_by_its_length() {
    let reader = FlatbuffersReader::new();
    let mut wire = 5u32.to_le_bytes().to_vec();
    wire.extend_from_slice(&[1, 2, 3, 4, 5, 6, 7]);
    assert_eq!(reader.frame(&wire).unwrap(), 9);
    assert_eq!(reader.frame(&[]).unwrap_err(), ReadErr::NoMoreData);
    assert_eq!(
        reader.frame(&wire[..3]).unwrap_err(),
        ReadErr::Malformed(PrefixErr::TruncatedPrefix)
    );
    assert_eq!(
        reader.frame(&wire[..8]).unwrap_err(),
        ReadErr::Malformed(PrefixErr::TruncatedMessage)
    );
    assert_eq!(reader.frame(&[0, 1, 0, 0]).unwrap_err(), ReadErr::Malformed(PrefixErr::TruncatedMessage));
    assert_eq!(reader.frame(&[0, 0, 0, 0]).unwrap(), 4);
}

#[test]
fn size_prefixed_message_is_taken_off_the_buffer_with_its_records() {
    let mut wire = 2u32.to_le_bytes().to_vec();
    wire.extend_from_slice(&[0xAA, 0xBB, 0xCC]);
    let records = vec![
        BookRecord { fields: member_trade(1, 1), symbol: b"Z".to_vec() },
        BookRecord { fields: member_trade(2, 1), symbol: b"Z".to_vec() },
    ];
    let mut buf = StreamVec::new(wire);
    let mut stats = Summarizer::default();
    let reader = FlatbuffersReader::new();
    reader.deserialize(&mut buf, &mut stats, &records).unwrap();
    assert_eq!(buf.fill_buf(), &[0xCCu8]);
    assert_eq!(stats.get(b"Z").unwrap().trade_volume, 3);
    assert_eq!(
        reader.deserialize(&mut buf, &mut stats, &records).unwrap_err(),
        ReadErr::Malformed(PrefixErr::TruncatedPrefix)
    );
    assert_eq!(stats.get(b"Z").unwrap().trade_volume, 3);
}
