use md_shootout::summary::same_bytes;
use md_shootout::wire::{
    i64_to_bytes, read_i64_le, read_u16_be, read_u16_le, read_u32_le, read_u64_le, to_signed64,
    to_unsigned64, u16_to_bytes, u32_to_bytes, u64_to_bytes,
};
use md_shootout::{StreamVec, Summarizer};

#[test]
fn peek_does_not_advance() {
    let buf = StreamVec::new(vec![1, 2, 3]);
    assert_eq!(buf.fill_buf(), &[1u8, 2, 3]);
    assert_eq!(buf.fill_buf(), &[1u8, 2, 3]);
    assert_eq!(buf.remaining(), 3);
}

#[test]
fn consume_advances_by_exactly_the_amount() {
    let mut buf = StreamVec::new(vec![1, 2, 3, 4, 5]);
    buf.consume(2);
    assert_eq!(buf.fill_buf(), &[3u8, 4, 5]);
    buf.consume(0);
    assert_eq!(buf.fill_buf(), &[3u8, 4, 5]);
    buf.consume(3);
    assert_eq!(buf.fill_buf().len(), 0);
    assert_eq!(buf.remaining(), 0);
}

#[test]
fn read_copies_what_fits_and_what_is_left() {
    let mut buf = StreamVec::new(vec![1, 2, 3, 4, 5]);
    let mut out = [0u8; 3];
    assert_eq!(buf.read(&mut out), 3);
    assert_eq!(out, [1, 2, 3]);
    let mut out = [9u8; 4];
    assert_eq!(buf.read(&mut out), 2);
    assert_eq!(out, [4, 5, 9, 9]);
    assert_eq!(buf.read(&mut out), 0);
    assert_eq!(out, [4, 5, 9, 9]);
}

#[test]
fn first_sighting_of_a_symbol_starts_from_the_fresh_totals() {
    let mut stats = Summarizer::default();
    assert!(stats.get(b"MSFT").is_none());
    stats.append_trade_volume(b"MSFT", 0);
    let e = stats.get(b"MSFT").unwrap();
    assert_eq!(e.symbol, b"MSFT");
    assert_eq!(
        (e.trade_volume, e.bid_high, e.bid_low, e.ask_high, e.ask_low),
        (0, 0, u64::MAX, 0, u64::MAX)
    );
}

#[test]
fn trade_volume_is_a_running_sum_per_symbol() {
    let mut stats = Summarizer::default();
    stats.append_trade_volume(b"A", 5);
    stats.append_trade_volume(b"B", 7);
    stats.append_trade_volume(b"A", 11);
    assert_eq!(stats.get(b"A").unwrap().trade_volume, 16);
    assert_eq!(stats.get(b"B").unwrap().trade_volume, 7);
    assert!(stats.get(b"AB").is_none());
    assert!(stats.get(b"").is_none());
}

#[test]
fn trade_volume_wraps_at_sixty_four_bits() {
    let mut stats = Summarizer::default();
    stats.append_trade_volume(b"A", u64::MAX);
    stats.append_trade_volume(b"A", 3);
    assert_eq!(stats.get(b"A").unwrap().trade_volume, 2);
}

#[test]
fn quotes_widen_the_range_of_their_side() {
    let mut stats = Summarizer::default();
    stats.update_quote_prices(b"A", 10, true);
    stats.update_quote_prices(b"A", 7, true);
    stats.update_quote_prices(b"A", 12, true);
    stats.update_quote_prices(b"A", 100, false);
    stats.update_quote_prices(b"A", 90, false);
    let e = stats.get(b"A").unwrap();
    assert_eq!((e.bid_low, e.bid_high), (7, 12));
    assert_eq!((e.ask_low, e.ask_high), (90, 100));
    assert_eq!(e.trade_volume, 0);
}

#[test]
fn summaries_of_the_same_updates_are_equal() {
    let mut a = Summarizer::default();
    let mut b = Summarizer::default();
    assert_eq!(a, b);
    a.append_trade_volume(b"X", 1);
    assert_ne!(a, b);
    b.append_trade_volume(b"X", 1);
    assert_eq!(a, b);
}

#[test]
fn summaries_are_the_same_in_whatever_order_symbols_were_seen() {
    let mut a = Summarizer::default();
    let mut b = Summarizer::default();
    assert!(a.same_as(&b));
    a.append_trade_volume(b"X", 1);
    a.update_quote_prices(b"Y", 5, false);
    assert!(!a.same_as(&b));
    assert!(!b.same_as(&a));
    b.update_quote_prices(b"Y", 5, false);
    b.append_trade_volume(b"X", 1);
    assert!(a.same_as(&b));
    assert!(b.same_as(&a));
    assert_ne!(a, b);
    b.append_trade_volume(b"X", 1);
    assert!(!a.same_as(&b));
    a.append_trade_volume(b"X", 1);
    a.append_trade_volume(b"Z", 0);
    assert!(!a.same_as(&b));
    assert!(!b.same_as(&a));
}

#[test]
fn byte_strings_are_compared_whole() {
    assert!(same_bytes(b"", b""));
    assert!(same_bytes(b"abc", b"abc"));
    assert!(!same_bytes(b"abc", b"abd"));
    assert!(!same_bytes(b"abc", b"ab"));
    assert!(!same_bytes(b"", b"a"));
}

#[test]
fn fields_are_read_in_their_byte_order() {
    let d = [0x01u8, 0x02, 0x03, 0x04, 0x05, 0x06, 0x07, 0x08, 0x09];
    assert_eq!(read_u16_le(&d, 0), 0x0201);
    assert_eq!(read_u16_be(&d, 0), 0x0102);
    assert_eq!(read_u32_le(&d, 1), 0x0504_0302);
    assert_eq!(read_u64_le(&d, 1), 0x0908_0706_0504_0302);
    assert_eq!(read_i64_le(&[0xff; 8], 0), -1);
    assert_eq!(read_i64_le(&[0, 0, 0, 0, 0, 0, 0, 0x80], 0), i64::MIN);
}

#[test]
fn values_are_written_least_significant_byte_first() {
    assert_eq!(u16_to_bytes(0x1234), [0x34, 0x12]);
    assert_eq!(u32_to_bytes(0x1234_5678), [0x78, 0x56, 0x34, 0x12]);
    assert_eq!(u64_to_bytes(0x0102_0304_0506_0708), [8, 7, 6, 5, 4, 3, 2, 1]);
    assert_eq!(u64_to_bytes(u64::MAX), [0xff; 8]);
    assert_eq!(i64_to_bytes(-2), [0xfe, 0xff, 0xff, 0xff, 0xff, 0xff, 0xff, 0xff]);
    assert_eq!(i64_to_bytes(i64::MIN), (i64::MIN).to_le_bytes());
}

#[test]
fn signed_and_unsigned_readings_share_their_bits() {
    for v in [0i64, 1, -1, i64::MAX, i64::MIN, 123_456_789, -987_654_321] {
        assert_eq!(to_unsigned64(v), v as u64);
        assert_eq!(to_signed64(v as u64), v);
    }
}
