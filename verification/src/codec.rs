//! What every wire format has in common.
//!
//! Of the messages of a payload, a backend forwards the trade reports and the
//! price level updates and drops the rest. What it forwards of each is the
//! same for every format: the timestamp, the symbol without its padding, and
//! the trade or quote. Decoding a batch folds these records into the
//! summarizer, in the order of the wire.
use vstd::prelude::*;
use crate::iex::{IexMessage, IexPayload, PriceLevelUpdate, TradeReport};
use crate::marketdata_sbe::{MsgType, MultiMessageMessagesMember, Quote, Side, Trade};
use crate::summary::{record_quote, record_trade, Summarizer, Totals};

verus! {

/// Why a decoder handed nothing back.
#[derive(Debug, Clone, Copy, PartialEq, Eq)]
pub enum ReadErr<E> {
    /// The buffer is empty: the stream has ended. This is how a run over a
    /// buffer stops, not a fault.
    NoMoreData,
    /// The bytes at the front of the buffer are no batch.
    Malformed(E),
}

/// The tag of a price level update on the buy side.
pub const BUY_TAG: u8 = 0x38;

/// The byte that pads a symbol field to its width.
pub const PAD: u8 = 0x20;

/// The first place from `i` on where `s` holds a padding byte; the length of
/// `s` where it holds none.
pub open spec fn pad_from(s: Seq<u8>, i: int) -> int
    decreases s.len() - i,
{
    if i >= s.len() || s[i] == PAD {
        i
    } else {
        pad_from(s, i + 1)
    }
}

/// The text of a symbol field: the bytes before its first padding byte.
pub open spec fn trimmed(s: Seq<u8>) -> Seq<u8> {
    s.take(pad_from(s, 0))
}

/// The padding starts within the field or at its end.
pub proof fn lemma_pad_from_bounds(s: Seq<u8>, i: int)
    requires
        0 <= i <= s.len(),
    ensures
        i <= pad_from(s, i) <= s.len(),
    decreases s.len() - i,
{
    if i < s.len() && s[i] != PAD {
        lemma_pad_from_bounds(s, i + 1);
    }
}

/// The text of a fixed-width symbol field, borrowed: the field is cut at its
/// first space, and taken whole where it holds none.
pub fn parse_symbol(sym: &[u8; 8]) -> (text: &[u8])
    ensures
        text@ == trimmed(sym@),
{
    let mut i: usize = 0;
    while i < 8 && sym[i] != PAD
        invariant
            i <= 8,
            sym@.len() == 8,
            pad_from(sym@, 0) == pad_from(sym@, i as int),
        decreases 8 - i,
    {
        i = i + 1;
    }
    vstd::slice::slice_subrange(sym.as_slice(), 0, i)
}

/// One forwarded message: its fixed fields and the text of its symbol.
pub struct Record {
    pub fields: MultiMessageMessagesMember,
    pub symbol: Seq<u8>,
}

/// The fixed fields that stand for a trade report.
pub open spec fn trade_fields(tr: TradeReport) -> MultiMessageMessagesMember {
    MultiMessageMessagesMember {
        timestamp: tr.timestamp,
        msg_type: MsgType::Trade,
        trade: Trade { price: tr.price, size: tr.size },
        quote: Quote { price: 0, size: 0, flags: 0, side: Side::NullVal },
    }
}

/// The fixed fields that stand for a price level update. Its tag tells the
/// side.
pub open spec fn quote_fields(plu: PriceLevelUpdate) -> MultiMessageMessagesMember {
    MultiMessageMessagesMember {
        timestamp: plu.timestamp,
        msg_type: MsgType::Quote,
        trade: Trade { price: 0, size: 0 },
        quote: Quote {
            price: plu.price,
            size: plu.size,
            flags: plu.event_flags,
            side: if plu.msg_type == BUY_TAG {
                Side::Buy
            } else {
                Side::Sell
            },
        },
    }
}

/// What is forwarded of a message: a record for a trade report or a price
/// level update, nothing for any other message.
pub open spec fn forwarded(m: IexMessage) -> Option<Record> {
    match m {
        IexMessage::TradeReport(tr) => Some(
            Record { fields: trade_fields(tr), symbol: trimmed(tr.symbol@) },
        ),
        IexMessage::PriceLevelUpdate(plu) => Some(
            Record { fields: quote_fields(plu), symbol: trimmed(plu.symbol@) },
        ),
        _ => None,
    }
}

/// The records that are forwarded of a run of messages, in their order.
pub open spec fn relevant(msgs: Seq<IexMessage>) -> Seq<Record>
    decreases msgs.len(),
{
    if msgs.len() == 0 {
        Seq::empty()
    } else {
        match forwarded(msgs.last()) {
            Some(r) => relevant(msgs.drop_last()).push(r),
            None => relevant(msgs.drop_last()),
        }
    }
}

/// The totals after one record: a trade adds its size to the volume, a quote
/// widens the range of its side, anything else changes nothing.
pub open spec fn apply(m: Map<Seq<u8>, Totals>, r: Record) -> Map<Seq<u8>, Totals> {
    match r.fields.msg_type {
        MsgType::Trade => record_trade(m, r.symbol, r.fields.trade.size as u64),
        MsgType::Quote => record_quote(
            m,
            r.symbol,
            r.fields.quote.price,
            r.fields.quote.side == Side::Buy,
        ),
        MsgType::NullVal => m,
    }
}

/// The totals after a run of records, folded in from the first to the last.
pub open spec fn fold(m: Map<Seq<u8>, Totals>, rs: Seq<Record>) -> Map<Seq<u8>, Totals>
    decreases rs.len(),
{
    if rs.len() == 0 {
        m
    } else {
        apply(fold(m, rs.drop_last()), rs.last())
    }
}

/// Folding one record more is applying it to what the others gave.
pub proof fn lemma_fold_push(m: Map<Seq<u8>, Totals>, rs: Seq<Record>, r: Record)
    ensures
        fold(m, rs.push(r)) == apply(fold(m, rs), r),
{
    assert(rs.push(r).drop_last() =~= rs);
}

/// The records of one message more are those of the others and then its own.
pub proof fn lemma_relevant_step(msgs: Seq<IexMessage>, i: int)
    requires
        0 <= i < msgs.len(),
    ensures
        relevant(msgs.take(i + 1)) == match forwarded(msgs[i]) {
            Some(r) => relevant(msgs.take(i)).push(r),
            None => relevant(msgs.take(i)),
        },
{
    assert(msgs.take(i + 1).drop_last() =~= msgs.take(i));
}

/// Folds one record into the summarizer.
pub fn fold_in(stats: &mut Summarizer, fields: &MultiMessageMessagesMember, symbol: &[u8])
    requires
        old(stats).wf(),
    ensures
        final(stats).wf(),
        final(stats)@ == apply(old(stats)@, Record { fields: *fields, symbol: symbol@ }),
{
    match fields.msg_type {
        MsgType::Trade => stats.append_trade_volume(symbol, fields.trade.size as u64),
        MsgType::Quote => stats.update_quote_prices(
            symbol,
            fields.quote.price,
            match fields.quote.side {
                Side::Buy => true,
                _ => false,
            },
        ),
        MsgType::NullVal => {},
    }
}

/// Folds the forwarded messages of a payload into the summarizer, without
/// any wire format in between.
pub fn fold_payload(stats: &mut Summarizer, payload: &IexPayload)
    requires
        old(stats).wf(),
    ensures
        final(stats).wf(),
        final(stats)@ == fold(old(stats)@, relevant(payload.messages@)),
{
    let n: usize = payload.messages.len();
    let mut i: usize = 0;
    while i < n
        invariant
            i <= n,
            n == payload.messages@.len(),
            stats.wf(),
            stats@ == fold(old(stats)@, relevant(payload.messages@.take(i as int))),
        decreases n - i,
    {
        proof {
            lemma_relevant_step(payload.messages@, i as int);
        }
        match payload.messages.get(i) {
            Some(IexMessage::TradeReport(tr)) => {
                let fields = trade_member(tr);
                proof {
                    lemma_fold_push(
                        old(stats)@,
                        relevant(payload.messages@.take(i as int)),
                        Record { fields, symbol: trimmed(tr.symbol@) },
                    );
                }
                fold_in(stats, &fields, parse_symbol(&tr.symbol));
            },
            Some(IexMessage::PriceLevelUpdate(plu)) => {
                let fields = quote_member(plu);
                proof {
                    lemma_fold_push(
                        old(stats)@,
                        relevant(payload.messages@.take(i as int)),
                        Record { fields, symbol: trimmed(plu.symbol@) },
                    );
                }
                fold_in(stats, &fields, parse_symbol(&plu.symbol));
            },
            _ => {},
        }
        i = i + 1;
    }
    assert(payload.messages@.take(n as int) =~= payload.messages@);
}

/// The fixed fields that stand for a trade report.
pub fn trade_member(tr: &TradeReport) -> (fields: MultiMessageMessagesMember)
    ensures
        fields == trade_fields(*tr),
{
    MultiMessageMessagesMember {
        timestamp: tr.timestamp,
        msg_type: MsgType::Trade,
        trade: Trade { price: tr.price, size: tr.size },
        quote: Quote { price: 0, size: 0, flags: 0, side: Side::NullVal },
    }
}

/// The fixed fields that stand for a price level update.
pub fn quote_member(plu: &PriceLevelUpdate) -> (fields: MultiMessageMessagesMember)
    ensures
        fields == quote_fields(*plu),
{
    MultiMessageMessagesMember {
        timestamp: plu.timestamp,
        msg_type: MsgType::Quote,
        trade: Trade { price: 0, size: 0 },
        quote: Quote {
            price: plu.price,
            size: plu.size,
            flags: plu.event_flags,
            side: if plu.msg_type == BUY_TAG {
                Side::Buy
            } else {
                Side::Sell
            },
        },
    }
}

/// One forwarded message as a value of its own: what a backend hands to
/// its wire format and gets back from it.
#[derive(Debug, PartialEq, Eq)]
pub struct BookRecord {
    pub fields: MultiMessageMessagesMember,
    pub symbol: Vec<u8>,
}

impl View for BookRecord {
    type V = Record;

    open spec fn view(&self) -> Record {
        Record { fields: self.fields, symbol: self.symbol@ }
    }
}

/// The records that a run of values stands for.
pub open spec fn records_of(v: Seq<BookRecord>) -> Seq<Record> {
    Seq::new(v.len(), |i: int| v[i]@)
}

/// The records that are forwarded of a payload, in the order of the wire:
/// what a backend encodes. A payload that holds no trade report and no price
/// level update gives none, and a backend then writes nothing.
pub fn forwarded_records(payload: &IexPayload) -> (records: Vec<BookRecord>)
    ensures
        records_of(records@) == relevant(payload.messages@),
{
    let mut records: Vec<BookRecord> = Vec::new();
    let n: usize = payload.messages.len();
    let mut i: usize = 0;
    assert(records_of(records@) =~= relevant(payload.messages@.take(0)));
    while i < n
        invariant
            i <= n,
            n == payload.messages@.len(),
            records_of(records@) == relevant(payload.messages@.take(i as int)),
        decreases n - i,
    {
        proof {
            lemma_relevant_step(payload.messages@, i as int);
        }
        let ghost before = records@;
        match payload.messages.get(i) {
            Some(IexMessage::TradeReport(tr)) => {
                let record = BookRecord {
                    fields: trade_member(tr),
                    symbol: vstd::slice::slice_to_vec(parse_symbol(&tr.symbol)),
                };
                records.push(record);
                assert(records_of(records@) =~= records_of(before).push(record@));
            },
            Some(IexMessage::PriceLevelUpdate(plu)) => {
                let record = BookRecord {
                    fields: quote_member(plu),
                    symbol: vstd::slice::slice_to_vec(parse_symbol(&plu.symbol)),
                };
                records.push(record);
                assert(records_of(records@) =~= records_of(before).push(record@));
            },
            _ => {},
        }
        i = i + 1;
    }
    assert(payload.messages@.take(n as int) =~= payload.messages@);
    records
}

/// What a backend is to write for a payload: the forwarded records as one
/// batch, or nothing at all where the payload forwards none. A payload
/// without trade reports and price level updates must leave the output as
/// it is, so a backend does not even write an empty batch for it.
pub fn batch_to_write(payload: &IexPayload) -> (batch: Option<Vec<BookRecord>>)
    ensures
        match batch {
            Some(records) => {
                &&& records@.len() > 0
                &&& records_of(records@) == relevant(payload.messages@)
            },
            None => relevant(payload.messages@).len() == 0,
        },
{
    let records = forwarded_records(payload);
    assert(records_of(records@).len() == records@.len());
    if records.len() == 0 {
        None
    } else {
        Some(records)
    }
}

/// Folds a run of records into the summarizer, from the first to the last.
pub fn fold_records(stats: &mut Summarizer, records: &Vec<BookRecord>)
    requires
        old(stats).wf(),
    ensures
        final(stats).wf(),
        final(stats)@ == fold(old(stats)@, records_of(records@)),
{
    let n: usize = records.len();
    let mut i: usize = 0;
    assert(records_of(records@).take(0) =~= Seq::<Record>::empty());
    while i < n
        invariant
            i <= n,
            n == records@.len(),
            stats.wf(),
            stats@ == fold(old(stats)@, records_of(records@).take(i as int)),
        decreases n - i,
    {
        proof {
            lemma_fold_push(old(stats)@, records_of(records@).take(i as int), records@[i as int]@);
            assert(records_of(records@).take(i + 1) =~= records_of(records@).take(i as int).push(
                records@[i as int]@,
            ));
        }
        fold_in(stats, &records[i].fields, records[i].symbol.as_slice());
        i = i + 1;
    }
    assert(records_of(records@).take(n as int) =~= records_of(records@));
}

} // verus!
