//! The fixed-layout backend: batches written and read through the session
//! types of [`crate::marketdata_sbe`].
use vstd::prelude::*;
use crate::codec::{
    fold, fold_in, forwarded, lemma_fold_push, lemma_pad_from_bounds, lemma_relevant_step,
    parse_symbol, quote_member, relevant, trade_member, ReadErr, Record,
};
use crate::iex::{IexMessage, IexPayload};
use crate::marketdata_sbe::{
    start_decoding_multi_message, start_encoding_multi_message, CodecErr, Either,
    GroupSizeEncoding, MessageHeader, MultiMessageFields, MultiMessageMessageHeader,
    MultiMessageMessagesMember,
};
use crate::stream::StreamVec;
use crate::summary::Summarizer;
use crate::wire::{
    lemma_bytes_len, lemma_overwrite_extends, lemma_overwrite_inside, lemma_subrange_twice,
    lemma_u16_bytes_at, lemma_u32_bytes_at, lemma_u64_bytes_at, overwrite, u16_bytes, u16_le,
    u32_bytes, u32_le, u64_bytes,
};

verus! {

/// The bytes of the staging buffer that a new writer starts with.
pub const SCRATCH_LEN: usize = 8192;

/// The bytes before the first member of a batch: message header, fixed
/// fields and group header.
pub const PREAMBLE_LEN: usize = 20;

/// One member on the wire: its fixed fields, the length of its symbol, the
/// symbol.
#[verifier::opaque]
pub open spec fn record_bytes(r: Record) -> Seq<u8> {
    r.fields.bytes() + u32_bytes(r.symbol.len() as int) + r.symbol
}

/// The members of a group on the wire, one behind the other.
pub open spec fn group_bytes(rs: Seq<Record>) -> Seq<u8>
    decreases rs.len(),
{
    if rs.len() == 0 {
        Seq::empty()
    } else {
        group_bytes(rs.drop_last()) + record_bytes(rs.last())
    }
}

/// The bytes before the first member of a batch with the given message
/// header, sequence number and count of members.
#[verifier::opaque]
pub open spec fn preamble_bytes(header: MessageHeader, seq_no: u64, count: u16) -> Seq<u8> {
    header.bytes() + (MultiMessageFields {
        sequence_number: seq_no,
    }).bytes() + (GroupSizeEncoding { block_length: 35, num_in_group: count }).bytes()
}

/// A whole batch on the wire.
pub open spec fn batch_bytes(header: MessageHeader, seq_no: u64, rs: Seq<Record>) -> Seq<u8> {
    preamble_bytes(header, seq_no, rs.len() as u16) + group_bytes(rs)
}

/// Whether a whole member lies at `at`: its fixed fields, the length of its
/// symbol and as many bytes as that length declares.
pub open spec fn whole_record(s: Seq<u8>, at: int) -> bool {
    at + 39 <= s.len() && at + 39 + u32_le(s, at + 35) <= s.len()
}

/// The member that lies at `at`.
pub open spec fn record_at(s: Seq<u8>, at: int) -> Record {
    Record {
        fields: MultiMessageMessagesMember::decode(s, at),
        symbol: s.subrange(at + 39, at + 39 + u32_le(s, at + 35)),
    }
}

/// What reading `n` members from `start` on gives: the members read, in
/// order, and the place behind the last; no place where the bytes ran out,
/// and then the members that were whole before that.
pub open spec fn decode_members(s: Seq<u8>, start: int, n: nat) -> (Seq<Record>, Option<int>)
    decreases n,
{
    if n == 0 {
        (Seq::empty(), Some(start))
    } else {
        let (rs, end) = decode_members(s, start, (n - 1) as nat);
        match end {
            None => (rs, None),
            Some(at) => if whole_record(s, at) {
                (rs.push(record_at(s, at)), Some(at + 39 + u32_le(s, at + 35)))
            } else {
                (rs, None)
            },
        }
    }
}

/// What reading the batch at the front of `s` gives: its members and its
/// length in bytes; no length where the bytes ran out, and then the members
/// that were whole before that.
pub open spec fn decode_batch(s: Seq<u8>) -> (Seq<Record>, Option<int>) {
    if s.len() < 20 {
        (Seq::empty(), None)
    } else {
        decode_members(s, 20, u16_le(s, 18) as nat)
    }
}

/// Once the bytes have run out, asking for more members gives no more.
pub proof fn lemma_decode_members_stuck(s: Seq<u8>, start: int, i: nat, n: nat)
    requires
        i <= n,
        decode_members(s, start, i).1 is None,
    ensures
        decode_members(s, start, n) == decode_members(s, start, i),
    decreases n,
{
    if n > i {
        lemma_decode_members_stuck(s, start, i, (n - 1) as nat);
    }
}

/// Reads batches of the fixed-layout format.
pub struct SBEReader;

impl SBEReader {
    pub fn new() -> SBEReader {
        SBEReader {  }
    }

    /// Decodes the batch at the front of `buf`, folds its members into
    /// `stats` and advances `buf` past the batch. On an empty buffer it
    /// reports the end of the stream and changes nothing. Where the bytes run
    /// out within the batch, the members that were whole have been folded in
    /// and `buf` stays where it was.
    #[verifier::rlimit(40)]
    pub fn deserialize(&self, buf: &mut StreamVec, stats: &mut Summarizer) -> (r: Result<
        (),
        ReadErr<CodecErr>,
    >)
        requires
            old(stats).wf(),
        ensures
            final(stats).wf(),
            old(buf)@.len() == 0 ==> {
                &&& r == Err::<(), ReadErr<CodecErr>>(ReadErr::NoMoreData)
                &&& final(stats)@ == old(stats)@
                &&& final(buf)@ == old(buf)@
            },
            old(buf)@.len() > 0 ==> {
                let (rs, end) = decode_batch(old(buf)@);
                &&& final(stats)@ == fold(old(stats)@, rs)
                &&& match end {
                    Some(n) => {
                        &&& r == Ok::<(), ReadErr<CodecErr>>(())
                        &&& 0 <= n <= old(buf)@.len()
                        &&& final(buf)@ == old(buf)@.skip(n)
                    },
                    None => {
                        &&& r == Err::<(), ReadErr<CodecErr>>(
                            ReadErr::Malformed(CodecErr::NotEnoughBytes),
                        )
                        &&& final(buf)@ == old(buf)@
                    },
                }
            },
    {
        let data = buf.fill_buf();
        if data.len() == 0 {
            return Err(ReadErr::NoMoreData);
        }
        let decoder = start_decoding_multi_message(data);
        let (_header, decoder) = match decoder.header() {
            Ok(v) => v,
            Err(e) => {
                return Err(ReadErr::Malformed(e));
            },
        };
        let (_fields, decoder) = match decoder.multi_message_fields() {
            Ok(v) => v,
            Err(e) => {
                return Err(ReadErr::Malformed(e));
            },
        };
        let mut msg_decoder = match decoder.messages_individually() {
            Ok(v) => v,
            Err(e) => {
                return Err(ReadErr::Malformed(e));
            },
        };
        let ghost s = data@;
        let ghost total = u16_le(s, 18) as nat;
        let ghost mut done: Seq<Record> = Seq::empty();
        let ghost mut i: nat = 0;
        loop
            invariant
                s == data@,
                s == old(buf)@,
                s.len() >= 20,
                buf@ == old(buf)@,
                total == u16_le(s, 18),
                i <= total,
                stats.wf(),
                stats@ == fold(old(stats)@, done),
                match msg_decoder {
                    Either::Left(d) => {
                        &&& d.scratch.data@ == s
                        &&& i < total
                        &&& d.index == i
                        &&& d.max_index == total - 1
                        &&& decode_members(s, 20, i) == (done, Some(d.scratch.pos as int))
                    },
                    Either::Right(d) => {
                        &&& i == total
                        &&& d.scratch.pos <= s.len()
                        &&& decode_members(s, 20, i) == (done, Some(d.scratch.pos as int))
                    },
                },
            decreases total - i,
        {
            match msg_decoder {
                Either::Left(msg) => {
                    let ghost at = msg.scratch.pos as int;
                    proof {
                        assert(decode_members(s, 20, i + 1) == if whole_record(s, at) {
                            (done.push(record_at(s, at)), Some(at + 39 + u32_le(s, at + 35)))
                        } else {
                            (done, None::<int>)
                        });
                    }
                    let (member, sym_dec) = match msg.next_messages_member() {
                        Ok(v) => v,
                        Err(e) => {
                            proof {
                                lemma_decode_members_stuck(s, 20, i + 1, total);
                            }
                            return Err(ReadErr::Malformed(e));
                        },
                    };
                    let (sym, next_msg_dec) = match sym_dec.symbol() {
                        Ok(v) => v,
                        Err(e) => {
                            proof {
                                lemma_decode_members_stuck(s, 20, i + 1, total);
                            }
                            return Err(ReadErr::Malformed(e));
                        },
                    };
                    proof {
                        lemma_fold_push(old(stats)@, done, record_at(s, at));
                    }
                    fold_in(stats, &member, sym);
                    proof {
                        done = done.push(record_at(s, at));
                        i = i + 1;
                    }
                    msg_decoder = next_msg_dec;
                },
                Either::Right(finished) => {
                    let msg_len: usize = finished.unwrap();
                    buf.consume(msg_len);
                    return Ok(());
                },
            }
        }
    }
}

/// A group with one member more is the group and then that member.
pub proof fn lemma_group_bytes_push(rs: Seq<Record>, r: Record)
    ensures
        group_bytes(rs.push(r)) == group_bytes(rs) + record_bytes(r),
        group_bytes(rs.push(r)).len() == group_bytes(rs).len() + 39 + r.symbol.len(),
{
    assert(rs.push(r).drop_last() =~= rs);
    lemma_record_bytes(r);
}

/// A member takes 39 bytes and its symbol.
pub proof fn lemma_record_bytes(r: Record)
    ensures
        record_bytes(r) == r.fields.bytes() + (u32_bytes(r.symbol.len() as int) + r.symbol),
        record_bytes(r).len() == 39 + r.symbol.len(),
{
    reveal(record_bytes);
    r.fields.lemma_bytes_len();
    lemma_bytes_len(r.symbol.len() as int);
    assert(record_bytes(r) =~= r.fields.bytes() + (u32_bytes(r.symbol.len() as int)
        + r.symbol));
}

/// The records of the first `i` messages are on the wire no longer than
/// those of all.
pub proof fn lemma_group_bytes_grows(msgs: Seq<IexMessage>, i: int)
    requires
        0 <= i <= msgs.len(),
    ensures
        group_bytes(relevant(msgs.take(i))).len() <= group_bytes(relevant(msgs)).len(),
    decreases msgs.len() - i,
{
    if i < msgs.len() {
        lemma_relevant_step(msgs, i);
        lemma_group_bytes_grows(msgs, i + 1);
        match forwarded(msgs[i]) {
            Some(r) => {
                lemma_group_bytes_push(relevant(msgs.take(i)), r);
            },
            None => {},
        }
    } else {
        assert(msgs.take(i) =~= msgs);
    }
}

/// The preamble takes 20 bytes, and the count of members is the last two of
/// them.
pub proof fn lemma_preamble_bytes(header: MessageHeader, seq_no: u64, count: u16)
    ensures
        preamble_bytes(header, seq_no, count).len() == 20,
        preamble_bytes(header, seq_no, count) == preamble_bytes(header, seq_no, 0).subrange(0, 18) + u16_bytes(
            count as int,
        ) + Seq::<u8>::empty(),
{
    reveal(preamble_bytes);
    reveal(GroupSizeEncoding::bytes);
    let h = header;
    let f = MultiMessageFields { sequence_number: seq_no };
    h.lemma_bytes_len();
    f.lemma_bytes_len();
    lemma_bytes_len(35);
    lemma_bytes_len(0);
    lemma_bytes_len(count as int);
    assert(preamble_bytes(header, seq_no, count) =~= preamble_bytes(header, seq_no, 0).subrange(0, 18) + u16_bytes(
        count as int,
    ) + Seq::<u8>::empty());
}

/// After the header, the fixed fields and an empty group header have been
/// written to the front of a buffer, its first 20 bytes are the preamble of
/// a batch without members.
pub proof fn lemma_preamble_written(
    b0: Seq<u8>,
    b1: Seq<u8>,
    b2: Seq<u8>,
    b3: Seq<u8>,
    header: MessageHeader,
    seq_no: u64,
)
    requires
        b0.len() >= 20,
        b1 == overwrite(b0, 0, header.bytes()),
        b2 == overwrite(b1, 8, (MultiMessageFields { sequence_number: seq_no }).bytes()),
        b3 == overwrite(b2, 16, (GroupSizeEncoding { block_length: 35, num_in_group: 0 }).bytes()),
    ensures
        b3.len() == b0.len(),
        b3.subrange(0, 20) == preamble_bytes(header, seq_no, 0),
{
    reveal(preamble_bytes);
    let h = header;
    let f = MultiMessageFields { sequence_number: seq_no };
    let g = GroupSizeEncoding { block_length: 35, num_in_group: 0 };
    h.lemma_bytes_len();
    f.lemma_bytes_len();
    g.lemma_bytes_len();
    assert(b0.subrange(0, 0) =~= Seq::<u8>::empty());
    lemma_overwrite_extends(b0, 0, Seq::empty(), h.bytes());
    assert(Seq::<u8>::empty() + h.bytes() =~= h.bytes());
    lemma_overwrite_extends(b1, 8, h.bytes(), f.bytes());
    lemma_overwrite_extends(b2, 16, h.bytes() + f.bytes(), g.bytes());
}

/// After one member and its symbol have been written behind a preamble and
/// a group, the buffer starts with the preamble and the group with that
/// member more.
#[verifier::rlimit(40)]
pub proof fn lemma_member_written(
    b0: Seq<u8>,
    b1: Seq<u8>,
    b2: Seq<u8>,
    at: int,
    preamble: Seq<u8>,
    rs: Seq<Record>,
    r: Record,
)
    requires
        0 <= at,
        at + 39 + r.symbol.len() <= b0.len(),
        b0.subrange(0, at) == preamble + group_bytes(rs),
        b1 == overwrite(b0, at, r.fields.bytes()),
        b2 == overwrite(b1, at + 35, u32_bytes(r.symbol.len() as int) + r.symbol),
    ensures
        b2.len() == b0.len(),
        b2.subrange(0, at + 39 + r.symbol.len()) == preamble + group_bytes(rs.push(r)),
{
    r.fields.lemma_bytes_len();
    lemma_record_bytes(r);
    lemma_group_bytes_push(rs, r);
    let known = preamble + group_bytes(rs);
    let tail = u32_bytes(r.symbol.len() as int) + r.symbol;
    lemma_overwrite_extends(b0, at, known, r.fields.bytes());
    lemma_overwrite_extends(b1, at + 35, known + r.fields.bytes(), tail);
    assert(known + r.fields.bytes() + tail =~= preamble + group_bytes(rs.push(r)));
}

/// After the count of members has been patched into the group header, the
/// buffer starts with the batch.
pub proof fn lemma_count_patched(
    b0: Seq<u8>,
    b1: Seq<u8>,
    end: int,
    header: MessageHeader,
    seq_no: u64,
    rs: Seq<Record>,
)
    requires
        rs.len() <= u16::MAX,
        0 <= end <= b0.len(),
        b0.subrange(0, end) == preamble_bytes(header, seq_no, 0) + group_bytes(rs),
        b1 == overwrite(b0, 18, u16_bytes(rs.len() as int)),
    ensures
        b1.len() == b0.len(),
        b1.subrange(0, end) == batch_bytes(header, seq_no, rs),
{
    lemma_preamble_bytes(header, seq_no, 0);
    lemma_preamble_bytes(header, seq_no, rs.len() as u16);
    let before = preamble_bytes(header, seq_no, 0).subrange(0, 18);
    assert(before + u16_bytes(0) + Seq::<u8>::empty() + group_bytes(rs) =~= before + u16_bytes(0)
        + group_bytes(rs));
    lemma_overwrite_inside(b0, end, before, u16_bytes(0), group_bytes(rs), u16_bytes(
        rs.len() as int,
    ));
    assert(before + u16_bytes(rs.len() as int) + group_bytes(rs) =~= batch_bytes(header, seq_no, rs));
}

/// The records of the first `i` messages are no more than those of all.
pub proof fn lemma_relevant_grows(msgs: Seq<IexMessage>, i: int)
    requires
        0 <= i <= msgs.len(),
    ensures
        relevant(msgs.take(i)).len() <= relevant(msgs).len(),
    decreases msgs.len() - i,
{
    if i < msgs.len() {
        lemma_relevant_step(msgs, i);
        lemma_relevant_grows(msgs, i + 1);
    } else {
        assert(msgs.take(i) =~= msgs);
    }
}

/// The bytes that a batch of these records takes on the wire.
pub open spec fn batch_len(rs: Seq<Record>) -> int {
    PREAMBLE_LEN + group_bytes(rs).len()
}

/// Writes batches of the fixed-layout format.
pub struct SBEWriter {
    /// Buffer to construct messages before copying. It is grown to the size
    /// of the largest batch seen and then used again for every batch.
    scratch_buffer: Vec<u8>,
    default_header: MultiMessageMessageHeader,
}

impl SBEWriter {
    /// The bytes of the staging buffer that batches are built in.
    pub closed spec fn staging(&self) -> Seq<u8> {
        self.scratch_buffer@
    }

    /// The message header that every batch of this writer starts with.
    pub closed spec fn header(&self) -> MessageHeader {
        self.default_header.message_header
    }

    /// A writer with a staging buffer of 8192 zero bytes, which is more than
    /// the batch of a datagram needs, and the standard message header: block
    /// length 8, template 1, schema 1, version 0.
    pub fn new() -> (w: SBEWriter)
        ensures
            w.staging() == Seq::new(SCRATCH_LEN as nat, |i: int| 0u8),
            w.header() == MultiMessageMessageHeader::standard().message_header,
    {
        let w = SBEWriter {
            scratch_buffer: vec![0u8; SCRATCH_LEN],
            default_header: MultiMessageMessageHeader::default(),
        };
        assert(w.scratch_buffer@ =~= Seq::new(SCRATCH_LEN as nat, |i: int| 0u8));
        w
    }

    /// Counts the records that are forwarded of `payload` and the bytes that
    /// their batch takes; `None` where they are more than the 16-bit count of
    /// a group holds.
    fn measure(payload: &IexPayload) -> (r: Option<(u16, usize)>)
        ensures
            match r {
                Some((count, len)) => {
                    &&& count == relevant(payload.messages@).len()
                    &&& len == batch_len(relevant(payload.messages@))
                },
                None => relevant(payload.messages@).len() > u16::MAX,
            },
    {
        let ghost msgs = payload.messages@;
        let n: usize = payload.messages.len();
        let mut count: u16 = 0;
        let mut len: usize = PREAMBLE_LEN;
        let mut i: usize = 0;
        while i < n
            invariant
                i <= n,
                n == msgs.len(),
                msgs == payload.messages@,
                count == relevant(msgs.take(i as int)).len(),
                len == batch_len(relevant(msgs.take(i as int))),
                len <= PREAMBLE_LEN + 47 * count,
            decreases n - i,
        {
            proof {
                lemma_relevant_step(msgs, i as int);
                lemma_relevant_grows(msgs, i as int + 1);
            }
            let symbol_len: Option<usize> = match payload.messages.get(i) {
                Some(IexMessage::TradeReport(tr)) => {
                    proof {
                        lemma_pad_from_bounds(tr.symbol@, 0);
                    }
                    Some(parse_symbol(&tr.symbol).len())
                },
                Some(IexMessage::PriceLevelUpdate(plu)) => {
                    proof {
                        lemma_pad_from_bounds(plu.symbol@, 0);
                    }
                    Some(parse_symbol(&plu.symbol).len())
                },
                _ => None,
            };
            match symbol_len {
                Some(l) => {
                    if count == u16::MAX {
                        return None;
                    }
                    proof {
                        lemma_group_bytes_push(
                            relevant(msgs.take(i as int)),
                            forwarded(msgs[i as int])->Some_0,
                        );
                    }
                    count = count + 1;
                    len = len + 39 + l;
                },
                None => {},
            }
            i = i + 1;
        }
        assert(msgs.take(n as int) =~= msgs);
        Some((count, len))
    }

    /// Appends to `output` one batch with the trade reports and price level
    /// updates of `payload`, under this writer's message header. A payload
    /// that holds none of these adds nothing, and leaves the writer as it
    /// was. The batch is built in the staging buffer, which is first grown to
    /// hold it where it is too short. Only a payload that forwards more
    /// records than the 16-bit count of a group holds is refused, and then
    /// nothing changes; no payload that was decoded from the feed is such.
    #[verifier::rlimit(40)]
    pub fn serialize(&mut self, payload: &IexPayload, output: &mut Vec<u8>) -> (r: Result<
        (),
        CodecErr,
    >)
        ensures
            final(self).header() == old(self).header(),
            ({
                let rs = relevant(payload.messages@);
                let batch = batch_bytes(old(self).header(), payload.first_seq_no, rs);
                if rs.len() == 0 {
                    &&& r == Ok::<(), CodecErr>(())
                    &&& final(output)@ == old(output)@
                    &&& final(self).staging() == old(self).staging()
                } else if rs.len() <= u16::MAX {
                    &&& r == Ok::<(), CodecErr>(())
                    &&& final(output)@ == old(output)@ + batch
                    &&& batch.len() == batch_len(rs)
                    &&& final(self).staging().len() == if old(self).staging().len() < batch_len(
                        rs,
                    ) {
                        batch_len(rs)
                    } else {
                        old(self).staging().len() as int
                    }
                    &&& final(self).staging().subrange(0, batch_len(rs)) == batch
                } else {
                    &&& r == Err::<(), CodecErr>(CodecErr::SliceIsLongerThanAllowedBySchema)
                    &&& final(output)@ == old(output)@
                    &&& final(self).staging() == old(self).staging()
                }
            }),
    {
        let ghost msgs = payload.messages@;
        let (total, needed) = match Self::measure(payload) {
            Some(v) => v,
            None => {
                return Err(CodecErr::SliceIsLongerThanAllowedBySchema);
            },
        };
        if total == 0 {
            return Ok(());
        }
        if self.scratch_buffer.len() < needed {
            self.scratch_buffer.resize(needed, 0);
        }
        let ghost cap = self.scratch_buffer@.len();
        let header = self.default_header.message_header;
        let fields = MultiMessageFields { sequence_number: payload.first_seq_no };
        let encoder = start_encoding_multi_message(self.scratch_buffer.as_mut_slice());
        let ghost b0 = encoder.scratch.bytes();
        let encoder = match encoder.header_copy(&header) {
            Ok(e) => e,
            Err(e) => {
                return Err(e);
            },
        };
        let ghost b1 = encoder.scratch.bytes();
        let encoder = match encoder.multi_message_fields_copy(&fields) {
            Ok(e) => e,
            Err(e) => {
                return Err(e);
            },
        };
        let ghost b2 = encoder.scratch.bytes();
        let mut encoder = match encoder.messages_individually() {
            Ok(e) => e,
            Err(e) => {
                return Err(e);
            },
        };
        proof {
            lemma_preamble_written(
                b0,
                b1,
                b2,
                encoder.scratch.bytes(),
                header,
                payload.first_seq_no,
            );
        }
        let n: usize = payload.messages.len();
        let mut i: usize = 0;
        while i < n
            invariant
                i <= n,
                n == msgs.len(),
                msgs == payload.messages@,
                relevant(msgs).len() <= u16::MAX,
                needed == batch_len(relevant(msgs)),
                needed <= cap,
                encoder.scratch.bytes().len() == cap,
                encoder.count_write_pos == 18,
                encoder.count == relevant(msgs.take(i as int)).len(),
                encoder.scratch.pos == batch_len(relevant(msgs.take(i as int))),
                encoder.scratch.bytes().subrange(0, encoder.scratch.pos as int) == preamble_bytes(
                    header,
                    payload.first_seq_no,
                    0,
                ) + group_bytes(relevant(msgs.take(i as int))),
                after_borrow(self.scratch_buffer)@ == final(encoder.scratch.data)@,
                output@ == old(output)@,
                self.default_header == old(self).default_header,
            decreases n - i,
        {
            let ghost before = relevant(msgs.take(i as int));
            let ghost bytes_before = encoder.scratch.bytes();
            let ghost at = encoder.scratch.pos as int;
            proof {
                lemma_relevant_step(msgs, i as int);
                lemma_relevant_grows(msgs, i as int + 1);
                lemma_group_bytes_grows(msgs, i as int + 1);
            }
            let picked: Option<(MultiMessageMessagesMember, &[u8])> = match payload.messages.get(
                i,
            ) {
                Some(IexMessage::TradeReport(tr)) => {
                    proof {
                        lemma_pad_from_bounds(tr.symbol@, 0);
                    }
                    Some((trade_member(tr), parse_symbol(&tr.symbol)))
                },
                Some(IexMessage::PriceLevelUpdate(plu)) => {
                    proof {
                        lemma_pad_from_bounds(plu.symbol@, 0);
                    }
                    Some((quote_member(plu), parse_symbol(&plu.symbol)))
                },
                _ => None,
            };
            match picked {
                Some((member, sym)) => {
                    let ghost rec = Record { fields: member, symbol: sym@ };
                    proof {
                        lemma_group_bytes_push(before, rec);
                    }
                    let sym_enc = match encoder.next_messages_member(&member) {
                        Ok(e) => e,
                        Err(e) => {
                            return Err(e);
                        },
                    };
                    let ghost bytes_mid = sym_enc.parent.scratch.bytes();
                    proof {
                        member.lemma_bytes_len();
                        lemma_overwrite_extends(
                            bytes_before,
                            at,
                            bytes_before.subrange(0, at),
                            member.bytes(),
                        );
                    }
                    encoder = match sym_enc.symbol(sym) {
                        Ok(e) => e,
                        Err(e) => {
                            return Err(e);
                        },
                    };
                    proof {
                        lemma_member_written(
                            bytes_before,
                            bytes_mid,
                            encoder.scratch.bytes(),
                            at,
                            preamble_bytes(header, payload.first_seq_no, 0),
                            before,
                            rec,
                        );
                    }
                },
                None => {},
            }
            i = i + 1;
        }
        assert(msgs.take(n as int) =~= msgs);
        let ghost rs = relevant(msgs);
        let ghost bytes_before = encoder.scratch.bytes();
        let finished = match encoder.done_with_messages() {
            Ok(e) => e,
            Err(e) => {
                return Err(e);
            },
        };
        proof {
            lemma_count_patched(
                bytes_before,
                finished.scratch.bytes(),
                finished.scratch.pos as int,
                header,
                payload.first_seq_no,
                rs,
            );
        }
        let data_len: usize = finished.unwrap();
        let ghost out_before = output@;
        output.extend_from_slice(
            vstd::slice::slice_subrange(self.scratch_buffer.as_slice(), 0, data_len),
        );
        assert(output@ =~= out_before + batch_bytes(header, payload.first_seq_no, rs));
        Ok(())
    }
}

/// A run of records that one batch can hold: their number fits the 16-bit
/// count, and the length of each symbol its 32-bit prefix.
pub open spec fn encodable(rs: Seq<Record>) -> bool {
    &&& rs.len() <= u16::MAX
    &&& forall|i: int| 0 <= i < rs.len() ==> (#[trigger] rs[i]).symbol.len() <= u32::MAX
}

/// The records that are forwarded of any messages have symbols of at most
/// eight bytes.
pub proof fn lemma_relevant_symbols(msgs: Seq<IexMessage>)
    ensures
        relevant(msgs).len() <= msgs.len(),
        forall|i: int|
            0 <= i < relevant(msgs).len() ==> (#[trigger] relevant(msgs)[i]).symbol.len() <= 8,
    decreases msgs.len(),
{
    if msgs.len() > 0 {
        lemma_relevant_symbols(msgs.drop_last());
        match msgs.last() {
            IexMessage::TradeReport(tr) => {
                lemma_pad_from_bounds(tr.symbol@, 0);
            },
            IexMessage::PriceLevelUpdate(plu) => {
                lemma_pad_from_bounds(plu.symbol@, 0);
            },
            _ => {},
        }
    }
}

/// A member is read back from its bytes: where the bytes of a record lie at
/// `at`, a whole member lies there, and it is that record.
#[verifier::rlimit(40)]
pub proof fn lemma_record_round_trip(s: Seq<u8>, at: int, r: Record)
    requires
        0 <= at,
        r.symbol.len() <= u32::MAX,
        at + 39 + r.symbol.len() <= s.len(),
        s.subrange(at, at + 39 + r.symbol.len()) == record_bytes(r),
    ensures
        u32_le(s, at + 35) == r.symbol.len(),
        whole_record(s, at),
        record_at(s, at) == r,
{
    let rb = record_bytes(r);
    let w = 39 + r.symbol.len() as int;
    lemma_record_bytes(r);
    r.fields.lemma_bytes_len();
    lemma_bytes_len(r.symbol.len() as int);
    lemma_subrange_twice(s, at, w, 0, 35);
    assert(rb.subrange(0, 35) =~= r.fields.bytes());
    r.fields.lemma_decode_bytes(s, at);
    lemma_subrange_twice(s, at, w, 35, 39);
    assert(rb.subrange(35, 39) =~= u32_bytes(r.symbol.len() as int));
    lemma_u32_bytes_at(s, at + 35, r.symbol.len() as int);
    lemma_subrange_twice(s, at, w, 39, w);
    assert(rb.subrange(39, w) =~= r.symbol);
}

/// Members are read back from their bytes: where the bytes of a group lie at
/// `start`, reading as many members as the group has gives the group's
/// records and the place behind the group.
#[verifier::rlimit(40)]
pub proof fn lemma_decode_group(s: Seq<u8>, start: int, rs: Seq<Record>)
    requires
        0 <= start,
        start + group_bytes(rs).len() <= s.len(),
        s.subrange(start, start + group_bytes(rs).len()) == group_bytes(rs),
        forall|i: int| 0 <= i < rs.len() ==> (#[trigger] rs[i]).symbol.len() <= u32::MAX,
    ensures
        decode_members(s, start, rs.len()) == (rs, Some(start + group_bytes(rs).len())),
    decreases rs.len(),
{
    if rs.len() > 0 {
        let init = rs.drop_last();
        let r = rs.last();
        let g = group_bytes(rs);
        let gi = group_bytes(init);
        let n = g.len() as int;
        let at = start + gi.len();
        assert(init.push(r) =~= rs);
        lemma_group_bytes_push(init, r);
        lemma_subrange_twice(s, start, n, 0, gi.len() as int);
        assert(g.subrange(0, gi.len() as int) =~= gi);
        lemma_decode_group(s, start, init);
        lemma_subrange_twice(s, start, n, gi.len() as int, n);
        assert(g.subrange(gi.len() as int, n) =~= record_bytes(r));
        lemma_record_round_trip(s, at, r);
    }
}

/// A batch is read back from its bytes, whatever its message header is and
/// whatever follows it: reading gives the records that were written and the
/// length of the batch.
pub proof fn lemma_batch_round_trip(
    header: MessageHeader,
    seq_no: u64,
    rs: Seq<Record>,
    rest: Seq<u8>,
)
    requires
        encodable(rs),
    ensures
        decode_batch(batch_bytes(header, seq_no, rs) + rest) == (
            rs,
            Some(batch_bytes(header, seq_no, rs).len() as int),
        ),
        batch_bytes(header, seq_no, rs).len() == PREAMBLE_LEN + group_bytes(rs).len(),
{
    let count = rs.len() as u16;
    let p = preamble_bytes(header, seq_no, count);
    let g = group_bytes(rs);
    let s = batch_bytes(header, seq_no, rs) + rest;
    lemma_preamble_bytes(header, seq_no, count);
    lemma_bytes_len(count as int);
    assert(s.subrange(18, 20) =~= u16_bytes(count as int));
    lemma_u16_bytes_at(s, 18, count as int);
    assert(s.subrange(20, 20 + g.len() as int) =~= g);
    lemma_decode_group(s, 20, rs);
}

/// The message header, the sequence number and the group header of a batch
/// are read back from its bytes, whatever the header is and whatever
/// follows the preamble.
#[verifier::rlimit(40)]
pub proof fn lemma_preamble_round_trip(
    header: MessageHeader,
    seq_no: u64,
    count: u16,
    rest: Seq<u8>,
)
    ensures
        ({
            let s = preamble_bytes(header, seq_no, count) + rest;
            &&& MessageHeader::decode(s, 0) == header
            &&& MultiMessageFields::decode(s, 8) == (MultiMessageFields { sequence_number: seq_no })
            &&& GroupSizeEncoding::decode(s, 16) == (GroupSizeEncoding {
                block_length: 35,
                num_in_group: count,
            })
        }),
{
    reveal(preamble_bytes);
    reveal(MessageHeader::bytes);
    reveal(MultiMessageFields::bytes);
    reveal(GroupSizeEncoding::bytes);
    let p = preamble_bytes(header, seq_no, count);
    let s = p + rest;
    lemma_bytes_len(header.block_length as int);
    lemma_bytes_len(header.template_id as int);
    lemma_bytes_len(header.schema_id as int);
    lemma_bytes_len(header.version as int);
    lemma_bytes_len(seq_no as int);
    lemma_bytes_len(35);
    lemma_bytes_len(count as int);
    assert(s.subrange(0, 2) =~= u16_bytes(header.block_length as int));
    assert(s.subrange(2, 4) =~= u16_bytes(header.template_id as int));
    assert(s.subrange(4, 6) =~= u16_bytes(header.schema_id as int));
    assert(s.subrange(6, 8) =~= u16_bytes(header.version as int));
    assert(s.subrange(8, 16) =~= u64_bytes(seq_no as int));
    assert(s.subrange(16, 18) =~= u16_bytes(35));
    assert(s.subrange(18, 20) =~= u16_bytes(count as int));
    lemma_u16_bytes_at(s, 0, header.block_length as int);
    lemma_u16_bytes_at(s, 2, header.template_id as int);
    lemma_u16_bytes_at(s, 4, header.schema_id as int);
    lemma_u16_bytes_at(s, 6, header.version as int);
    lemma_u64_bytes_at(s, 8, seq_no as int);
    lemma_u16_bytes_at(s, 16, 35);
    lemma_u16_bytes_at(s, 18, count as int);
}

/// What a payload's forwarded messages give when they are written as a batch
/// and the batch is read back and folded into the totals is what they give
/// when they are folded in directly; and reading takes exactly the bytes of
/// the batch, whatever follows them in the buffer.
pub proof fn lemma_payload_round_trip(
    msgs: Seq<IexMessage>,
    header: MessageHeader,
    seq_no: u64,
    rest: Seq<u8>,
    totals: Map<Seq<u8>, crate::summary::Totals>,
)
    requires
        relevant(msgs).len() <= u16::MAX,
    ensures
        ({
            let wire = batch_bytes(header, seq_no, relevant(msgs));
            let (rs, end) = decode_batch(wire + rest);
            &&& fold(totals, rs) == fold(totals, relevant(msgs))
            &&& end == Some(wire.len() as int)
        }),
{
    lemma_relevant_symbols(msgs);
    lemma_batch_round_trip(header, seq_no, relevant(msgs), rest);
}

} // verus!
