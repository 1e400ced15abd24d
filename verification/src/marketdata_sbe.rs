//! The fixed-layout codec: records of fixed size laid over a byte buffer,
//! each followed by one length-prefixed run of symbol text.
//!
//! A batch on the wire is, in this order and without padding:
//!
//! | bytes | field |
//! |-------|-------|
//! | 8     | message header: block length, template id, schema id, version (`u16` each) |
//! | 8     | the fixed fields: the sequence number (`u64`) |
//! | 4     | the group header: block length of a member, number of members (`u16` each) |
//! | 39+n  | each member: 35 bytes of fixed fields, a `u32` length `n`, `n` bytes of symbol |
//!
//! All integers are little-endian. Encoding and decoding walk through these
//! parts as a chain of session types: each step consumes the session and
//! hands back the one for the part that follows, so that no part can be
//! skipped, repeated or taken out of order.
use vstd::prelude::*;
use crate::wire::{
    i64_bytes, i64_le, i64_to_bytes, lemma_bytes_len, lemma_i64_bytes_at, lemma_overwrite_concat,
    lemma_subrange_twice, lemma_u32_bytes_at, lemma_u64_bytes_at, overwrite, read_i64_le, read_u16_le, read_u32_le,
    read_u64_le, read_u8, u16_bytes, u16_le, u16_to_bytes, u32_bytes, u32_le, u32_to_bytes,
    u64_bytes, u64_le, u64_to_bytes,
};

verus! {

/// Errors that may occur during the course of encoding or decoding.
#[derive(Debug, Clone, Copy, PartialEq, Eq, Structural)]
pub enum CodecErr {
    /// Too few bytes in the byte-slice to read or write the data structure
    /// relevant to the current state of the codec.
    NotEnoughBytes,
    /// Groups and vardata are constrained by the numeric type chosen to
    /// represent their length.
    SliceIsLongerThanAllowedBySchema,
}

pub type CodecResult<T> = Result<T, CodecErr>;

/// Convenience Either enum: of two session types the one that goes on, or
/// the one that ends.
#[derive(Copy, Clone, PartialEq, Eq, PartialOrd, Ord, Hash, Debug)]
pub enum Either<L, R> {
    Left(L),
    Right(R),
}

/// The side of the book that a quote belongs to.
#[derive(Clone, Copy, Debug, PartialEq, Eq, Structural, Hash)]
pub enum Side {
    Buy,
    Sell,
    NullVal,
}

impl Side {
    /// The byte that stands for this side.
    pub open spec fn wire(self) -> u8 {
        match self {
            Side::Buy => 0,
            Side::Sell => 1,
            Side::NullVal => 255,
        }
    }

    /// The side that a byte stands for; a byte that names none is the null
    /// value.
    pub open spec fn of_wire(b: u8) -> Side {
        if b == 0 {
            Side::Buy
        } else if b == 1 {
            Side::Sell
        } else {
            Side::NullVal
        }
    }

    pub fn to_u8(self) -> (b: u8)
        ensures
            b == self.wire(),
    {
        match self {
            Side::Buy => 0,
            Side::Sell => 1,
            Side::NullVal => 255,
        }
    }

    pub fn from_u8(b: u8) -> (side: Side)
        ensures
            side == Side::of_wire(b),
    {
        if b == 0 {
            Side::Buy
        } else if b == 1 {
            Side::Sell
        } else {
            Side::NullVal
        }
    }
}

impl Default for Side {
    fn default() -> (side: Side)
        ensures
            side == Side::NullVal,
    {
        Side::NullVal
    }
}

/// What a group member carries.
#[derive(Clone, Copy, Debug, PartialEq, Eq, Structural, Hash)]
pub enum MsgType {
    Trade,
    Quote,
    NullVal,
}

impl MsgType {
    /// The byte that stands for this type.
    pub open spec fn wire(self) -> u8 {
        match self {
            MsgType::Trade => 0,
            MsgType::Quote => 1,
            MsgType::NullVal => 255,
        }
    }

    /// The type that a byte stands for; a byte that names none is the null
    /// value.
    pub open spec fn of_wire(b: u8) -> MsgType {
        if b == 0 {
            MsgType::Trade
        } else if b == 1 {
            MsgType::Quote
        } else {
            MsgType::NullVal
        }
    }

    pub fn to_u8(self) -> (b: u8)
        ensures
            b == self.wire(),
    {
        match self {
            MsgType::Trade => 0,
            MsgType::Quote => 1,
            MsgType::NullVal => 255,
        }
    }

    pub fn from_u8(b: u8) -> (msg_type: MsgType)
        ensures
            msg_type == MsgType::of_wire(b),
    {
        if b == 0 {
            MsgType::Trade
        } else if b == 1 {
            MsgType::Quote
        } else {
            MsgType::NullVal
        }
    }
}

impl Default for MsgType {
    fn default() -> (msg_type: MsgType)
        ensures
            msg_type == MsgType::NullVal,
    {
        MsgType::NullVal
    }
}

/// Quote
#[derive(Clone, Copy, Debug, PartialEq, Eq, Structural)]
pub struct Quote {
    pub price: u64,
    pub size: u32,
    pub flags: u8,
    pub side: Side,
}

impl Default for Quote {
    fn default() -> (q: Quote)
        ensures
            q == (Quote { price: 0, size: 0, flags: 0, side: Side::NullVal }),
    {
        Quote { price: 0, size: 0, flags: 0, side: Side::NullVal }
    }
}

/// Trade
#[derive(Clone, Copy, Debug, PartialEq, Eq, Structural)]
pub struct Trade {
    pub price: u64,
    pub size: u32,
}

impl Default for Trade {
    fn default() -> (t: Trade)
        ensures
            t == (Trade { price: 0, size: 0 }),
    {
        Trade { price: 0, size: 0 }
    }
}

/// MessageHeader
#[derive(Clone, Copy, Debug, PartialEq, Eq, Structural)]
pub struct MessageHeader {
    pub block_length: u16,
    pub template_id: u16,
    pub schema_id: u16,
    pub version: u16,
}

impl MessageHeader {
    /// The eight bytes of the header.
    #[verifier::opaque]
    pub open spec fn bytes(self) -> Seq<u8> {
        u16_bytes(self.block_length as int) + u16_bytes(self.template_id as int) + u16_bytes(
            self.schema_id as int,
        ) + u16_bytes(self.version as int)
    }

    /// A header takes eight bytes.
    pub proof fn lemma_bytes_len(self)
        ensures
            self.bytes().len() == 8,
    {
        reveal(MessageHeader::bytes);
        lemma_bytes_len(self.block_length as int);
        lemma_bytes_len(self.template_id as int);
        lemma_bytes_len(self.schema_id as int);
        lemma_bytes_len(self.version as int);
    }

    /// The header that the eight bytes at `at` hold.
    pub open spec fn decode(s: Seq<u8>, at: int) -> MessageHeader {
        MessageHeader {
            block_length: u16_le(s, at) as u16,
            template_id: u16_le(s, at + 2) as u16,
            schema_id: u16_le(s, at + 4) as u16,
            version: u16_le(s, at + 6) as u16,
        }
    }
}

impl Default for MessageHeader {
    fn default() -> (h: MessageHeader)
        ensures
            h == (MessageHeader { block_length: 0, template_id: 0, schema_id: 0, version: 0 }),
    {
        MessageHeader { block_length: 0, template_id: 0, schema_id: 0, version: 0 }
    }
}

/// GroupSizeEncoding
#[derive(Clone, Copy, Debug, PartialEq, Eq, Structural)]
pub struct GroupSizeEncoding {
    pub block_length: u16,
    pub num_in_group: u16,
}

impl GroupSizeEncoding {
    /// The four bytes of the group header.
    #[verifier::opaque]
    pub open spec fn bytes(self) -> Seq<u8> {
        u16_bytes(self.block_length as int) + u16_bytes(self.num_in_group as int)
    }

    /// A group header takes four bytes.
    pub proof fn lemma_bytes_len(self)
        ensures
            self.bytes().len() == 4,
    {
        reveal(GroupSizeEncoding::bytes);
        lemma_bytes_len(self.block_length as int);
        lemma_bytes_len(self.num_in_group as int);
    }

    /// The group header that the four bytes at `at` hold.
    pub open spec fn decode(s: Seq<u8>, at: int) -> GroupSizeEncoding {
        GroupSizeEncoding {
            block_length: u16_le(s, at) as u16,
            num_in_group: u16_le(s, at + 2) as u16,
        }
    }
}

impl Default for GroupSizeEncoding {
    fn default() -> (g: GroupSizeEncoding)
        ensures
            g == (GroupSizeEncoding { block_length: 0, num_in_group: 0 }),
    {
        GroupSizeEncoding { block_length: 0, num_in_group: 0 }
    }
}

/// VarAsciiEncoding
#[derive(Clone, Copy, Debug, PartialEq, Eq, Structural)]
pub struct VarAsciiEncoding {
    pub length: u32,
    pub var_data: u8,
}

impl Default for VarAsciiEncoding {
    fn default() -> (v: VarAsciiEncoding)
        ensures
            v == (VarAsciiEncoding { length: 0, var_data: 0 }),
    {
        VarAsciiEncoding { length: 0, var_data: 0 }
    }
}

/// MultiMessage Fixed-size Fields (8 bytes)
#[derive(Clone, Copy, Debug, PartialEq, Eq, Structural)]
pub struct MultiMessageFields {
    pub sequence_number: u64,
}

impl MultiMessageFields {
    /// The eight bytes of the fixed fields.
    #[verifier::opaque]
    pub open spec fn bytes(self) -> Seq<u8> {
        u64_bytes(self.sequence_number as int)
    }

    /// The fixed fields take eight bytes.
    pub proof fn lemma_bytes_len(self)
        ensures
            self.bytes().len() == 8,
    {
        reveal(MultiMessageFields::bytes);
        lemma_bytes_len(self.sequence_number as int);
    }

    /// The fixed fields that the eight bytes at `at` hold.
    pub open spec fn decode(s: Seq<u8>, at: int) -> MultiMessageFields {
        MultiMessageFields { sequence_number: u64_le(s, at) as u64 }
    }
}

impl Default for MultiMessageFields {
    fn default() -> (f: MultiMessageFields)
        ensures
            f == (MultiMessageFields { sequence_number: 0 }),
    {
        MultiMessageFields { sequence_number: 0 }
    }
}

/// MultiMessage specific Message Header
#[derive(Clone, Copy, Debug, PartialEq, Eq, Structural)]
pub struct MultiMessageMessageHeader {
    pub message_header: MessageHeader,
}

impl MultiMessageMessageHeader {
    pub const BLOCK_LENGTH: u16 = 8;

    pub const TEMPLATE_ID: u16 = 1;

    pub const SCHEMA_ID: u16 = 1;

    pub const VERSION: u16 = 0;

    /// The header that every batch starts with.
    pub open spec fn standard() -> MultiMessageMessageHeader {
        MultiMessageMessageHeader {
            message_header: MessageHeader {
                block_length: 8,
                template_id: 1,
                schema_id: 1,
                version: 0,
            },
        }
    }
}

impl Default for MultiMessageMessageHeader {
    fn default() -> (h: MultiMessageMessageHeader)
        ensures
            h == MultiMessageMessageHeader::standard(),
    {
        MultiMessageMessageHeader {
            message_header: MessageHeader {
                block_length: 8u16,
                template_id: 1u16,
                schema_id: 1u16,
                version: 0u16,
            },
        }
    }
}

/// Group fixed-field member representations
#[derive(Clone, Copy, Debug, PartialEq, Eq, Structural)]
pub struct MultiMessageMessagesMember {
    pub timestamp: i64,
    pub msg_type: MsgType,
    pub trade: Trade,
    pub quote: Quote,
}

/// The bytes of a member's fixed fields.
pub const MEMBER_LEN: usize = 35;

impl MultiMessageMessagesMember {
    /// The 35 bytes of the member's fixed fields.
    #[verifier::opaque]
    pub open spec fn bytes(self) -> Seq<u8> {
        i64_bytes(self.timestamp as int) + seq![self.msg_type.wire()] + u64_bytes(
            self.trade.price as int,
        ) + u32_bytes(self.trade.size as int) + u64_bytes(self.quote.price as int) + u32_bytes(
            self.quote.size as int,
        ) + seq![self.quote.flags, self.quote.side.wire()]
    }

    /// A member's fixed fields take 35 bytes.
    pub proof fn lemma_bytes_len(self)
        ensures
            self.bytes().len() == 35,
    {
        reveal(MultiMessageMessagesMember::bytes);
        lemma_bytes_len(self.timestamp as int);
        lemma_bytes_len(self.trade.price as int);
        lemma_bytes_len(self.trade.size as int);
        lemma_bytes_len(self.quote.price as int);
        lemma_bytes_len(self.quote.size as int);
    }

    /// A member is read back from its bytes, wherever they lie.
    #[verifier::rlimit(40)]
    pub proof fn lemma_decode_bytes(self, s: Seq<u8>, at: int)
        requires
            0 <= at,
            at + 35 <= s.len(),
            s.subrange(at, at + 35) == self.bytes(),
        ensures
            MultiMessageMessagesMember::decode(s, at) == self,
    {
        reveal(MultiMessageMessagesMember::bytes);
        let b = self.bytes();
        lemma_bytes_len(self.timestamp as int);
        lemma_bytes_len(self.trade.price as int);
        lemma_bytes_len(self.trade.size as int);
        lemma_bytes_len(self.quote.price as int);
        lemma_bytes_len(self.quote.size as int);
        assert(b.subrange(0, 8) =~= i64_bytes(self.timestamp as int));
        assert(b.subrange(9, 17) =~= u64_bytes(self.trade.price as int));
        assert(b.subrange(17, 21) =~= u32_bytes(self.trade.size as int));
        assert(b.subrange(21, 29) =~= u64_bytes(self.quote.price as int));
        assert(b.subrange(29, 33) =~= u32_bytes(self.quote.size as int));
        assert(b[8] == self.msg_type.wire());
        assert(b[33] == self.quote.flags);
        assert(b[34] == self.quote.side.wire());
        lemma_subrange_twice(s, at, 35, 0, 8);
        lemma_subrange_twice(s, at, 35, 9, 17);
        lemma_subrange_twice(s, at, 35, 17, 21);
        lemma_subrange_twice(s, at, 35, 21, 29);
        lemma_subrange_twice(s, at, 35, 29, 33);
        lemma_i64_bytes_at(s, at, self.timestamp as int);
        lemma_u64_bytes_at(s, at + 9, self.trade.price as int);
        lemma_u32_bytes_at(s, at + 17, self.trade.size as int);
        lemma_u64_bytes_at(s, at + 21, self.quote.price as int);
        lemma_u32_bytes_at(s, at + 29, self.quote.size as int);
        assert(s.subrange(at, at + 35)[8] == s[at + 8]);
        assert(s.subrange(at, at + 35)[33] == s[at + 33]);
        assert(s.subrange(at, at + 35)[34] == s[at + 34]);
    }

    /// The member that the 35 bytes at `at` hold.
    pub open spec fn decode(s: Seq<u8>, at: int) -> MultiMessageMessagesMember {
        MultiMessageMessagesMember {
            timestamp: i64_le(s, at) as i64,
            msg_type: MsgType::of_wire(s[at + 8]),
            trade: Trade { price: u64_le(s, at + 9) as u64, size: u32_le(s, at + 17) as u32 },
            quote: Quote {
                price: u64_le(s, at + 21) as u64,
                size: u32_le(s, at + 29) as u32,
                flags: s[at + 33],
                side: Side::of_wire(s[at + 34]),
            },
        }
    }
}

impl Default for MultiMessageMessagesMember {
    fn default() -> (m: MultiMessageMessagesMember)
        ensures
            m == (MultiMessageMessagesMember {
                timestamp: 0,
                msg_type: MsgType::NullVal,
                trade: Trade { price: 0, size: 0 },
                quote: Quote { price: 0, size: 0, flags: 0, side: Side::NullVal },
            }),
    {
        MultiMessageMessagesMember {
            timestamp: 0,
            msg_type: MsgType::NullVal,
            trade: Trade { price: 0, size: 0 },
            quote: Quote { price: 0, size: 0, flags: 0, side: Side::NullVal },
        }
    }
}

/// Scratch Decoder Data Wrapper - codec internal use only
#[derive(Debug)]
pub struct ScratchDecoderData<'d> {
    pub data: &'d [u8],
    pub pos: usize,
}

impl<'d> ScratchDecoderData<'d> {
    /// Whether `n` more bytes lie behind the cursor.
    pub open spec fn has(&self, n: int) -> bool {
        self.pos + n <= self.data.len()
    }

    /// This cursor moved on by `n` bytes over the same data.
    pub open spec fn advanced(&self, n: int) -> ScratchDecoderData<'d> {
        ScratchDecoderData { data: self.data, pos: (self.pos + n) as usize }
    }

    fn room(&self, num_bytes: usize) -> (ok: bool)
        ensures
            ok == self.has(num_bytes as int),
            ok ==> self.pos + num_bytes <= usize::MAX,
    {
        self.pos <= self.data.len() && num_bytes <= self.data.len() - self.pos
    }

    /// Advances the `pos` index by a set number of bytes.
    pub fn skip_bytes(self, num_bytes: usize) -> (r: CodecResult<ScratchDecoderData<'d>>)
        ensures
            match r {
                Ok(next) => self.has(num_bytes as int) && next == self.advanced(num_bytes as int),
                Err(e) => !self.has(num_bytes as int) && e == CodecErr::NotEnoughBytes,
            },
    {
        if self.room(num_bytes) {
            Ok(ScratchDecoderData { data: self.data, pos: self.pos + num_bytes })
        } else {
            Err(CodecErr::NotEnoughBytes)
        }
    }

    /// Borrows `count` bytes of the data buffer and advances the `pos` index
    /// behind them.
    fn read_slice(self, count: usize) -> (r: CodecResult<(&'d [u8], ScratchDecoderData<'d>)>)
        ensures
            match r {
                Ok((bytes, next)) => {
                    &&& self.has(count as int)
                    &&& bytes@ == self.data@.subrange(self.pos as int, self.pos + count)
                    &&& next == self.advanced(count as int)
                },
                Err(e) => !self.has(count as int) && e == CodecErr::NotEnoughBytes,
            },
    {
        if self.room(count) {
            let end: usize = self.pos + count;
            let bytes = vstd::slice::slice_subrange(self.data, self.pos, end);
            Ok((bytes, ScratchDecoderData { data: self.data, pos: end }))
        } else {
            Err(CodecErr::NotEnoughBytes)
        }
    }

    /// Decodes a message header at the cursor and advances behind it.
    fn read_message_header(self) -> (r: CodecResult<(MessageHeader, ScratchDecoderData<'d>)>)
        ensures
            match r {
                Ok((v, next)) => {
                    &&& self.has(8)
                    &&& v == MessageHeader::decode(self.data@, self.pos as int)
                    &&& next == self.advanced(8)
                },
                Err(e) => !self.has(8) && e == CodecErr::NotEnoughBytes,
            },
    {
        if self.room(8) {
            let at: usize = self.pos;
            let v = MessageHeader {
                block_length: read_u16_le(self.data, at),
                template_id: read_u16_le(self.data, at + 2),
                schema_id: read_u16_le(self.data, at + 4),
                version: read_u16_le(self.data, at + 6),
            };
            Ok((v, ScratchDecoderData { data: self.data, pos: at + 8 }))
        } else {
            Err(CodecErr::NotEnoughBytes)
        }
    }

    /// Decodes the fixed fields at the cursor and advances behind them.
    fn read_fields(self) -> (r: CodecResult<(MultiMessageFields, ScratchDecoderData<'d>)>)
        ensures
            match r {
                Ok((v, next)) => {
                    &&& self.has(8)
                    &&& v == MultiMessageFields::decode(self.data@, self.pos as int)
                    &&& next == self.advanced(8)
                },
                Err(e) => !self.has(8) && e == CodecErr::NotEnoughBytes,
            },
    {
        if self.room(8) {
            let at: usize = self.pos;
            let v = MultiMessageFields { sequence_number: read_u64_le(self.data, at) };
            Ok((v, ScratchDecoderData { data: self.data, pos: at + 8 }))
        } else {
            Err(CodecErr::NotEnoughBytes)
        }
    }

    /// Decodes a group header at the cursor and advances behind it.
    fn read_group_size(self) -> (r: CodecResult<(GroupSizeEncoding, ScratchDecoderData<'d>)>)
        ensures
            match r {
                Ok((v, next)) => {
                    &&& self.has(4)
                    &&& v == GroupSizeEncoding::decode(self.data@, self.pos as int)
                    &&& next == self.advanced(4)
                },
                Err(e) => !self.has(4) && e == CodecErr::NotEnoughBytes,
            },
    {
        if self.room(4) {
            let at: usize = self.pos;
            let v = GroupSizeEncoding {
                block_length: read_u16_le(self.data, at),
                num_in_group: read_u16_le(self.data, at + 2),
            };
            Ok((v, ScratchDecoderData { data: self.data, pos: at + 4 }))
        } else {
            Err(CodecErr::NotEnoughBytes)
        }
    }

    /// Decodes a member's fixed fields at the cursor and advances behind
    /// them.
    fn read_member(self) -> (r: CodecResult<
        (MultiMessageMessagesMember, ScratchDecoderData<'d>),
    >)
        ensures
            match r {
                Ok((v, next)) => {
                    &&& self.has(35)
                    &&& v == MultiMessageMessagesMember::decode(self.data@, self.pos as int)
                    &&& next == self.advanced(35)
                },
                Err(e) => !self.has(35) && e == CodecErr::NotEnoughBytes,
            },
    {
        if self.room(MEMBER_LEN) {
            let at: usize = self.pos;
            let v = MultiMessageMessagesMember {
                timestamp: read_i64_le(self.data, at),
                msg_type: MsgType::from_u8(read_u8(self.data, at + 8)),
                trade: Trade {
                    price: read_u64_le(self.data, at + 9),
                    size: read_u32_le(self.data, at + 17),
                },
                quote: Quote {
                    price: read_u64_le(self.data, at + 21),
                    size: read_u32_le(self.data, at + 29),
                    flags: read_u8(self.data, at + 33),
                    side: Side::from_u8(read_u8(self.data, at + 34)),
                },
            };
            Ok((v, ScratchDecoderData { data: self.data, pos: at + MEMBER_LEN }))
        } else {
            Err(CodecErr::NotEnoughBytes)
        }
    }

    /// Decodes a `u32` at the cursor and advances behind it.
    fn read_u32(self) -> (r: CodecResult<(u32, ScratchDecoderData<'d>)>)
        ensures
            match r {
                Ok((v, next)) => {
                    &&& self.has(4)
                    &&& v == u32_le(self.data@, self.pos as int)
                    &&& next == self.advanced(4)
                },
                Err(e) => !self.has(4) && e == CodecErr::NotEnoughBytes,
            },
    {
        if self.room(4) {
            let at: usize = self.pos;
            let v: u32 = read_u32_le(self.data, at);
            Ok((v, ScratchDecoderData { data: self.data, pos: at + 4 }))
        } else {
            Err(CodecErr::NotEnoughBytes)
        }
    }
}

/// MessageHeader Decoder entry point
pub fn start_decoding_message_header<'d>(data: &'d [u8]) -> (r: CodecResult<
    (MessageHeader, ScratchDecoderData<'d>),
>)
    ensures
        match r {
            Ok((v, scratch)) => {
                &&& data@.len() >= 8
                &&& v == MessageHeader::decode(data@, 0)
                &&& scratch.data@ == data@
                &&& scratch.pos == 8
            },
            Err(e) => data@.len() < 8 && e == CodecErr::NotEnoughBytes,
        },
{
    let scratch = ScratchDecoderData { data: data, pos: 0 };
    scratch.read_message_header()
}

/// MultiMessageDecoderDone
pub struct MultiMessageDecoderDone<'d> {
    pub scratch: ScratchDecoderData<'d>,
}

impl<'d> MultiMessageDecoderDone<'d> {
    /// Returns the number of bytes decoded
    pub fn unwrap(self) -> (n: usize)
        ensures
            n == self.scratch.pos,
    {
        self.scratch.pos
    }

    pub fn wrap(scratch: ScratchDecoderData<'d>) -> (done: MultiMessageDecoderDone<'d>)
        ensures
            done.scratch == scratch,
    {
        MultiMessageDecoderDone { scratch: scratch }
    }
}

/// symbol variable-length data
pub struct MultiMessageMessagesSymbolDecoder<'d> {
    pub parent: MultiMessageMessagesMemberDecoder<'d>,
}

/// MultiMessageMessages Decoder for fields and header
pub struct MultiMessageMessagesMemberDecoder<'d> {
    pub scratch: ScratchDecoderData<'d>,
    pub max_index: u16,
    pub index: u16,
}

/// The session that follows a member: the decoder of the next member while
/// members are left, the finished session after the last.
pub open spec fn after_member_spec<'d>(d: MultiMessageMessagesMemberDecoder<'d>) -> Either<
    MultiMessageMessagesMemberDecoder<'d>,
    MultiMessageDecoderDone<'d>,
> {
    if d.index <= d.max_index {
        Either::Left(d)
    } else {
        Either::Right(MultiMessageDecoderDone { scratch: d.scratch })
    }
}

impl<'d> MultiMessageMessagesSymbolDecoder<'d> {
    fn wrap(parent: MultiMessageMessagesMemberDecoder<'d>) -> (dec: Self)
        ensures
            dec.parent == parent,
    {
        MultiMessageMessagesSymbolDecoder { parent: parent }
    }

    /// Whether the symbol at the cursor is whole: its length prefix and as
    /// many bytes as the prefix declares.
    pub open spec fn whole(&self) -> bool {
        let s = self.parent.scratch;
        s.has(4) && s.has(4 + u32_le(s.data@, s.pos as int))
    }

    /// The bytes of the symbol at the cursor.
    pub open spec fn text(&self) -> Seq<u8> {
        let s = self.parent.scratch;
        s.data@.subrange(s.pos + 4, s.pos + 4 + u32_le(s.data@, s.pos as int))
    }

    /// Reads the length-prefixed symbol of the member just read.
    pub fn symbol(self) -> (r: CodecResult<
        (
            &'d [u8],
            Either<MultiMessageMessagesMemberDecoder<'d>, MultiMessageDecoderDone<'d>>,
        ),
    >)
        ensures
            match r {
                Ok((sym, next)) => {
                    &&& self.whole()
                    &&& sym@ == self.text()
                    &&& next == after_member_spec(
                        MultiMessageMessagesMemberDecoder {
                            scratch: self.parent.scratch.advanced(4 + sym@.len() as int),
                            max_index: self.parent.max_index,
                            index: self.parent.index,
                        },
                    )
                },
                Err(e) => !self.whole() && e == CodecErr::NotEnoughBytes,
            },
    {
        let (count, scratch) = self.parent.scratch.read_u32()?;
        let (sym, scratch) = scratch.read_slice(count as usize)?;
        let parent = MultiMessageMessagesMemberDecoder {
            scratch: scratch,
            max_index: self.parent.max_index,
            index: self.parent.index,
        };
        Ok((sym, parent.after_member()))
    }
}

impl<'d> MultiMessageMessagesMemberDecoder<'d> {
    /// A member is left to read, and the members fit the group header's
    /// 16-bit count.
    pub open spec fn wf(&self) -> bool {
        self.index <= self.max_index < u16::MAX
    }

    fn new(scratch: ScratchDecoderData<'d>, count: u16) -> (dec: Self)
        requires
            count > 0,
        ensures
            dec == (MultiMessageMessagesMemberDecoder {
                scratch: scratch,
                max_index: (count - 1) as u16,
                index: 0,
            }),
    {
        MultiMessageMessagesMemberDecoder { scratch: scratch, max_index: count - 1, index: 0 }
    }

    /// Reads the fixed fields of the next member.
    pub fn next_messages_member(self) -> (r: CodecResult<
        (MultiMessageMessagesMember, MultiMessageMessagesSymbolDecoder<'d>),
    >)
        requires
            self.wf(),
        ensures
            match r {
                Ok((v, next)) => {
                    &&& self.scratch.has(35)
                    &&& v == MultiMessageMessagesMember::decode(
                        self.scratch.data@,
                        self.scratch.pos as int,
                    )
                    &&& next.parent == (MultiMessageMessagesMemberDecoder {
                        scratch: self.scratch.advanced(35),
                        max_index: self.max_index,
                        index: (self.index + 1) as u16,
                    })
                },
                Err(e) => !self.scratch.has(35) && e == CodecErr::NotEnoughBytes,
            },
    {
        let (v, scratch) = self.scratch.read_member()?;
        let next = MultiMessageMessagesMemberDecoder {
            scratch: scratch,
            max_index: self.max_index,
            index: self.index + 1,
        };
        Ok((v, MultiMessageMessagesSymbolDecoder::wrap(next)))
    }

    fn after_member(self) -> (next: Either<
        MultiMessageMessagesMemberDecoder<'d>,
        MultiMessageDecoderDone<'d>,
    >)
        ensures
            next == after_member_spec(self),
    {
        if self.index <= self.max_index {
            Either::Left(self)
        } else {
            Either::Right(MultiMessageDecoderDone::wrap(self.scratch))
        }
    }
}

pub struct MultiMessageMessagesHeaderDecoder<'d> {
    pub scratch: ScratchDecoderData<'d>,
}

impl<'d> MultiMessageMessagesHeaderDecoder<'d> {
    fn wrap(scratch: ScratchDecoderData<'d>) -> (dec: Self)
        ensures
            dec.scratch == scratch,
    {
        MultiMessageMessagesHeaderDecoder { scratch: scratch }
    }

    /// Reads the group header: the decoder of the first member where the
    /// group has members, the finished session where it has none.
    pub fn messages_individually(self) -> (r: CodecResult<
        Either<MultiMessageMessagesMemberDecoder<'d>, MultiMessageDecoderDone<'d>>,
    >)
        ensures
            match r {
                Ok(next) => {
                    let dim = GroupSizeEncoding::decode(
                        self.scratch.data@,
                        self.scratch.pos as int,
                    );
                    &&& self.scratch.has(4)
                    &&& next == if dim.num_in_group > 0 {
                        Either::<
                            MultiMessageMessagesMemberDecoder<'d>,
                            MultiMessageDecoderDone<'d>,
                        >::Left(
                            MultiMessageMessagesMemberDecoder {
                                scratch: self.scratch.advanced(4),
                                max_index: (dim.num_in_group - 1) as u16,
                                index: 0,
                            },
                        )
                    } else {
                        Either::<
                            MultiMessageMessagesMemberDecoder<'d>,
                            MultiMessageDecoderDone<'d>,
                        >::Right(MultiMessageDecoderDone { scratch: self.scratch.advanced(4) })
                    }
                },
                Err(e) => !self.scratch.has(4) && e == CodecErr::NotEnoughBytes,
            },
    {
        let (dim, scratch) = self.scratch.read_group_size()?;
        if dim.num_in_group > 0 {
            Ok(Either::Left(MultiMessageMessagesMemberDecoder::new(scratch, dim.num_in_group)))
        } else {
            Ok(Either::Right(MultiMessageDecoderDone::wrap(scratch)))
        }
    }
}

/// MultiMessage Fixed fields Decoder
pub struct MultiMessageFieldsDecoder<'d> {
    pub scratch: ScratchDecoderData<'d>,
}

impl<'d> MultiMessageFieldsDecoder<'d> {
    pub fn wrap(scratch: ScratchDecoderData<'d>) -> (dec: MultiMessageFieldsDecoder<'d>)
        ensures
            dec.scratch == scratch,
    {
        MultiMessageFieldsDecoder { scratch: scratch }
    }

    /// Reads the fixed fields of the batch.
    pub fn multi_message_fields(self) -> (r: CodecResult<
        (MultiMessageFields, MultiMessageMessagesHeaderDecoder<'d>),
    >)
        ensures
            match r {
                Ok((v, next)) => {
                    &&& self.scratch.has(8)
                    &&& v == MultiMessageFields::decode(self.scratch.data@, self.scratch.pos as int)
                    &&& next.scratch == self.scratch.advanced(8)
                },
                Err(e) => !self.scratch.has(8) && e == CodecErr::NotEnoughBytes,
            },
    {
        let (v, scratch) = self.scratch.read_fields()?;
        Ok((v, MultiMessageMessagesHeaderDecoder::wrap(scratch)))
    }
}

/// MultiMessageMessageHeaderDecoder
pub struct MultiMessageMessageHeaderDecoder<'d> {
    pub scratch: ScratchDecoderData<'d>,
}

impl<'d> MultiMessageMessageHeaderDecoder<'d> {
    pub fn wrap(scratch: ScratchDecoderData<'d>) -> (dec: MultiMessageMessageHeaderDecoder<'d>)
        ensures
            dec.scratch == scratch,
    {
        MultiMessageMessageHeaderDecoder { scratch: scratch }
    }

    /// Reads the message header of the batch.
    pub fn header(self) -> (r: CodecResult<(MessageHeader, MultiMessageFieldsDecoder<'d>)>)
        ensures
            match r {
                Ok((v, next)) => {
                    &&& self.scratch.has(8)
                    &&& v == MessageHeader::decode(self.scratch.data@, self.scratch.pos as int)
                    &&& next.scratch == self.scratch.advanced(8)
                },
                Err(e) => !self.scratch.has(8) && e == CodecErr::NotEnoughBytes,
            },
    {
        let (v, scratch) = self.scratch.read_message_header()?;
        Ok((v, MultiMessageFieldsDecoder::wrap(scratch)))
    }
}

/// MultiMessage Decoder entry point
pub fn start_decoding_multi_message<'d>(data: &'d [u8]) -> (dec: MultiMessageMessageHeaderDecoder<
    'd,
>)
    ensures
        dec.scratch.data@ == data@,
        dec.scratch.pos == 0,
{
    MultiMessageMessageHeaderDecoder::wrap(ScratchDecoderData { data: data, pos: 0 })
}

/// The eight bytes of a message header.
fn header_to_bytes(t: &MessageHeader) -> (b: [u8; 8])
    ensures
        b@ == t.bytes(),
{
    let f0 = u16_to_bytes(t.block_length);
    let f1 = u16_to_bytes(t.template_id);
    let f2 = u16_to_bytes(t.schema_id);
    let f3 = u16_to_bytes(t.version);
    let b: [u8; 8] = [f0[0], f0[1], f1[0], f1[1], f2[0], f2[1], f3[0], f3[1]];
    reveal(MessageHeader::bytes);
    assert(b@ =~= t.bytes());
    b
}

/// The four bytes of a group header.
fn group_size_to_bytes(t: &GroupSizeEncoding) -> (b: [u8; 4])
    ensures
        b@ == t.bytes(),
{
    let f0 = u16_to_bytes(t.block_length);
    let f1 = u16_to_bytes(t.num_in_group);
    let b: [u8; 4] = [f0[0], f0[1], f1[0], f1[1]];
    reveal(GroupSizeEncoding::bytes);
    assert(b@ =~= t.bytes());
    b
}

/// The 35 bytes of a member's fixed fields.
fn member_to_bytes(t: &MultiMessageMessagesMember) -> (b: [u8; 35])
    ensures
        b@ == t.bytes(),
{
    let ts = i64_to_bytes(t.timestamp);
    let tp = u64_to_bytes(t.trade.price);
    let tz = u32_to_bytes(t.trade.size);
    let qp = u64_to_bytes(t.quote.price);
    let qz = u32_to_bytes(t.quote.size);
    let b: [u8; 35] = [
        ts[0],
        ts[1],
        ts[2],
        ts[3],
        ts[4],
        ts[5],
        ts[6],
        ts[7],
        t.msg_type.to_u8(),
        tp[0],
        tp[1],
        tp[2],
        tp[3],
        tp[4],
        tp[5],
        tp[6],
        tp[7],
        tz[0],
        tz[1],
        tz[2],
        tz[3],
        qp[0],
        qp[1],
        qp[2],
        qp[3],
        qp[4],
        qp[5],
        qp[6],
        qp[7],
        qz[0],
        qz[1],
        qz[2],
        qz[3],
        t.quote.flags,
        t.quote.side.to_u8(),
    ];
    reveal(MultiMessageMessagesMember::bytes);
    assert(b@ =~= t.bytes());
    b
}

/// Scratch Encoder Data Wrapper - codec internal use only
#[derive(Debug)]
pub struct ScratchEncoderData<'d> {
    pub data: &'d mut [u8],
    pub pos: usize,
}

impl<'d> ScratchEncoderData<'d> {
    /// The bytes of the buffer as they are now.
    pub open spec fn bytes(&self) -> Seq<u8> {
        self.data@
    }

    /// Whether `n` more bytes lie behind the cursor.
    pub open spec fn has(&self, n: int) -> bool {
        self.pos + n <= self.data@.len()
    }

    fn room(&self, num_bytes: usize) -> (ok: bool)
        ensures
            ok == self.has(num_bytes as int),
            ok ==> self.pos + num_bytes <= usize::MAX,
    {
        self.pos <= self.data.len() && num_bytes <= self.data.len() - self.pos
    }

    /// Copy the raw bytes of a slice's contents into the data buffer
    /// Does **not** encode the length of the slice explicitly into the buffer.
    /// Advances the `pos` index to after the newly-written slice bytes.
    fn write_slice_without_count(self, t: &[u8]) -> (r: CodecResult<ScratchEncoderData<'d>>)
        ensures
            match r {
                Ok(next) => {
                    &&& self.has(t@.len() as int)
                    &&& next.bytes() == overwrite(self.bytes(), self.pos as int, t@)
                    &&& next.pos == self.pos + t@.len()
                    &&& final(next.data)@ == final(self.data)@
                },
                Err(e) => {
                    &&& !self.has(t@.len() as int)
                    &&& e == CodecErr::NotEnoughBytes
                    &&& final(self.data)@ == self.bytes()
                },
            },
    {
        if !self.room(t.len()) {
            return Err(CodecErr::NotEnoughBytes);
        }
        let mut s = self;
        let start: usize = s.pos;
        let n: usize = t.len();
        let mut i: usize = 0;
        while i < n
            invariant
                i <= n,
                n == t@.len(),
                start == self.pos,
                start + n <= self.data@.len(),
                start + n <= usize::MAX,
                s.pos == start,
                s.data@ == overwrite(self.data@, start as int, t@.take(i as int)),
                final(s.data)@ == final(self.data)@,
            decreases n - i,
        {
            s.data[start + i] = t[i];
            i = i + 1;
            assert(s.data@ =~= overwrite(self.data@, start as int, t@.take(i as int)));
        }
        assert(t@.take(n as int) =~= t@);
        s.pos = start + n;
        Ok(s)
    }

    /// Copy the bytes of a value into the data buffer at a specific position
    /// Does **not** alter the `pos` index.
    fn write_at_position(self, position: usize, t: u16) -> (r: CodecResult<
        ScratchEncoderData<'d>,
    >)
        ensures
            match r {
                Ok(next) => {
                    &&& position + 2 <= self.bytes().len()
                    &&& next.bytes() == overwrite(self.bytes(), position as int, u16_bytes(t as int))
                    &&& next.pos == self.pos
                    &&& final(next.data)@ == final(self.data)@
                },
                Err(e) => {
                    &&& position + 2 > self.bytes().len()
                    &&& e == CodecErr::NotEnoughBytes
                    &&& final(self.data)@ == self.bytes()
                },
            },
    {
        if self.data.len() < 2 || position > self.data.len() - 2 {
            return Err(CodecErr::NotEnoughBytes);
        }
        let b = u16_to_bytes(t);
        let mut s = self;
        s.data[position] = b[0];
        s.data[position + 1] = b[1];
        assert(s.data@ =~= overwrite(self.data@, position as int, u16_bytes(t as int)));
        Ok(s)
    }

    /// Advances the `pos` index by a set number of bytes.
    pub fn skip_bytes(self, num_bytes: usize) -> (r: CodecResult<ScratchEncoderData<'d>>)
        ensures
            match r {
                Ok(next) => {
                    &&& self.has(num_bytes as int)
                    &&& next.bytes() == self.bytes()
                    &&& next.pos == self.pos + num_bytes
                    &&& final(next.data)@ == final(self.data)@
                },
                Err(e) => {
                    &&& !self.has(num_bytes as int)
                    &&& e == CodecErr::NotEnoughBytes
                    &&& final(self.data)@ == self.bytes()
                },
            },
    {
        if !self.room(num_bytes) {
            return Err(CodecErr::NotEnoughBytes);
        }
        let mut s = self;
        s.pos = s.pos + num_bytes;
        Ok(s)
    }
    /// Sets aside the eight bytes at the cursor for a message header and
    /// hands back the header that they hold as they are. The buffer is not
    /// changed.
    fn reserve_message_header(self) -> (r: CodecResult<(MessageHeader, ScratchEncoderData<'d>)>)
        ensures
            match r {
                Ok((v, next)) => {
                    &&& self.has(8)
                    &&& v == MessageHeader::decode(self.bytes(), self.pos as int)
                    &&& next.bytes() == self.bytes()
                    &&& next.pos == self.pos + 8
                    &&& final(next.data)@ == final(self.data)@
                },
                Err(e) => {
                    &&& !self.has(8)
                    &&& e == CodecErr::NotEnoughBytes
                    &&& final(self.data)@ == self.bytes()
                },
            },
    {
        if !self.room(8) {
            return Err(CodecErr::NotEnoughBytes);
        }
        let mut s = self;
        let at: usize = s.pos;
        let v = MessageHeader {
            block_length: read_u16_le(&*s.data, at),
            template_id: read_u16_le(&*s.data, at + 2),
            schema_id: read_u16_le(&*s.data, at + 4),
            version: read_u16_le(&*s.data, at + 6),
        };
        s.pos = at + 8;
        Ok((v, s))
    }

    /// Sets aside the eight bytes at the cursor for the fixed fields and
    /// hands back the fields that they hold as they are. The buffer is not
    /// changed.
    fn reserve_fields(self) -> (r: CodecResult<(MultiMessageFields, ScratchEncoderData<'d>)>)
        ensures
            match r {
                Ok((v, next)) => {
                    &&& self.has(8)
                    &&& v == MultiMessageFields::decode(self.bytes(), self.pos as int)
                    &&& next.bytes() == self.bytes()
                    &&& next.pos == self.pos + 8
                    &&& final(next.data)@ == final(self.data)@
                },
                Err(e) => {
                    &&& !self.has(8)
                    &&& e == CodecErr::NotEnoughBytes
                    &&& final(self.data)@ == self.bytes()
                },
            },
    {
        if !self.room(8) {
            return Err(CodecErr::NotEnoughBytes);
        }
        let mut s = self;
        let at: usize = s.pos;
        let v = MultiMessageFields { sequence_number: read_u64_le(&*s.data, at) };
        s.pos = at + 8;
        Ok((v, s))
    }
}

/// MultiMessageEncoderDone
pub struct MultiMessageEncoderDone<'d> {
    pub scratch: ScratchEncoderData<'d>,
}

impl<'d> MultiMessageEncoderDone<'d> {
    /// Returns the number of bytes encoded
    pub fn unwrap(self) -> (n: usize)
        ensures
            n == self.scratch.pos,
            final(self.scratch.data)@ == self.scratch.bytes(),
    {
        self.scratch.pos
    }

    pub fn wrap(scratch: ScratchEncoderData<'d>) -> (done: MultiMessageEncoderDone<'d>)
        ensures
            done.scratch == scratch,
    {
        MultiMessageEncoderDone { scratch: scratch }
    }
}

/// symbol variable-length data
pub struct MultiMessageMessagesSymbolEncoder<'d> {
    pub parent: MultiMessageMessagesMemberEncoder<'d>,
}

/// MultiMessageMessages Encoder for fields and header
pub struct MultiMessageMessagesMemberEncoder<'d> {
    pub scratch: ScratchEncoderData<'d>,
    pub count_write_pos: usize,
    pub count: u16,
}

/// The longest symbol that the 32-bit length prefix admits.
pub const MAX_SYMBOL_LEN: usize = 4294967294;

impl<'d> MultiMessageMessagesSymbolEncoder<'d> {
    fn wrap(parent: MultiMessageMessagesMemberEncoder<'d>) -> (enc: Self)
        ensures
            enc.parent == parent,
    {
        MultiMessageMessagesSymbolEncoder { parent: parent }
    }

    /// Writes the symbol of the member just written: its length as a `u32`,
    /// then its bytes. Nothing is written unless both fit.
    pub fn symbol(self, s: &[u8]) -> (r: CodecResult<MultiMessageMessagesMemberEncoder<'d>>)
        ensures
            match r {
                Ok(next) => {
                    &&& s@.len() <= MAX_SYMBOL_LEN
                    &&& self.parent.scratch.has(4 + s@.len() as int)
                    &&& next.scratch.bytes() == overwrite(
                        self.parent.scratch.bytes(),
                        self.parent.scratch.pos as int,
                        u32_bytes(s@.len() as int) + s@,
                    )
                    &&& next.scratch.pos == self.parent.scratch.pos + 4 + s@.len()
                    &&& next.count_write_pos == self.parent.count_write_pos
                    &&& next.count == self.parent.count
                    &&& final(next.scratch.data)@ == final(self.parent.scratch.data)@
                },
                Err(e) => {
                    &&& e == if s@.len() > MAX_SYMBOL_LEN {
                        CodecErr::SliceIsLongerThanAllowedBySchema
                    } else {
                        CodecErr::NotEnoughBytes
                    }
                    &&& s@.len() > MAX_SYMBOL_LEN || !self.parent.scratch.has(4 + s@.len() as int)
                    &&& final(self.parent.scratch.data)@ == self.parent.scratch.bytes()
                },
            },
    {
        let l: usize = s.len();
        if l > MAX_SYMBOL_LEN {
            return Err(CodecErr::SliceIsLongerThanAllowedBySchema);
        }
        let enc = self.parent;
        if !enc.scratch.room(4) || l > enc.scratch.data.len() - enc.scratch.pos - 4 {
            return Err(CodecErr::NotEnoughBytes);
        }
        let ghost before = enc.scratch.bytes();
        let ghost at = enc.scratch.pos as int;
        let prefix = u32_to_bytes(l as u32);
        let scratch = enc.scratch.write_slice_without_count(prefix.as_slice())?;
        let scratch = scratch.write_slice_without_count(s)?;
        proof {
            lemma_overwrite_concat(before, at, u32_bytes(l as int), s@);
        }
        Ok(
            MultiMessageMessagesMemberEncoder {
                scratch: scratch,
                count_write_pos: enc.count_write_pos,
                count: enc.count,
            },
        )
    }
}

impl<'d> MultiMessageMessagesMemberEncoder<'d> {
    fn new(scratch: ScratchEncoderData<'d>, count_write_pos: usize) -> (enc: Self)
        ensures
            enc.scratch == scratch,
            enc.count_write_pos == count_write_pos,
            enc.count == 0,
    {
        MultiMessageMessagesMemberEncoder {
            scratch: scratch,
            count_write_pos: count_write_pos,
            count: 0,
        }
    }

    /// Writes the fixed fields of one more member and counts it. Nothing is
    /// written unless the fields fit and the count stays within 16 bits.
    pub fn next_messages_member(self, fields: &MultiMessageMessagesMember) -> (r: CodecResult<
        MultiMessageMessagesSymbolEncoder<'d>,
    >)
        ensures
            match r {
                Ok(next) => {
                    &&& self.scratch.has(35)
                    &&& self.count < u16::MAX
                    &&& next.parent.scratch.bytes() == overwrite(
                        self.scratch.bytes(),
                        self.scratch.pos as int,
                        fields.bytes(),
                    )
                    &&& next.parent.scratch.pos == self.scratch.pos + 35
                    &&& next.parent.count_write_pos == self.count_write_pos
                    &&& next.parent.count == self.count + 1
                    &&& final(next.parent.scratch.data)@ == final(self.scratch.data)@
                },
                Err(e) => {
                    &&& e == if !self.scratch.has(35) {
                        CodecErr::NotEnoughBytes
                    } else {
                        CodecErr::SliceIsLongerThanAllowedBySchema
                    }
                    &&& !self.scratch.has(35) || self.count == u16::MAX
                    &&& final(self.scratch.data)@ == self.scratch.bytes()
                },
            },
    {
        if !self.scratch.room(MEMBER_LEN) {
            return Err(CodecErr::NotEnoughBytes);
        }
        if self.count == u16::MAX {
            return Err(CodecErr::SliceIsLongerThanAllowedBySchema);
        }
        let b = member_to_bytes(fields);
        let scratch = self.scratch.write_slice_without_count(b.as_slice())?;
        Ok(
            MultiMessageMessagesSymbolEncoder::wrap(
                MultiMessageMessagesMemberEncoder {
                    scratch: scratch,
                    count_write_pos: self.count_write_pos,
                    count: self.count + 1,
                },
            ),
        )
    }

    /// Ends the group: the number of members written so far is patched into
    /// the group header, at the place that was set aside for it.
    pub fn done_with_messages(self) -> (r: CodecResult<MultiMessageEncoderDone<'d>>)
        ensures
            match r {
                Ok(done) => {
                    &&& self.count_write_pos + 2 <= self.scratch.bytes().len()
                    &&& done.scratch.bytes() == overwrite(
                        self.scratch.bytes(),
                        self.count_write_pos as int,
                        u16_bytes(self.count as int),
                    )
                    &&& done.scratch.pos == self.scratch.pos
                    &&& final(done.scratch.data)@ == final(self.scratch.data)@
                },
                Err(e) => {
                    &&& self.count_write_pos + 2 > self.scratch.bytes().len()
                    &&& e == CodecErr::NotEnoughBytes
                    &&& final(self.scratch.data)@ == self.scratch.bytes()
                },
            },
    {
        let scratch = self.scratch.write_at_position(self.count_write_pos, self.count)?;
        Ok(MultiMessageEncoderDone::wrap(scratch))
    }
}

pub struct MultiMessageMessagesHeaderEncoder<'d> {
    pub scratch: ScratchEncoderData<'d>,
}

impl<'d> MultiMessageMessagesHeaderEncoder<'d> {
    fn wrap(scratch: ScratchEncoderData<'d>) -> (enc: Self)
        ensures
            enc.scratch == scratch,
    {
        MultiMessageMessagesHeaderEncoder { scratch: scratch }
    }

    /// Writes the group header with a count of zero and remembers where the
    /// count lies, so that the end of the group can patch it.
    pub fn messages_individually(self) -> (r: CodecResult<MultiMessageMessagesMemberEncoder<'d>>)
        ensures
            match r {
                Ok(next) => {
                    &&& self.scratch.has(4)
                    &&& next.scratch.bytes() == overwrite(
                        self.scratch.bytes(),
                        self.scratch.pos as int,
                        (GroupSizeEncoding { block_length: 35, num_in_group: 0 }).bytes(),
                    )
                    &&& next.scratch.pos == self.scratch.pos + 4
                    &&& next.count_write_pos == self.scratch.pos + 2
                    &&& next.count == 0
                    &&& final(next.scratch.data)@ == final(self.scratch.data)@
                },
                Err(e) => {
                    &&& !self.scratch.has(4)
                    &&& e == CodecErr::NotEnoughBytes
                    &&& final(self.scratch.data)@ == self.scratch.bytes()
                },
            },
    {
        if !self.scratch.room(4) {
            return Err(CodecErr::NotEnoughBytes);
        }
        let count_pos: usize = self.scratch.pos + 2;
        let b = group_size_to_bytes(&GroupSizeEncoding { block_length: 35, num_in_group: 0 });
        let scratch = self.scratch.write_slice_without_count(b.as_slice())?;
        Ok(MultiMessageMessagesMemberEncoder::new(scratch, count_pos))
    }
}

/// MultiMessage Fixed fields Encoder
pub struct MultiMessageFieldsEncoder<'d> {
    pub scratch: ScratchEncoderData<'d>,
}

impl<'d> MultiMessageFieldsEncoder<'d> {
    pub fn wrap(scratch: ScratchEncoderData<'d>) -> (enc: MultiMessageFieldsEncoder<'d>)
        ensures
            enc.scratch == scratch,
    {
        MultiMessageFieldsEncoder { scratch: scratch }
    }

    /// Sets aside the bytes of the fixed fields without writing them, and
    /// hands back the fields that the buffer holds there.
    pub fn multi_message_fields(self) -> (r: CodecResult<
        (MultiMessageFields, MultiMessageMessagesHeaderEncoder<'d>),
    >)
        ensures
            match r {
                Ok((v, next)) => {
                    &&& self.scratch.has(8)
                    &&& v == MultiMessageFields::decode(
                        self.scratch.bytes(),
                        self.scratch.pos as int,
                    )
                    &&& next.scratch.bytes() == self.scratch.bytes()
                    &&& next.scratch.pos == self.scratch.pos + 8
                    &&& final(next.scratch.data)@ == final(self.scratch.data)@
                },
                Err(e) => {
                    &&& !self.scratch.has(8)
                    &&& e == CodecErr::NotEnoughBytes
                    &&& final(self.scratch.data)@ == self.scratch.bytes()
                },
            },
    {
        let (v, scratch) = self.scratch.reserve_fields()?;
        Ok((v, MultiMessageMessagesHeaderEncoder::wrap(scratch)))
    }

    /// Copy the bytes of a value into the data buffer
    pub fn multi_message_fields_copy(self, t: &MultiMessageFields) -> (r: CodecResult<
        MultiMessageMessagesHeaderEncoder<'d>,
    >)
        ensures
            match r {
                Ok(next) => {
                    &&& self.scratch.has(8)
                    &&& next.scratch.bytes() == overwrite(
                        self.scratch.bytes(),
                        self.scratch.pos as int,
                        t.bytes(),
                    )
                    &&& next.scratch.pos == self.scratch.pos + 8
                    &&& final(next.scratch.data)@ == final(self.scratch.data)@
                },
                Err(e) => {
                    &&& !self.scratch.has(8)
                    &&& e == CodecErr::NotEnoughBytes
                    &&& final(self.scratch.data)@ == self.scratch.bytes()
                },
            },
    {
        let b = u64_to_bytes(t.sequence_number);
        reveal(MultiMessageFields::bytes);
        let scratch = self.scratch.write_slice_without_count(b.as_slice())?;
        Ok(MultiMessageMessagesHeaderEncoder::wrap(scratch))
    }
}

/// MultiMessageMessageHeaderEncoder
pub struct MultiMessageMessageHeaderEncoder<'d> {
    pub scratch: ScratchEncoderData<'d>,
}

impl<'d> MultiMessageMessageHeaderEncoder<'d> {
    pub fn wrap(scratch: ScratchEncoderData<'d>) -> (enc: MultiMessageMessageHeaderEncoder<'d>)
        ensures
            enc.scratch == scratch,
    {
        MultiMessageMessageHeaderEncoder { scratch: scratch }
    }

    /// Sets aside the bytes of the message header without writing them, and
    /// hands back the header that the buffer holds there.
    pub fn header(self) -> (r: CodecResult<(MessageHeader, MultiMessageFieldsEncoder<'d>)>)
        ensures
            match r {
                Ok((v, next)) => {
                    &&& self.scratch.has(8)
                    &&& v == MessageHeader::decode(self.scratch.bytes(), self.scratch.pos as int)
                    &&& next.scratch.bytes() == self.scratch.bytes()
                    &&& next.scratch.pos == self.scratch.pos + 8
                    &&& final(next.scratch.data)@ == final(self.scratch.data)@
                },
                Err(e) => {
                    &&& !self.scratch.has(8)
                    &&& e == CodecErr::NotEnoughBytes
                    &&& final(self.scratch.data)@ == self.scratch.bytes()
                },
            },
    {
        let (v, scratch) = self.scratch.reserve_message_header()?;
        Ok((v, MultiMessageFieldsEncoder::wrap(scratch)))
    }

    /// Copy the bytes of a value into the data buffer
    pub fn header_copy(self, t: &MessageHeader) -> (r: CodecResult<MultiMessageFieldsEncoder<'d>>)
        ensures
            match r {
                Ok(next) => {
                    &&& self.scratch.has(8)
                    &&& next.scratch.bytes() == overwrite(
                        self.scratch.bytes(),
                        self.scratch.pos as int,
                        t.bytes(),
                    )
                    &&& next.scratch.pos == self.scratch.pos + 8
                    &&& final(next.scratch.data)@ == final(self.scratch.data)@
                },
                Err(e) => {
                    &&& !self.scratch.has(8)
                    &&& e == CodecErr::NotEnoughBytes
                    &&& final(self.scratch.data)@ == self.scratch.bytes()
                },
            },
    {
        let b = header_to_bytes(t);
        let scratch = self.scratch.write_slice_without_count(b.as_slice())?;
        Ok(MultiMessageFieldsEncoder::wrap(scratch))
    }
}

/// MultiMessage Encoder entry point
pub fn start_encoding_multi_message<'d>(data: &'d mut [u8]) -> (enc:
    MultiMessageMessageHeaderEncoder<'d>)
    ensures
        enc.scratch.bytes() == old(data)@,
        enc.scratch.pos == 0,
        final(enc.scratch.data)@ == final(data)@,
{
    MultiMessageMessageHeaderEncoder::wrap(ScratchEncoderData { data: data, pos: 0 })
}

} // verus!
