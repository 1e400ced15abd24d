//! The feed message decoder: one datagram's payload into a session header and
//! its typed messages.
//!
//! A payload is a 40-byte little-endian header followed by `msg_count`
//! messages, each prefixed by its own 16-bit length. The length bounds the
//! message: whatever lies between the end of a variant's fixed layout and the
//! end of the declared length is skipped, so that fields added to a layout
//! later do not break the decoder.
use vstd::prelude::*;
use crate::parsers::{
    captured_len, declared_len, extract_iex_data, frame_fault, frame_payload, kind_of,
    read_block, read_fault, Block, BlockErr, BlockKind, FrameErr,
};
use crate::wire::{
    array4, array8, i64_le, read_array4, read_array8, read_i64_le, read_u16_le, read_u32_le,
    read_u64_le, read_u8, tail, u16_le, u32_le, u64_le,
};

verus! {

/// Why a payload could not be decoded.
#[derive(Debug, Clone, Copy, PartialEq, Eq, Structural)]
pub enum FeedErr {
    /// Fewer bytes are present than a header, a length prefix or a variant's
    /// fixed layout requires.
    Truncated,
    /// The first byte of a message is none of the known tags.
    UnknownMessageType,
    /// The bytes after the header are not exactly `msg_count` length-prefixed
    /// messages.
    PayloadLengthMismatch,
}

/// A system event: a change of state of the whole market session.
#[derive(Debug, Clone, Copy)]
pub struct SystemEvent {
    pub msg_type: u8,
    pub system_event: u8,
    pub timestamp: i64,
}

impl SystemEvent {
    /// The bytes that the fixed layout of this message occupies.
    pub const WIRE_LEN: usize = 10;

    /// The message that the layout gives for the bytes at the start of `s`.
    pub open spec fn decode(s: Seq<u8>) -> SystemEvent {
        SystemEvent {
            msg_type: s[0],
            system_event: s[1],
            timestamp: i64_le(s, 2) as i64,
        }
    }

    /// Reads one message from the start of `input` and returns it with the
    /// bytes that follow its layout.
    pub fn parse(input: &[u8]) -> (r: Result<(&[u8], SystemEvent), FeedErr>)
        ensures
            match r {
                Ok((rest, m)) => input@.len() >= 10 && m == Self::decode(input@) && rest@
                    == input@.skip(10),
                Err(e) => input@.len() < 10 && e == FeedErr::Truncated,
            },
    {
        if input.len() < Self::WIRE_LEN {
            return Err(FeedErr::Truncated);
        }
        let m = SystemEvent {
            msg_type: read_u8(input, 0),
            system_event: read_u8(input, 1),
            timestamp: read_i64_le(input, 2),
        };
        Ok((tail(input, Self::WIRE_LEN), m))
    }
}

/// A security directory entry, sent once per symbol at the start of a session.
#[derive(Debug, Clone, Copy)]
pub struct SecurityDirectory {
    pub msg_type: u8,
    pub flags: u8,
    pub timestamp: i64,
    pub symbol: [u8; 8],
    pub lot_size: u32,
    pub previous_closing: u64,
    pub luld_tier: u8,
}

impl SecurityDirectory {
    /// The bytes that the fixed layout of this message occupies.
    pub const WIRE_LEN: usize = 31;

    /// The message that the layout gives for the bytes at the start of `s`.
    pub open spec fn decode(s: Seq<u8>) -> SecurityDirectory {
        SecurityDirectory {
            msg_type: s[0],
            flags: s[1],
            timestamp: i64_le(s, 2) as i64,
            symbol: array8(s, 10),
            lot_size: u32_le(s, 18) as u32,
            previous_closing: u64_le(s, 22) as u64,
            luld_tier: s[30],
        }
    }

    /// Reads one message from the start of `input` and returns it with the
    /// bytes that follow its layout.
    pub fn parse(input: &[u8]) -> (r: Result<(&[u8], SecurityDirectory), FeedErr>)
        ensures
            match r {
                Ok((rest, m)) => input@.len() >= 31 && m == Self::decode(input@) && rest@
                    == input@.skip(31),
                Err(e) => input@.len() < 31 && e == FeedErr::Truncated,
            },
    {
        if input.len() < Self::WIRE_LEN {
            return Err(FeedErr::Truncated);
        }
        let m = SecurityDirectory {
            msg_type: read_u8(input, 0),
            flags: read_u8(input, 1),
            timestamp: read_i64_le(input, 2),
            symbol: read_array8(input, 10),
            lot_size: read_u32_le(input, 18),
            previous_closing: read_u64_le(input, 22),
            luld_tier: read_u8(input, 30),
        };
        Ok((tail(input, Self::WIRE_LEN), m))
    }
}

/// The trading status of one symbol.
#[derive(Debug, Clone, Copy)]
pub struct TradingStatus {
    pub msg_type: u8,
    pub trading_status: u8,
    pub timestamp: i64,
    pub symbol: [u8; 8],
    pub reason: [u8; 4],
}

impl TradingStatus {
    /// The bytes that the fixed layout of this message occupies.
    pub const WIRE_LEN: usize = 22;

    /// The message that the layout gives for the bytes at the start of `s`.
    pub open spec fn decode(s: Seq<u8>) -> TradingStatus {
        TradingStatus {
            msg_type: s[0],
            trading_status: s[1],
            timestamp: i64_le(s, 2) as i64,
            symbol: array8(s, 10),
            reason: array4(s, 18),
        }
    }

    /// Reads one message from the start of `input` and returns it with the
    /// bytes that follow its layout.
    pub fn parse(input: &[u8]) -> (r: Result<(&[u8], TradingStatus), FeedErr>)
        ensures
            match r {
                Ok((rest, m)) => input@.len() >= 22 && m == Self::decode(input@) && rest@
                    == input@.skip(22),
                Err(e) => input@.len() < 22 && e == FeedErr::Truncated,
            },
    {
        if input.len() < Self::WIRE_LEN {
            return Err(FeedErr::Truncated);
        }
        let m = TradingStatus {
            msg_type: read_u8(input, 0),
            trading_status: read_u8(input, 1),
            timestamp: read_i64_le(input, 2),
            symbol: read_array8(input, 10),
            reason: read_array4(input, 18),
        };
        Ok((tail(input, Self::WIRE_LEN), m))
    }
}

/// The operational halt status of one symbol.
#[derive(Debug, Clone, Copy)]
pub struct OperationalHaltStatus {
    pub msg_type: u8,
    pub halt_status: u8,
    pub timestamp: i64,
    pub symbol: [u8; 8],
}

impl OperationalHaltStatus {
    /// The bytes that the fixed layout of this message occupies.
    pub const WIRE_LEN: usize = 18;

    /// The message that the layout gives for the bytes at the start of `s`.
    pub open spec fn decode(s: Seq<u8>) -> OperationalHaltStatus {
        OperationalHaltStatus {
            msg_type: s[0],
            halt_status: s[1],
            timestamp: i64_le(s, 2) as i64,
            symbol: array8(s, 10),
        }
    }

    /// Reads one message from the start of `input` and returns it with the
    /// bytes that follow its layout.
    pub fn parse(input: &[u8]) -> (r: Result<(&[u8], OperationalHaltStatus), FeedErr>)
        ensures
            match r {
                Ok((rest, m)) => input@.len() >= 18 && m == Self::decode(input@) && rest@
                    == input@.skip(18),
                Err(e) => input@.len() < 18 && e == FeedErr::Truncated,
            },
    {
        if input.len() < Self::WIRE_LEN {
            return Err(FeedErr::Truncated);
        }
        let m = OperationalHaltStatus {
            msg_type: read_u8(input, 0),
            halt_status: read_u8(input, 1),
            timestamp: read_i64_le(input, 2),
            symbol: read_array8(input, 10),
        };
        Ok((tail(input, Self::WIRE_LEN), m))
    }
}

/// The short sale price test status of one symbol.
#[derive(Debug, Clone, Copy)]
pub struct ShortSalePriceTest {
    pub msg_type: u8,
    pub sspt_status: u8,
    pub timestamp: i64,
    pub symbol: [u8; 8],
    pub detail: u8,
}

impl ShortSalePriceTest {
    /// The bytes that the fixed layout of this message occupies.
    pub const WIRE_LEN: usize = 19;

    /// The message that the layout gives for the bytes at the start of `s`.
    pub open spec fn decode(s: Seq<u8>) -> ShortSalePriceTest {
        ShortSalePriceTest {
            msg_type: s[0],
            sspt_status: s[1],
            timestamp: i64_le(s, 2) as i64,
            symbol: array8(s, 10),
            detail: s[18],
        }
    }

    /// Reads one message from the start of `input` and returns it with the
    /// bytes that follow its layout.
    pub fn parse(input: &[u8]) -> (r: Result<(&[u8], ShortSalePriceTest), FeedErr>)
        ensures
            match r {
                Ok((rest, m)) => input@.len() >= 19 && m == Self::decode(input@) && rest@
                    == input@.skip(19),
                Err(e) => input@.len() < 19 && e == FeedErr::Truncated,
            },
    {
        if input.len() < Self::WIRE_LEN {
            return Err(FeedErr::Truncated);
        }
        let m = ShortSalePriceTest {
            msg_type: read_u8(input, 0),
            sspt_status: read_u8(input, 1),
            timestamp: read_i64_le(input, 2),
            symbol: read_array8(input, 10),
            detail: read_u8(input, 18),
        };
        Ok((tail(input, Self::WIRE_LEN), m))
    }
}

/// A security event: the opening or closing of one symbol.
#[derive(Debug, Clone, Copy)]
pub struct SecurityEvent {
    pub msg_type: u8,
    pub security_event: u8,
    pub timestamp: i64,
    pub symbol: [u8; 8],
}

impl SecurityEvent {
    /// The bytes that the fixed layout of this message occupies.
    pub const WIRE_LEN: usize = 18;

    /// The message that the layout gives for the bytes at the start of `s`.
    pub open spec fn decode(s: Seq<u8>) -> SecurityEvent {
        SecurityEvent {
            msg_type: s[0],
            security_event: s[1],
            timestamp: i64_le(s, 2) as i64,
            symbol: array8(s, 10),
        }
    }

    /// Reads one message from the start of `input` and returns it with the
    /// bytes that follow its layout.
    pub fn parse(input: &[u8]) -> (r: Result<(&[u8], SecurityEvent), FeedErr>)
        ensures
            match r {
                Ok((rest, m)) => input@.len() >= 18 && m == Self::decode(input@) && rest@
                    == input@.skip(18),
                Err(e) => input@.len() < 18 && e == FeedErr::Truncated,
            },
    {
        if input.len() < Self::WIRE_LEN {
            return Err(FeedErr::Truncated);
        }
        let m = SecurityEvent {
            msg_type: read_u8(input, 0),
            security_event: read_u8(input, 1),
            timestamp: read_i64_le(input, 2),
            symbol: read_array8(input, 10),
        };
        Ok((tail(input, Self::WIRE_LEN), m))
    }
}

/// A change of the size resting at one price level of the book. The tag
/// in `msg_type` tells the side: `0x38` is the buy side, `0x35` the sell side.
#[derive(Debug, Clone, Copy)]
pub struct PriceLevelUpdate {
    pub msg_type: u8,
    pub event_flags: u8,
    pub timestamp: i64,
    pub symbol: [u8; 8],
    pub size: u32,
    pub price: u64,
}

impl PriceLevelUpdate {
    /// The bytes that the fixed layout of this message occupies.
    pub const WIRE_LEN: usize = 30;

    /// The message that the layout gives for the bytes at the start of `s`.
    pub open spec fn decode(s: Seq<u8>) -> PriceLevelUpdate {
        PriceLevelUpdate {
            msg_type: s[0],
            event_flags: s[1],
            timestamp: i64_le(s, 2) as i64,
            symbol: array8(s, 10),
            size: u32_le(s, 18) as u32,
            price: u64_le(s, 22) as u64,
        }
    }

    /// Reads one message from the start of `input` and returns it with the
    /// bytes that follow its layout.
    pub fn parse(input: &[u8]) -> (r: Result<(&[u8], PriceLevelUpdate), FeedErr>)
        ensures
            match r {
                Ok((rest, m)) => input@.len() >= 30 && m == Self::decode(input@) && rest@
                    == input@.skip(30),
                Err(e) => input@.len() < 30 && e == FeedErr::Truncated,
            },
    {
        if input.len() < Self::WIRE_LEN {
            return Err(FeedErr::Truncated);
        }
        let m = PriceLevelUpdate {
            msg_type: read_u8(input, 0),
            event_flags: read_u8(input, 1),
            timestamp: read_i64_le(input, 2),
            symbol: read_array8(input, 10),
            size: read_u32_le(input, 18),
            price: read_u64_le(input, 22),
        };
        Ok((tail(input, Self::WIRE_LEN), m))
    }
}

/// An execution on the book.
#[derive(Debug, Clone, Copy)]
pub struct TradeReport {
    pub msg_type: u8,
    pub sale_condition: u8,
    pub timestamp: i64,
    pub symbol: [u8; 8],
    pub size: u32,
    pub price: u64,
    pub trade_id: u64,
}

impl TradeReport {
    /// The bytes that the fixed layout of this message occupies.
    pub const WIRE_LEN: usize = 38;

    /// The message that the layout gives for the bytes at the start of `s`.
    pub open spec fn decode(s: Seq<u8>) -> TradeReport {
        TradeReport {
            msg_type: s[0],
            sale_condition: s[1],
            timestamp: i64_le(s, 2) as i64,
            symbol: array8(s, 10),
            size: u32_le(s, 18) as u32,
            price: u64_le(s, 22) as u64,
            trade_id: u64_le(s, 30) as u64,
        }
    }

    /// Reads one message from the start of `input` and returns it with the
    /// bytes that follow its layout.
    pub fn parse(input: &[u8]) -> (r: Result<(&[u8], TradeReport), FeedErr>)
        ensures
            match r {
                Ok((rest, m)) => input@.len() >= 38 && m == Self::decode(input@) && rest@
                    == input@.skip(38),
                Err(e) => input@.len() < 38 && e == FeedErr::Truncated,
            },
    {
        if input.len() < Self::WIRE_LEN {
            return Err(FeedErr::Truncated);
        }
        let m = TradeReport {
            msg_type: read_u8(input, 0),
            sale_condition: read_u8(input, 1),
            timestamp: read_i64_le(input, 2),
            symbol: read_array8(input, 10),
            size: read_u32_le(input, 18),
            price: read_u64_le(input, 22),
            trade_id: read_u64_le(input, 30),
        };
        Ok((tail(input, Self::WIRE_LEN), m))
    }
}

/// An official opening or closing price.
#[derive(Debug, Clone, Copy)]
pub struct OfficialPrice {
    pub msg_type: u8,
    pub price_type: u8,
    pub timestamp: i64,
    pub symbol: [u8; 8],
    pub official_price: u64,
}

impl OfficialPrice {
    /// The bytes that the fixed layout of this message occupies.
    pub const WIRE_LEN: usize = 26;

    /// The message that the layout gives for the bytes at the start of `s`.
    pub open spec fn decode(s: Seq<u8>) -> OfficialPrice {
        OfficialPrice {
            msg_type: s[0],
            price_type: s[1],
            timestamp: i64_le(s, 2) as i64,
            symbol: array8(s, 10),
            official_price: u64_le(s, 18) as u64,
        }
    }

    /// Reads one message from the start of `input` and returns it with the
    /// bytes that follow its layout.
    pub fn parse(input: &[u8]) -> (r: Result<(&[u8], OfficialPrice), FeedErr>)
        ensures
            match r {
                Ok((rest, m)) => input@.len() >= 26 && m == Self::decode(input@) && rest@
                    == input@.skip(26),
                Err(e) => input@.len() < 26 && e == FeedErr::Truncated,
            },
    {
        if input.len() < Self::WIRE_LEN {
            return Err(FeedErr::Truncated);
        }
        let m = OfficialPrice {
            msg_type: read_u8(input, 0),
            price_type: read_u8(input, 1),
            timestamp: read_i64_le(input, 2),
            symbol: read_array8(input, 10),
            official_price: read_u64_le(input, 18),
        };
        Ok((tail(input, Self::WIRE_LEN), m))
    }
}

/// The cancellation of an earlier trade.
#[derive(Debug, Clone, Copy)]
pub struct TradeBreak {
    pub msg_type: u8,
    pub sale_condition: u8,
    pub timestamp: i64,
    pub symbol: [u8; 8],
    pub size: u32,
    pub price: u64,
    pub trade_id: u64,
}

impl TradeBreak {
    /// The bytes that the fixed layout of this message occupies.
    pub const WIRE_LEN: usize = 38;

    /// The message that the layout gives for the bytes at the start of `s`.
    pub open spec fn decode(s: Seq<u8>) -> TradeBreak {
        TradeBreak {
            msg_type: s[0],
            sale_condition: s[1],
            timestamp: i64_le(s, 2) as i64,
            symbol: array8(s, 10),
            size: u32_le(s, 18) as u32,
            price: u64_le(s, 22) as u64,
            trade_id: u64_le(s, 30) as u64,
        }
    }

    /// Reads one message from the start of `input` and returns it with the
    /// bytes that follow its layout.
    pub fn parse(input: &[u8]) -> (r: Result<(&[u8], TradeBreak), FeedErr>)
        ensures
            match r {
                Ok((rest, m)) => input@.len() >= 38 && m == Self::decode(input@) && rest@
                    == input@.skip(38),
                Err(e) => input@.len() < 38 && e == FeedErr::Truncated,
            },
    {
        if input.len() < Self::WIRE_LEN {
            return Err(FeedErr::Truncated);
        }
        let m = TradeBreak {
            msg_type: read_u8(input, 0),
            sale_condition: read_u8(input, 1),
            timestamp: read_i64_le(input, 2),
            symbol: read_array8(input, 10),
            size: read_u32_le(input, 18),
            price: read_u64_le(input, 22),
            trade_id: read_u64_le(input, 30),
        };
        Ok((tail(input, Self::WIRE_LEN), m))
    }
}

/// The state of a running auction.
#[derive(Debug, Clone, Copy)]
pub struct AuctionInformation {
    pub msg_type: u8,
    pub auction_type: u8,
    pub timestamp: i64,
    pub symbol: [u8; 8],
    pub paired_shares: u32,
    pub reference_price: u64,
    pub indicative_clearing_price: u64,
    pub imbalance_shares: u32,
    pub imbalance_side: u8,
    pub extension_number: u8,
    pub scheduled_auction: u32,
    pub auction_book_clearing_price: u64,
    pub collar_reference_price: u64,
    pub lower_auction_collar: u64,
    pub upper_auction_collar: u64,
}

impl AuctionInformation {
    /// The bytes that the fixed layout of this message occupies.
    pub const WIRE_LEN: usize = 80;

    /// The message that the layout gives for the bytes at the start of `s`.
    pub open spec fn decode(s: Seq<u8>) -> AuctionInformation {
        AuctionInformation {
            msg_type: s[0],
            auction_type: s[1],
            timestamp: i64_le(s, 2) as i64,
            symbol: array8(s, 10),
            paired_shares: u32_le(s, 18) as u32,
            reference_price: u64_le(s, 22) as u64,
            indicative_clearing_price: u64_le(s, 30) as u64,
            imbalance_shares: u32_le(s, 38) as u32,
            imbalance_side: s[42],
            extension_number: s[43],
            scheduled_auction: u32_le(s, 44) as u32,
            auction_book_clearing_price: u64_le(s, 48) as u64,
            collar_reference_price: u64_le(s, 56) as u64,
            lower_auction_collar: u64_le(s, 64) as u64,
            upper_auction_collar: u64_le(s, 72) as u64,
        }
    }

    /// Reads one message from the start of `input` and returns it with the
    /// bytes that follow its layout.
    pub fn parse(input: &[u8]) -> (r: Result<(&[u8], AuctionInformation), FeedErr>)
        ensures
            match r {
                Ok((rest, m)) => input@.len() >= 80 && m == Self::decode(input@) && rest@
                    == input@.skip(80),
                Err(e) => input@.len() < 80 && e == FeedErr::Truncated,
            },
    {
        if input.len() < Self::WIRE_LEN {
            return Err(FeedErr::Truncated);
        }
        let m = AuctionInformation {
            msg_type: read_u8(input, 0),
            auction_type: read_u8(input, 1),
            timestamp: read_i64_le(input, 2),
            symbol: read_array8(input, 10),
            paired_shares: read_u32_le(input, 18),
            reference_price: read_u64_le(input, 22),
            indicative_clearing_price: read_u64_le(input, 30),
            imbalance_shares: read_u32_le(input, 38),
            imbalance_side: read_u8(input, 42),
            extension_number: read_u8(input, 43),
            scheduled_auction: read_u32_le(input, 44),
            auction_book_clearing_price: read_u64_le(input, 48),
            collar_reference_price: read_u64_le(input, 56),
            lower_auction_collar: read_u64_le(input, 64),
            upper_auction_collar: read_u64_le(input, 72),
        };
        Ok((tail(input, Self::WIRE_LEN), m))
    }
}

/// One message of the feed.
#[derive(Debug, Clone, Copy)]
pub enum IexMessage {
    SystemEvent(SystemEvent),
    SecurityDirectory(SecurityDirectory),
    TradingStatus(TradingStatus),
    OperationalHaltStatus(OperationalHaltStatus),
    ShortSalePriceTest(ShortSalePriceTest),
    SecurityEvent(SecurityEvent),
    PriceLevelUpdate(PriceLevelUpdate),
    TradeReport(TradeReport),
    OfficialPrice(OfficialPrice),
    TradeBreak(TradeBreak),
    AuctionInformation(AuctionInformation),
}

/// The length of the fixed layout that a tag selects, if the tag is known.
pub open spec fn layout_len(tag: u8) -> Option<int> {
    if tag == 0x53 {
        Some(10)
    } else if tag == 0x44 {
        Some(31)
    } else if tag == 0x48 {
        Some(22)
    } else if tag == 0x4f {
        Some(18)
    } else if tag == 0x50 {
        Some(19)
    } else if tag == 0x45 {
        Some(18)
    } else if tag == 0x38 || tag == 0x35 {
        Some(30)
    } else if tag == 0x54 {
        Some(38)
    } else if tag == 0x58 {
        Some(26)
    } else if tag == 0x42 {
        Some(38)
    } else if tag == 0x41 {
        Some(80)
    } else {
        None
    }
}

/// Whether `s` starts with a whole frame: a length prefix and as many bytes
/// as it declares.
pub open spec fn framed(s: Seq<u8>) -> bool {
    s.len() >= 2 && s.len() >= 2 + u16_le(s, 0)
}

/// The body of the frame at the start of `s`: the bytes that its length
/// prefix bounds.
pub open spec fn frame_body(s: Seq<u8>) -> Seq<u8> {
    s.subrange(2, 2 + u16_le(s, 0))
}

/// What follows the frame at the start of `s`.
pub open spec fn after_frame(s: Seq<u8>) -> Seq<u8> {
    s.skip(2 + u16_le(s, 0))
}

/// Why a frame's body is no message, if it is none: it is empty or shorter
/// than the layout its tag selects, or its tag is unknown.
pub open spec fn body_fault(body: Seq<u8>) -> Option<FeedErr> {
    if body.len() == 0 {
        Some(FeedErr::Truncated)
    } else {
        match layout_len(body[0]) {
            None => Some(FeedErr::UnknownMessageType),
            Some(n) => if body.len() < n {
                Some(FeedErr::Truncated)
            } else {
                None
            },
        }
    }
}

impl IexMessage {
    /// The message that a frame's body holds: its first byte selects the
    /// variant, the variant's layout gives the fields.
    pub open spec fn decode(body: Seq<u8>) -> IexMessage {
        let tag = body[0];
        if tag == 0x53 {
            IexMessage::SystemEvent(SystemEvent::decode(body))
        } else if tag == 0x44 {
            IexMessage::SecurityDirectory(SecurityDirectory::decode(body))
        } else if tag == 0x48 {
            IexMessage::TradingStatus(TradingStatus::decode(body))
        } else if tag == 0x4f {
            IexMessage::OperationalHaltStatus(OperationalHaltStatus::decode(body))
        } else if tag == 0x50 {
            IexMessage::ShortSalePriceTest(ShortSalePriceTest::decode(body))
        } else if tag == 0x45 {
            IexMessage::SecurityEvent(SecurityEvent::decode(body))
        } else if tag == 0x38 || tag == 0x35 {
            IexMessage::PriceLevelUpdate(PriceLevelUpdate::decode(body))
        } else if tag == 0x54 {
            IexMessage::TradeReport(TradeReport::decode(body))
        } else if tag == 0x58 {
            IexMessage::OfficialPrice(OfficialPrice::decode(body))
        } else if tag == 0x42 {
            IexMessage::TradeBreak(TradeBreak::decode(body))
        } else {
            IexMessage::AuctionInformation(AuctionInformation::decode(body))
        }
    }

    /// What reading one frame from the start of `s` gives: the message and
    /// the bytes after the frame, or the reason why there is none.
    pub open spec fn decode_frame(s: Seq<u8>) -> Result<(IexMessage, Seq<u8>), FeedErr> {
        if !framed(s) {
            Err(FeedErr::Truncated)
        } else {
            match body_fault(frame_body(s)) {
                Some(e) => Err(e),
                None => Ok((IexMessage::decode(frame_body(s)), after_frame(s))),
            }
        }
    }

    /// Reads one length-prefixed message from the start of `input`. The
    /// length prefix alone decides where the next message starts.
    pub fn parse(input: &[u8]) -> (r: Result<(&[u8], IexMessage), FeedErr>)
        ensures
            match r {
                Ok((rest, m)) => IexMessage::decode_frame(input@) == Ok::<
                    (IexMessage, Seq<u8>),
                    FeedErr,
                >((m, rest@)),
                Err(e) => IexMessage::decode_frame(input@) == Err::<
                    (IexMessage, Seq<u8>),
                    FeedErr,
                >(e),
            },
    {
        if input.len() < 2 {
            return Err(FeedErr::Truncated);
        }
        let msg_len: usize = read_u16_le(input, 0) as usize;
        if input.len() - 2 < msg_len {
            return Err(FeedErr::Truncated);
        }
        let body = vstd::slice::slice_subrange(input, 2, 2 + msg_len);
        let rest = tail(input, 2 + msg_len);
        if msg_len == 0 {
            return Err(FeedErr::Truncated);
        }
        let tag: u8 = read_u8(body, 0);
        let msg = if tag == 0x53 {
            IexMessage::SystemEvent(SystemEvent::parse(body)?.1)
        } else if tag == 0x44 {
            IexMessage::SecurityDirectory(SecurityDirectory::parse(body)?.1)
        } else if tag == 0x48 {
            IexMessage::TradingStatus(TradingStatus::parse(body)?.1)
        } else if tag == 0x4f {
            IexMessage::OperationalHaltStatus(OperationalHaltStatus::parse(body)?.1)
        } else if tag == 0x50 {
            IexMessage::ShortSalePriceTest(ShortSalePriceTest::parse(body)?.1)
        } else if tag == 0x45 {
            IexMessage::SecurityEvent(SecurityEvent::parse(body)?.1)
        } else if tag == 0x38 || tag == 0x35 {
            IexMessage::PriceLevelUpdate(PriceLevelUpdate::parse(body)?.1)
        } else if tag == 0x54 {
            IexMessage::TradeReport(TradeReport::parse(body)?.1)
        } else if tag == 0x58 {
            IexMessage::OfficialPrice(OfficialPrice::parse(body)?.1)
        } else if tag == 0x42 {
            IexMessage::TradeBreak(TradeBreak::parse(body)?.1)
        } else if tag == 0x41 {
            IexMessage::AuctionInformation(AuctionInformation::parse(body)?.1)
        } else {
            return Err(FeedErr::UnknownMessageType);
        };
        Ok((rest, msg))
    }
}

/// The most messages that a list is asked to hold: a payload declares its
/// messages with a 16-bit count.
pub const MAX_MESSAGES: usize = 65535;

/// The messages of one payload, in the order of the wire, held in a
/// `smallvec::SmallVec<[IexMessage; 256]>`: the first 256 lie inline, only a
/// longer payload touches the heap. The vector itself is not looked into;
/// what is known of it is what its operations below state.
#[verifier::external_body]
#[derive(Debug)]
pub struct MessageList {
    inner: smallvec::SmallVec<[IexMessage; 256]>,
}

/// The messages that a list holds, first pushed first.
pub uninterp spec fn list_items(list: MessageList) -> Seq<IexMessage>;

/// `SmallVec::new`: a vector that holds nothing. It asserts that the array
/// type is laid out as its `Array` impl says, which holds of the arrays that
/// the crate itself implements `Array` for.
#[verifier::external_body]
fn smallvec_new() -> (list: MessageList)
    ensures
        list_items(list) == Seq::<IexMessage>::empty(),
{
    MessageList { inner: smallvec::SmallVec::new() }
}

/// `SmallVec::push`: the item is appended behind those already held. A
/// full vector grows to the next power of two and panics where that capacity
/// cannot be allocated for; a list within the bound is far from there.
#[verifier::external_body]
fn smallvec_push(list: &mut MessageList, msg: IexMessage)
    requires
        list_items(*old(list)).len() <= MAX_MESSAGES,
    ensures
        list_items(*final(list)) == list_items(*old(list)).push(msg),
{
    list.inner.push(msg)
}

/// `SmallVec::len`: the number of items held.
#[verifier::external_body]
fn smallvec_len(list: &MessageList) -> (n: usize)
    ensures
        n == list_items(*list).len(),
{
    list.inner.len()
}

/// `SmallVec`'s `Index::index`, which indexes the slice of the items held:
/// the item at `i`. It panics past the end.
#[verifier::external_body]
fn smallvec_get(list: &MessageList, i: usize) -> (msg: &IexMessage)
    requires
        i < list_items(*list).len(),
    ensures
        *msg == list_items(*list)[i as int],
{
    &list.inner[i]
}

impl View for MessageList {
    type V = Seq<IexMessage>;

    open spec fn view(&self) -> Seq<IexMessage> {
        list_items(*self)
    }
}

impl MessageList {
    /// An empty list.
    pub fn new() -> (list: MessageList)
        ensures
            list@ == Seq::<IexMessage>::empty(),
    {
        smallvec_new()
    }

    /// Appends `msg` to a list that holds no more than [`MAX_MESSAGES`].
    pub fn push(&mut self, msg: IexMessage)
        requires
            old(self)@.len() <= MAX_MESSAGES,
        ensures
            final(self)@ == old(self)@.push(msg),
    {
        smallvec_push(self, msg)
    }

    /// The number of messages.
    pub fn len(&self) -> (n: usize)
        ensures
            n == self@.len(),
    {
        smallvec_len(self)
    }

    /// The message at `i`, or `None` past the end.
    pub fn get(&self, i: usize) -> (msg: Option<&IexMessage>)
        ensures
            match msg {
                Some(m) => i < self@.len() && *m == self@[i as int],
                None => i >= self@.len(),
            },
    {
        if i < smallvec_len(self) {
            Some(smallvec_get(self, i))
        } else {
            None
        }
    }
}

/// One datagram's worth of feed data: the session header and the messages.
#[derive(Debug)]
pub struct IexPayload {
    pub version: u8,
    pub reserved: u8,
    pub proto_id: u16,
    pub channel_id: u32,
    pub session_id: u32,
    pub payload_len: u16,
    pub msg_count: u16,
    pub stream_offset: u64,
    pub first_seq_no: u64,
    pub send_time: i64,
    pub messages: MessageList,
}

/// The bytes of the session header.
pub const HEADER_LEN: usize = 40;

/// What reading `n` frames from the start of `s` gives: the messages in
/// order and the bytes left over, or the fault of the first frame that is
/// no message.
pub open spec fn decode_frames(s: Seq<u8>, n: nat) -> Result<(Seq<IexMessage>, Seq<u8>), FeedErr>
    decreases n,
{
    if n == 0 {
        Ok((Seq::empty(), s))
    } else {
        match decode_frames(s, (n - 1) as nat) {
            Err(e) => Err(e),
            Ok((msgs, rest)) => match IexMessage::decode_frame(rest) {
                Err(e) => Err(e),
                Ok((m, after)) => Ok((msgs.push(m), after)),
            },
        }
    }
}

/// The fault that the payload decoder reports for a frame: bytes missing
/// from a frame mean that the declared count does not match what is there.
pub open spec fn counted_fault(s: Seq<u8>, e: FeedErr) -> FeedErr {
    if !framed(s) {
        FeedErr::PayloadLengthMismatch
    } else {
        e
    }
}

/// What reading `n` frames gives to the payload decoder: as
/// [`decode_frames`], but with a missing or cut frame reported as a count
/// that does not match.
pub open spec fn decode_counted(s: Seq<u8>, n: nat) -> Result<(Seq<IexMessage>, Seq<u8>), FeedErr>
    decreases n,
{
    if n == 0 {
        Ok((Seq::empty(), s))
    } else {
        match decode_counted(s, (n - 1) as nat) {
            Err(e) => Err(e),
            Ok((msgs, rest)) => match IexMessage::decode_frame(rest) {
                Err(e) => Err(counted_fault(rest, e)),
                Ok((m, after)) => Ok((msgs.push(m), after)),
            },
        }
    }
}

impl IexPayload {
    /// Whether the session header of this payload is what the header layout
    /// gives for the bytes at the start of `s`.
    pub open spec fn has_header(&self, s: Seq<u8>) -> bool {
        &&& self.version == s[0]
        &&& self.reserved == s[1]
        &&& self.proto_id == u16_le(s, 2)
        &&& self.channel_id == u32_le(s, 4)
        &&& self.session_id == u32_le(s, 8)
        &&& self.payload_len == u16_le(s, 12)
        &&& self.msg_count == u16_le(s, 14)
        &&& self.stream_offset == u64_le(s, 16)
        &&& self.first_seq_no == u64_le(s, 24)
        &&& self.send_time == i64_le(s, 32)
    }

    /// What decoding `s` as a payload gives: the messages, or the fault.
    pub open spec fn decode_messages(s: Seq<u8>) -> Result<Seq<IexMessage>, FeedErr> {
        if s.len() < 40 {
            Err(FeedErr::Truncated)
        } else {
            match decode_counted(s.skip(40), u16_le(s, 14) as nat) {
                Err(e) => Err(e),
                Ok((msgs, rest)) => if rest.len() == 0 {
                    Ok(msgs)
                } else {
                    Err(FeedErr::PayloadLengthMismatch)
                },
            }
        }
    }

    /// Decodes one payload. It succeeds only when the bytes after the header
    /// are exactly `msg_count` messages: the returned rest is then empty.
    pub fn parse(payload: &[u8]) -> (r: Result<(&[u8], IexPayload), FeedErr>)
        ensures
            match r {
                Ok((rest, p)) => {
                    &&& IexPayload::decode_messages(payload@) == Ok::<Seq<IexMessage>, FeedErr>(
                        p.messages@,
                    )
                    &&& p.has_header(payload@)
                    &&& p.messages@.len() == p.msg_count
                    &&& rest@.len() == 0
                },
                Err(e) => IexPayload::decode_messages(payload@) == Err::<Seq<IexMessage>, FeedErr>(
                    e,
                ),
            },
    {
        if payload.len() < HEADER_LEN {
            return Err(FeedErr::Truncated);
        }
        let version: u8 = read_u8(payload, 0);
        let reserved: u8 = read_u8(payload, 1);
        let proto_id: u16 = read_u16_le(payload, 2);
        let channel_id: u32 = read_u32_le(payload, 4);
        let session_id: u32 = read_u32_le(payload, 8);
        let payload_len: u16 = read_u16_le(payload, 12);
        let msg_count: u16 = read_u16_le(payload, 14);
        let stream_offset: u64 = read_u64_le(payload, 16);
        let first_seq_no: u64 = read_u64_le(payload, 24);
        let send_time: i64 = read_i64_le(payload, 32);

        let mut rem: &[u8] = tail(payload, HEADER_LEN);
        let ghost body: Seq<u8> = rem@;
        let mut messages = MessageList::new();
        let mut i: u16 = 0;
        while i < msg_count
            invariant
                i <= msg_count,
                payload@.len() >= 40,
                body == payload@.skip(40),
                msg_count == u16_le(payload@, 14),
                decode_counted(body, i as nat) == Ok::<(Seq<IexMessage>, Seq<u8>), FeedErr>(
                    (messages@, rem@),
                ),
                messages@.len() == i,
            ensures
                i == msg_count,
            decreases msg_count - i,
        {
            match IexMessage::parse(rem) {
                Ok((after, msg)) => {
                    rem = after;
                    messages.push(msg);
                },
                Err(e) => {
                    proof {
                        assert(decode_counted(body, (i + 1) as nat) == Err::<
                            (Seq<IexMessage>, Seq<u8>),
                            FeedErr,
                        >(counted_fault(rem@, e)));
                        lemma_counted_fails(body, i as nat, msg_count as nat);
                    }
                    if rem.len() < 2 {
                        return Err(FeedErr::PayloadLengthMismatch);
                    }
                    let msg_len: usize = read_u16_le(rem, 0) as usize;
                    if rem.len() - 2 < msg_len {
                        return Err(FeedErr::PayloadLengthMismatch);
                    }
                    return Err(e);
                },
            }
            i = i + 1;
        }
        if rem.len() != 0 {
            return Err(FeedErr::PayloadLengthMismatch);
        }
        Ok(
            (
                rem,
                IexPayload {
                    version,
                    reserved,
                    proto_id,
                    channel_id,
                    session_id,
                    payload_len,
                    msg_count,
                    stream_offset,
                    first_seq_no,
                    send_time,
                    messages,
                },
            ),
        )
    }
}

/// Once a frame is no message, reading more frames gives the same fault.
pub proof fn lemma_counted_fails(s: Seq<u8>, i: nat, n: nat)
    requires
        i < n,
        decode_counted(s, i) is Ok,
        decode_counted(s, i + 1) is Err,
    ensures
        decode_counted(s, n) == decode_counted(s, i + 1),
    decreases n,
{
    if n > i + 1 {
        lemma_counted_fails(s, i, (n - 1) as nat);
    }
}

/// Why a capture gave no payload.
#[derive(Debug, Clone, Copy, PartialEq, Eq, Structural)]
pub enum CaptureErr {
    /// A block of the capture could not be read.
    Block(BlockErr),
    /// A captured frame holds no payload.
    Frame(FrameErr),
    /// A payload could not be decoded.
    Feed(FeedErr),
}

/// What looking for the next captured frame in `s` gives: nothing where `s`
/// ends without another packet; the frame and the bytes behind its block; or
/// the fault of the first block that cannot be read. Blocks that hold no
/// packet are passed over.
pub open spec fn next_packet(s: Seq<u8>) -> Option<Result<(Seq<u8>, Seq<u8>), BlockErr>>
    decreases s.len(),
{
    if s.len() == 0 {
        None
    } else {
        match read_fault(s) {
            Some(e) => Some(Err(e)),
            None => if kind_of(u32_le(s, 0)) == Some(BlockKind::EnhancedPacket) {
                Some(Ok((s.subrange(28, 28 + captured_len(s)), s.skip(declared_len(s)))))
            } else {
                next_packet(s.skip(declared_len(s)))
            },
        }
    }
}

/// What a captured frame gives: the messages of its payload, or the reason
/// why there are none.
pub open spec fn decode_packet(frame: Seq<u8>) -> Result<Seq<IexMessage>, CaptureErr> {
    match frame_fault(frame) {
        Some(e) => Err(CaptureErr::Frame(e)),
        None => match IexPayload::decode_messages(frame_payload(frame)) {
            Err(e) => Err(CaptureErr::Feed(e)),
            Ok(msgs) => Ok(msgs),
        },
    }
}

/// A cursor over a capture that yields the payloads of its packets, one by
/// one and in the order of the capture. Its view is the part of the capture
/// that it has not read yet.
#[derive(Debug)]
pub struct IexParser<'a> {
    pcap_buffer: &'a [u8],
}

impl<'a> View for IexParser<'a> {
    type V = Seq<u8>;

    closed spec fn view(&self) -> Seq<u8> {
        self.pcap_buffer@
    }
}

impl<'a> IexParser<'a> {
    /// A cursor at the start of a capture.
    pub fn new(pcap_buffer: &'a [u8]) -> (parser: IexParser<'a>)
        ensures
            parser@ == pcap_buffer@,
    {
        IexParser { pcap_buffer }
    }

    /// The payload of the next packet of the capture. `None` where the
    /// capture has ended. After a block that cannot be read the cursor is at
    /// the end of the capture, since nothing tells where the next block
    /// starts; after a frame or a payload that cannot be decoded it is behind
    /// the block that held it.
    pub fn next(&mut self) -> (r: Option<Result<IexPayload, CaptureErr>>)
        ensures
            match next_packet(old(self)@) {
                None => r is None && final(self)@.len() == 0,
                Some(Err(e)) => {
                    &&& r matches Some(Err(found))
                    &&& found == CaptureErr::Block(e)
                    &&& final(self)@.len() == 0
                },
                Some(Ok((frame, rest))) => {
                    &&& final(self)@ == rest
                    &&& match decode_packet(frame) {
                        Err(e) => r matches Some(Err(found)) && found == e,
                        Ok(msgs) => {
                            &&& r matches Some(Ok(payload))
                            &&& payload.messages@ == msgs
                            &&& payload.messages@.len() == payload.msg_count
                            &&& payload.has_header(frame_payload(frame))
                        },
                    }
                },
            },
    {
        let mut buffer: &'a [u8] = self.pcap_buffer;
        while buffer.len() > 0
            invariant
                next_packet(old(self)@) == next_packet(buffer@),
            decreases buffer@.len(),
        {
            match read_block(buffer) {
                Err(e) => {
                    self.pcap_buffer = tail(buffer, buffer.len());
                    return Some(Err(CaptureErr::Block(e)));
                },
                Ok((rem, block)) => {
                    match block {
                        Block::EnhancedPacket(e) => {
                            self.pcap_buffer = rem;
                            let iex_data = match extract_iex_data(e.packet_data) {
                                Ok((_, iex_data)) => iex_data,
                                Err(e) => {
                                    return Some(Err(CaptureErr::Frame(e)));
                                },
                            };
                            return match IexPayload::parse(iex_data) {
                                Ok((_, payload)) => Some(Ok(payload)),
                                Err(e) => Some(Err(CaptureErr::Feed(e))),
                            };
                        },
                        _ => {
                            buffer = rem;
                        },
                    }
                },
            }
        }
        self.pcap_buffer = buffer;
        None
    }
}

/// The number of frames that `s` is made of, where it is made of whole
/// frames and nothing else.
pub open spec fn frames_in(s: Seq<u8>) -> Option<nat>
    decreases s.len(),
{
    if s.len() == 0 {
        Some(0)
    } else if !framed(s) {
        None
    } else {
        match frames_in(after_frame(s)) {
            Some(n) => Some(n + 1),
            None => None,
        }
    }
}

/// Whether each of the first `n` frames of `s` holds a message, as far as
/// `s` has whole frames.
pub open spec fn messages_until(s: Seq<u8>, n: nat) -> bool
    decreases n,
{
    n == 0 || !framed(s) || (body_fault(frame_body(s)) is None && messages_until(
        after_frame(s),
        (n - 1) as nat,
    ))
}

/// Reading `n` frames is reading the first and then `n - 1` from behind it.
pub proof fn lemma_counted_front(s: Seq<u8>, n: nat)
    requires
        n > 0,
    ensures
        decode_counted(s, n) == match IexMessage::decode_frame(s) {
            Err(e) => Err::<(Seq<IexMessage>, Seq<u8>), FeedErr>(counted_fault(s, e)),
            Ok((m, after)) => match decode_counted(after, (n - 1) as nat) {
                Err(e) => Err(e),
                Ok((msgs, rest)) => Ok((seq![m] + msgs, rest)),
            },
        },
    decreases n,
{
    if n == 1 {
        assert(decode_counted(s, 0) == Ok::<(Seq<IexMessage>, Seq<u8>), FeedErr>(
            (Seq::empty(), s),
        ));
        match IexMessage::decode_frame(s) {
            Err(e) => {},
            Ok((m, after)) => {
                assert(Seq::<IexMessage>::empty().push(m) =~= seq![m] + Seq::<IexMessage>::empty());
            },
        }
    } else {
        lemma_counted_front(s, (n - 1) as nat);
        match IexMessage::decode_frame(s) {
            Err(e) => {},
            Ok((m, after)) => {
                match decode_counted(after, (n - 2) as nat) {
                    Err(e) => {},
                    Ok((msgs, rest)) => {
                        match IexMessage::decode_frame(rest) {
                            Err(e) => {},
                            Ok((last, behind)) => {
                                assert((seq![m] + msgs).push(last) =~= seq![m] + msgs.push(last));
                            },
                        }
                    },
                }
            },
        }
    }
}

/// Where `s` is not made of exactly `n` frames, reading `n` frames from it
/// fails or leaves bytes over; and where each frame that is there holds a
/// message, the failure is that the count does not match.
pub proof fn lemma_counted_mismatch(s: Seq<u8>, n: nat)
    requires
        frames_in(s) != Some(n),
    ensures
        match decode_counted(s, n) {
            Err(e) => messages_until(s, n) ==> e == FeedErr::PayloadLengthMismatch,
            Ok((_, rest)) => rest.len() > 0,
        },
    decreases n,
{
    if n > 0 {
        lemma_counted_front(s, n);
        if framed(s) && body_fault(frame_body(s)) is None {
            lemma_counted_mismatch(after_frame(s), (n - 1) as nat);
        }
    }
}

/// A payload whose declared count of messages is not the number of
/// length-prefixed messages that follow its header is never decoded; and
/// where each frame that is there holds a message, it is refused for that
/// mismatch.
pub proof fn lemma_count_mismatch(payload: Seq<u8>)
    requires
        payload.len() >= 40,
        frames_in(payload.skip(40)) != Some(u16_le(payload, 14) as nat),
    ensures
        IexPayload::decode_messages(payload) is Err,
        messages_until(payload.skip(40), u16_le(payload, 14) as nat)
            ==> IexPayload::decode_messages(payload) == Err::<Seq<IexMessage>, FeedErr>(
            FeedErr::PayloadLengthMismatch,
        ),
{
    lemma_counted_mismatch(payload.skip(40), u16_le(payload, 14) as nat);
}

} // verus!
