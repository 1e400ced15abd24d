//! The capture container and the frames that it holds.
//!
//! A capture is a run of blocks. Every block starts with a four-byte type and
//! its own total length, and ends with that length once more; all integers
//! of the container are little-endian. Three kinds of block occur: a section
//! header, an interface description, and an enhanced packet, which holds one
//! captured frame. A frame is an Ethernet header, an IPv4 header and a UDP
//! header around the feed's payload.
use vstd::prelude::*;
use crate::wire::{read_u16_be, read_u32_le, read_u8, tail, u16_be, u32_le};

verus! {

/// Why a block could not be read.
#[derive(Debug, Clone, Copy, PartialEq, Eq, Structural)]
pub enum BlockErr {
    /// Fewer bytes remain than the block's type, its length, or the length
    /// that it declares requires.
    TruncatedBlock,
    /// The type of the block is none of the known ones.
    UnrecognizedBlockType,
    /// The block contradicts itself: its length is shorter than its own
    /// fixed part, the copy of the length at its end differs, a section
    /// header lacks the byte-order mark, or a packet is longer than the block
    /// that holds it.
    CorruptBlock,
}

/// Why a frame holds no payload.
#[derive(Debug, Clone, Copy, PartialEq, Eq, Structural)]
pub enum FrameErr {
    /// A header, or a length that a header declares, reaches past the end of
    /// the frame.
    TruncatedFrame,
    /// The link layer does not carry IPv4.
    UnsupportedProtocol,
}

/// The kinds of block.
#[derive(Debug, Clone, Copy, PartialEq, Eq, Structural)]
pub enum BlockKind {
    SectionHeader,
    InterfaceDescription,
    EnhancedPacket,
}

#[derive(Debug, Clone, Copy, PartialEq, Eq, Structural)]
pub struct SectionHeaderBlock {
    pub block_len: u32,
}

#[derive(Debug, Clone, Copy, PartialEq, Eq, Structural)]
pub struct InterfaceDescriptionBlock {
    pub block_len: u32,
}

#[derive(Debug, Clone, Copy)]
pub struct EnhancedPacketBlock<'a> {
    pub block_len: u32,
    pub packet_data: &'a [u8],
}

#[derive(Debug, Clone, Copy)]
pub enum Block<'a> {
    SectionHeader(SectionHeaderBlock),
    InterfaceDescription(InterfaceDescriptionBlock),
    EnhancedPacket(EnhancedPacketBlock<'a>),
}

/// The type of a section header block; its four bytes read the same in
/// either byte order.
pub const SECTION_HEADER: u32 = 0x0a0d0d0a;

/// The type of an interface description block.
pub const INTERFACE_DESCRIPTION: u32 = 1;

/// The type of an enhanced packet block.
pub const ENHANCED_PACKET: u32 = 6;

/// The byte-order mark of a section header, as a little-endian capture holds
/// it.
pub const BYTE_ORDER_MAGIC: u32 = 0x1a2b3c4d;

/// The kind that a block type names, if it is known.
pub open spec fn kind_of(block_type: int) -> Option<BlockKind> {
    if block_type == SECTION_HEADER {
        Some(BlockKind::SectionHeader)
    } else if block_type == INTERFACE_DESCRIPTION {
        Some(BlockKind::InterfaceDescription)
    } else if block_type == ENHANCED_PACKET {
        Some(BlockKind::EnhancedPacket)
    } else {
        None
    }
}

/// The bytes of the fixed part at the start of a block of a kind.
pub open spec fn header_len(kind: BlockKind) -> int {
    match kind {
        BlockKind::SectionHeader => 12,
        BlockKind::InterfaceDescription => 8,
        BlockKind::EnhancedPacket => 28,
    }
}

/// The length that the block at the start of `s` declares.
pub open spec fn declared_len(s: Seq<u8>) -> int {
    u32_le(s, 4)
}

/// The length of the frame that the enhanced packet block at the start of
/// `s` declares to hold.
pub open spec fn captured_len(s: Seq<u8>) -> int {
    u32_le(s, 20)
}

/// Why the bytes at the start of `s` are no block of `kind`, if they are
/// none. The type of the block is not looked at.
pub open spec fn block_fault(s: Seq<u8>, kind: BlockKind) -> Option<BlockErr> {
    if s.len() < 8 {
        Some(BlockErr::TruncatedBlock)
    } else if declared_len(s) < header_len(kind) + 4 {
        Some(BlockErr::CorruptBlock)
    } else if s.len() < declared_len(s) {
        Some(BlockErr::TruncatedBlock)
    } else if u32_le(s, declared_len(s) - 4) != declared_len(s) {
        Some(BlockErr::CorruptBlock)
    } else if kind == BlockKind::SectionHeader && u32_le(s, 8) != BYTE_ORDER_MAGIC {
        Some(BlockErr::CorruptBlock)
    } else if kind == BlockKind::EnhancedPacket && declared_len(s) < 32 + captured_len(s) {
        Some(BlockErr::CorruptBlock)
    } else {
        None
    }
}

/// Why the bytes at the start of `s` are no block, if they are none.
pub open spec fn read_fault(s: Seq<u8>) -> Option<BlockErr> {
    if s.len() < 4 {
        Some(BlockErr::TruncatedBlock)
    } else {
        match kind_of(u32_le(s, 0)) {
            None => Some(BlockErr::UnrecognizedBlockType),
            Some(kind) => block_fault(s, kind),
        }
    }
}

/// Why the bytes at the start of `s` are no block of `kind`, if they are
/// none: as [`read_fault`], but a block of another kind is refused as
/// unrecognized.
pub open spec fn kind_fault(s: Seq<u8>, kind: BlockKind) -> Option<BlockErr> {
    if s.len() < 4 {
        Some(BlockErr::TruncatedBlock)
    } else if kind_of(u32_le(s, 0)) != Some(kind) {
        Some(BlockErr::UnrecognizedBlockType)
    } else {
        block_fault(s, kind)
    }
}

impl<'a> Block<'a> {
    /// The kind of this block.
    pub open spec fn kind(&self) -> BlockKind {
        match self {
            Block::SectionHeader(_) => BlockKind::SectionHeader,
            Block::InterfaceDescription(_) => BlockKind::InterfaceDescription,
            Block::EnhancedPacket(_) => BlockKind::EnhancedPacket,
        }
    }

    /// The total length that this block declared.
    pub open spec fn block_len(&self) -> u32 {
        match self {
            Block::SectionHeader(b) => b.block_len,
            Block::InterfaceDescription(b) => b.block_len,
            Block::EnhancedPacket(b) => b.block_len,
        }
    }

    /// Whether this block is what the bytes at the start of `s` hold: it has
    /// their declared length, and a packet has the frame that lies behind
    /// the fixed part, exactly as long as its captured length says.
    pub open spec fn read_from(&self, s: Seq<u8>) -> bool {
        &&& self.block_len() == declared_len(s)
        &&& match self {
            Block::EnhancedPacket(b) => b.packet_data@ == s.subrange(28, 28 + captured_len(s)),
            _ => true,
        }
    }
}

/// Checks what all kinds of block have in common: hands back the declared
/// length of a block that is whole and agrees with the copy of the length at
/// its end.
fn block_frame(input: &[u8], fixed_len: usize) -> (r: Result<u32, BlockErr>)
    requires
        8 <= fixed_len <= 28,
    ensures
        match r {
            Ok(block_len) => {
                &&& input@.len() >= 8
                &&& block_len == declared_len(input@)
                &&& block_len >= fixed_len + 4
                &&& input@.len() >= block_len
                &&& u32_le(input@, block_len - 4) == block_len
            },
            Err(e) => {
                &&& e == if input@.len() < 8 {
                    BlockErr::TruncatedBlock
                } else if declared_len(input@) < fixed_len + 4 {
                    BlockErr::CorruptBlock
                } else if input@.len() < declared_len(input@) {
                    BlockErr::TruncatedBlock
                } else {
                    BlockErr::CorruptBlock
                }
                &&& input@.len() >= 8 && declared_len(input@) >= fixed_len + 4 && input@.len()
                    >= declared_len(input@) ==> u32_le(input@, declared_len(input@) - 4)
                    != declared_len(input@)
            },
        },
{
    if input.len() < 8 {
        return Err(BlockErr::TruncatedBlock);
    }
    let block_len: u32 = read_u32_le(input, 4);
    if (block_len as usize) < fixed_len + 4 {
        return Err(BlockErr::CorruptBlock);
    }
    if input.len() < block_len as usize {
        return Err(BlockErr::TruncatedBlock);
    }
    // the length is stored twice; the two copies must agree
    if read_u32_le(input, block_len as usize - 4) != block_len {
        return Err(BlockErr::CorruptBlock);
    }
    Ok(block_len)
}

/// Reads a section header block from the start of `input`; hands back the
/// bytes behind it and the block.
pub fn section_header_block(input: &[u8]) -> (r: Result<(&[u8], Block), BlockErr>)
    ensures
        match r {
            Ok((rest, block)) => {
                &&& kind_fault(input@, BlockKind::SectionHeader) is None
                &&& block.kind() == BlockKind::SectionHeader
                &&& block.read_from(input@)
                &&& rest@ == input@.skip(declared_len(input@))
            },
            Err(e) => kind_fault(input@, BlockKind::SectionHeader) == Some(e),
        },
{
    if input.len() < 4 {
        return Err(BlockErr::TruncatedBlock);
    }
    if read_u32_le(input, 0) != SECTION_HEADER {
        return Err(BlockErr::UnrecognizedBlockType);
    }
    let block_len: u32 = block_frame(input, 12)?;
    if read_u32_le(input, 8) != BYTE_ORDER_MAGIC {
        return Err(BlockErr::CorruptBlock);
    }
    Ok((tail(input, block_len as usize), Block::SectionHeader(SectionHeaderBlock { block_len })))
}

/// Reads an interface description block from the start of `input`; hands
/// back the bytes behind it and the block.
pub fn interface_description_block(input: &[u8]) -> (r: Result<(&[u8], Block), BlockErr>)
    ensures
        match r {
            Ok((rest, block)) => {
                &&& kind_fault(input@, BlockKind::InterfaceDescription) is None
                &&& block.kind() == BlockKind::InterfaceDescription
                &&& block.read_from(input@)
                &&& rest@ == input@.skip(declared_len(input@))
            },
            Err(e) => kind_fault(input@, BlockKind::InterfaceDescription) == Some(e),
        },
{
    if input.len() < 4 {
        return Err(BlockErr::TruncatedBlock);
    }
    if read_u32_le(input, 0) != INTERFACE_DESCRIPTION {
        return Err(BlockErr::UnrecognizedBlockType);
    }
    let block_len: u32 = block_frame(input, 8)?;
    Ok(
        (
            tail(input, block_len as usize),
            Block::InterfaceDescription(InterfaceDescriptionBlock { block_len }),
        ),
    )
}

/// Reads an enhanced packet block from the start of `input`; hands back the
/// bytes behind it and the block, which borrows the captured frame. The
/// frame is taken at its captured length; what lies between its end and the
/// end of the block is skipped.
pub fn enhanced_packet_block(input: &[u8]) -> (r: Result<(&[u8], Block), BlockErr>)
    ensures
        match r {
            Ok((rest, block)) => {
                &&& kind_fault(input@, BlockKind::EnhancedPacket) is None
                &&& block.kind() == BlockKind::EnhancedPacket
                &&& block.read_from(input@)
                &&& rest@ == input@.skip(declared_len(input@))
            },
            Err(e) => kind_fault(input@, BlockKind::EnhancedPacket) == Some(e),
        },
{
    if input.len() < 4 {
        return Err(BlockErr::TruncatedBlock);
    }
    if read_u32_le(input, 0) != ENHANCED_PACKET {
        return Err(BlockErr::UnrecognizedBlockType);
    }
    let block_len: u32 = block_frame(input, 28)?;
    let captured: u32 = read_u32_le(input, 20);
    if block_len - 32 < captured {
        return Err(BlockErr::CorruptBlock);
    }
    let packet_data = vstd::slice::slice_subrange(input, 28, 28 + captured as usize);
    Ok(
        (
            tail(input, block_len as usize),
            Block::EnhancedPacket(EnhancedPacketBlock { block_len, packet_data }),
        ),
    )
}

/// Reads the block at the start of `input`, of whatever kind it is; hands
/// back the bytes behind it and the block.
pub fn read_block(input: &[u8]) -> (r: Result<(&[u8], Block), BlockErr>)
    ensures
        match r {
            Ok((rest, block)) => {
                &&& read_fault(input@) is None
                &&& kind_of(u32_le(input@, 0)) == Some(block.kind())
                &&& block.read_from(input@)
                &&& rest@ == input@.skip(declared_len(input@))
            },
            Err(e) => read_fault(input@) == Some(e),
        },
{
    if input.len() < 4 {
        return Err(BlockErr::TruncatedBlock);
    }
    let block_type: u32 = read_u32_le(input, 0);
    if block_type == ENHANCED_PACKET {
        enhanced_packet_block(input)
    } else if block_type == SECTION_HEADER {
        section_header_block(input)
    } else if block_type == INTERFACE_DESCRIPTION {
        interface_description_block(input)
    } else {
        Err(BlockErr::UnrecognizedBlockType)
    }
}

/// The tag by which the link layer names IPv4.
pub const ETHERTYPE_IPV4: u16 = 0x0800;

/// The bytes of the link-layer header: two addresses and the protocol tag.
pub const ETHERNET_LEN: usize = 14;

/// The bytes of the transport header.
pub const UDP_HEADER_LEN: usize = 8;

/// The length of the network header of the frame `s`: the low four bits of
/// its first byte count its 32-bit words.
pub open spec fn ip_header_len(s: Seq<u8>) -> int {
    (s[14] as int % 16) * 4
}

/// Where the transport header of the frame `s` starts.
pub open spec fn udp_start(s: Seq<u8>) -> int {
    14 + ip_header_len(s)
}

/// The total length that the transport header of the frame `s` declares:
/// its own eight bytes and the payload.
pub open spec fn udp_len(s: Seq<u8>) -> int {
    u16_be(s, udp_start(s) + 4)
}

/// Why the frame `s` holds no payload, if it holds none.
pub open spec fn frame_fault(s: Seq<u8>) -> Option<FrameErr> {
    if s.len() < 14 {
        Some(FrameErr::TruncatedFrame)
    } else if u16_be(s, 12) != ETHERTYPE_IPV4 {
        Some(FrameErr::UnsupportedProtocol)
    } else if s.len() < 15 || s.len() < udp_start(s) + 8 {
        Some(FrameErr::TruncatedFrame)
    } else if udp_len(s) < 8 || s.len() < udp_start(s) + udp_len(s) {
        Some(FrameErr::TruncatedFrame)
    } else {
        None
    }
}

/// The payload of the frame `s`: what lies behind the transport header, as
/// long as that header says.
pub open spec fn frame_payload(s: Seq<u8>) -> Seq<u8> {
    s.subrange(udp_start(s) + 8, udp_start(s) + udp_len(s))
}

/// Strips the link-layer, network and transport headers from a captured
/// frame. Hands back what follows the payload in the frame, and the payload;
/// both are borrowed from the frame.
pub fn extract_iex_data(input: &[u8]) -> (r: Result<(&[u8], &[u8]), FrameErr>)
    ensures
        match r {
            Ok((rem, iex_data)) => {
                &&& frame_fault(input@) is None
                &&& iex_data@ == frame_payload(input@)
                &&& rem@ == input@.skip(udp_start(input@) + udp_len(input@))
            },
            Err(e) => frame_fault(input@) == Some(e),
        },
{
    // First step is the ethernet frame
    if input.len() < ETHERNET_LEN {
        return Err(FrameErr::TruncatedFrame);
    }
    if read_u16_be(input, 12) != ETHERTYPE_IPV4 {
        return Err(FrameErr::UnsupportedProtocol);
    }
    // Then the IP header
    if input.len() < ETHERNET_LEN + 1 {
        return Err(FrameErr::TruncatedFrame);
    }
    let header_words: u8 = read_u8(input, ETHERNET_LEN) % 16;
    let header_len: usize = header_words as usize * 4;
    let udp_at: usize = ETHERNET_LEN + header_len;
    if input.len() - ETHERNET_LEN < header_len || input.len() - udp_at < UDP_HEADER_LEN {
        return Err(FrameErr::TruncatedFrame);
    }
    // And finally, extract out of UDP
    let udp_len: usize = read_u16_be(input, udp_at + 4) as usize;
    if udp_len < UDP_HEADER_LEN || input.len() - udp_at < udp_len {
        return Err(FrameErr::TruncatedFrame);
    }
    let iex_data = vstd::slice::slice_subrange(input, udp_at + UDP_HEADER_LEN, udp_at + udp_len);
    Ok((tail(input, udp_at + udp_len), iex_data))
}

} // verus!
