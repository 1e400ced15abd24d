//! The size-prefixed backend: framing of a stream of messages that each
//! start with their own length.
//!
//! A message on the wire is a little-endian 32-bit length followed by as many
//! bytes as it declares. The length is the sole authority on where the next
//! message starts: nothing is looked for in the bytes themselves.
use vstd::prelude::*;
use crate::codec::{fold, fold_records, records_of, BookRecord, ReadErr};
use crate::stream::StreamVec;
use crate::summary::Summarizer;
use crate::wire::{read_u32_le, u32_le};

verus! {

/// Why a size-prefixed message was refused.
#[derive(Debug, Clone, Copy, PartialEq, Eq, Structural)]
pub enum PrefixErr {
    /// Fewer than the four bytes of a length are present.
    TruncatedPrefix,
    /// Fewer bytes follow the length than it declares.
    TruncatedMessage,
}

/// The bytes of the length that precedes a message.
pub const SIZE_PREFIX_LEN: usize = 4;

/// What framing the message at the front of `s` gives: the bytes that it
/// occupies, length included, or the reason why it cannot be framed.
pub open spec fn prefixed_len(s: Seq<u8>) -> Result<int, ReadErr<PrefixErr>> {
    if s.len() == 0 {
        Err(ReadErr::NoMoreData)
    } else if s.len() < 4 {
        Err(ReadErr::Malformed(PrefixErr::TruncatedPrefix))
    } else if s.len() < 4 + u32_le(s, 0) {
        Err(ReadErr::Malformed(PrefixErr::TruncatedMessage))
    } else {
        Ok(4 + u32_le(s, 0))
    }
}

/// Reads size-prefixed messages.
#[derive(Debug, Clone, Copy)]
pub struct FlatbuffersReader;

impl FlatbuffersReader {
    pub fn new() -> FlatbuffersReader {
        FlatbuffersReader {  }
    }

    /// Frames the message at the front of `data`: the number of bytes that
    /// it occupies, its length prefix included.
    pub fn frame(&self, data: &[u8]) -> (r: Result<usize, ReadErr<PrefixErr>>)
        ensures
            match r {
                Ok(n) => prefixed_len(data@) == Ok::<int, ReadErr<PrefixErr>>(n as int),
                Err(e) => prefixed_len(data@) == Err::<int, ReadErr<PrefixErr>>(e),
            },
    {
        if data.len() == 0 {
            return Err(ReadErr::NoMoreData);
        }
        if data.len() < SIZE_PREFIX_LEN {
            return Err(ReadErr::Malformed(PrefixErr::TruncatedPrefix));
        }
        let msg_len: usize = read_u32_le(data, 0) as usize;
        if data.len() - SIZE_PREFIX_LEN < msg_len {
            return Err(ReadErr::Malformed(PrefixErr::TruncatedMessage));
        }
        Ok(msg_len + SIZE_PREFIX_LEN)
    }

    /// Takes one message off the front of `buf`: folds the records that
    /// were decoded from it into `stats` and advances `buf` by the bytes
    /// that the message occupies, as its length prefix gives them. On an
    /// empty buffer it reports the end of the stream; on a message that
    /// cannot be framed it reports why. In both cases nothing changes.
    pub fn deserialize(
        &self,
        buf: &mut StreamVec,
        stats: &mut Summarizer,
        records: &Vec<BookRecord>,
    ) -> (r: Result<(), ReadErr<PrefixErr>>)
        requires
            old(stats).wf(),
        ensures
            final(stats).wf(),
            match prefixed_len(old(buf)@) {
                Ok(n) => {
                    &&& r == Ok::<(), ReadErr<PrefixErr>>(())
                    &&& 0 <= n <= old(buf)@.len()
                    &&& final(buf)@ == old(buf)@.skip(n)
                    &&& final(stats)@ == fold(old(stats)@, records_of(records@))
                },
                Err(e) => {
                    &&& r == Err::<(), ReadErr<PrefixErr>>(e)
                    &&& final(buf)@ == old(buf)@
                    &&& final(stats)@ == old(stats)@
                },
            },
    {
        let bytes_consumed: usize = match self.frame(buf.fill_buf()) {
            Ok(n) => n,
            Err(e) => {
                return Err(e);
            },
        };
        fold_records(stats, records);
        buf.consume(bytes_consumed);
        Ok(())
    }
}

} // verus!
