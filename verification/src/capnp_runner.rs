//! The segmented backend: framing of a stream of segmented messages without
//! copying them.
//!
//! A message on the wire is a segment table followed by the segments, all in
//! words of eight bytes. The table is a run of little-endian 32-bit values:
//! the number of segments less one, then the length of each segment in
//! words, then four bytes of padding where that run would otherwise end in
//! the middle of a word. From the table alone follow the place of every
//! segment and the number of bytes that the message occupies, so that a
//! reader can hand out views into the buffer and step to the next message.
use vstd::prelude::*;
use crate::codec::{fold, fold_records, records_of, BookRecord, ReadErr};
use crate::stream::StreamVec;
use crate::summary::Summarizer;
use crate::wire::{read_u32_le, tail, u32_le};

verus! {

/// Why a segment table was refused.
#[derive(Debug, Clone, Copy, PartialEq, Eq, Structural)]
pub enum SegmentErr {
    /// Fewer bytes are present than the table or the segments need.
    Truncated,
    /// The table declares 512 segments or more.
    TooManySegments,
    /// The table declares no segment at all.
    TooFewSegments,
    /// The segments hold more words than the reader is willing to traverse.
    MessageTooLarge,
}

/// The number of segments from which on a table is refused.
pub const SEGMENT_LIMIT: usize = 512;

/// The bytes of a word.
pub const BYTES_PER_WORD: usize = 8;

/// The number of segments that a table declares: the stored value plus one,
/// in 32 bits.
pub open spec fn segment_count(s: Seq<u8>) -> int {
    (u32_le(s, 0) + 1) % 0x1_0000_0000
}

/// The bytes that the table of `count` segments occupies: the count and the
/// lengths, four bytes each, padded to whole words.
pub open spec fn table_bytes(count: int) -> int {
    if count > 1 {
        8 + (count / 2) * 8
    } else {
        8
    }
}

/// The words that lie before segment `i`: the sum of the lengths of the
/// segments before it.
pub open spec fn words_before(s: Seq<u8>, i: nat) -> int
    decreases i,
{
    if i == 0 {
        0
    } else {
        words_before(s, (i - 1) as nat) + u32_le(s, 4 * (i as int))
    }
}

/// Why the table at the front of `s` is refused, if it is.
pub open spec fn table_fault(s: Seq<u8>, limit: u64) -> Option<SegmentErr> {
    if s.len() < 8 {
        Some(SegmentErr::Truncated)
    } else if segment_count(s) >= 512 {
        Some(SegmentErr::TooManySegments)
    } else if segment_count(s) == 0 {
        Some(SegmentErr::TooFewSegments)
    } else if s.len() < table_bytes(segment_count(s)) {
        Some(SegmentErr::Truncated)
    } else if words_before(s, segment_count(s) as nat) > limit || words_before(
        s,
        segment_count(s) as nat,
    ) > usize::MAX {
        Some(SegmentErr::MessageTooLarge)
    } else {
        None
    }
}

/// The sum of the lengths never shrinks, and `n` lengths sum to less than
/// `n` times the largest 32-bit value plus one.
pub proof fn lemma_words_before_grows(s: Seq<u8>, i: nat, j: nat)
    requires
        i <= j,
        4 + 4 * j <= s.len(),
    ensures
        0 <= words_before(s, i) <= words_before(s, j) <= j * 0x1_0000_0000,
    decreases j,
{
    if j > 0 {
        if i < j {
            lemma_words_before_grows(s, i, (j - 1) as nat);
        } else {
            lemma_words_before_grows(s, (j - 1) as nat, (j - 1) as nat);
        }
    }
}

/// Reads the segment table at the front of `data`. Hands back the bytes
/// behind the table, the number of words in all segments, and for each
/// segment the words at which it starts and ends, counted from the end of
/// the table.
pub fn read_segment_table(data: &[u8], traversal_limit_in_words: u64) -> (r: Result<
    (&[u8], usize, Vec<(usize, usize)>),
    SegmentErr,
>)
    ensures
        match r {
            Ok((rest, total_words, segment_slices)) => {
                let count = segment_count(data@);
                &&& table_fault(data@, traversal_limit_in_words) is None
                &&& rest@ == data@.skip(table_bytes(count))
                &&& total_words == words_before(data@, count as nat)
                &&& segment_slices@.len() == count
                &&& forall|i: int|
                    0 <= i < count ==> (#[trigger] segment_slices@[i]) == (
                        words_before(data@, i as nat) as usize,
                        words_before(data@, (i + 1) as nat) as usize,
                    )
            },
            Err(e) => table_fault(data@, traversal_limit_in_words) == Some(e),
        },
{
    if data.len() < 8 {
        return Err(SegmentErr::Truncated);
    }
    // the first word holds the number of segments and the first length
    let count: usize = read_u32_le(data, 0).wrapping_add(1) as usize;
    if count >= SEGMENT_LIMIT {
        return Err(SegmentErr::TooManySegments);
    } else if count == 0 {
        return Err(SegmentErr::TooFewSegments);
    }
    let table_len: usize = if count > 1 {
        8 + (count / 2) * 8
    } else {
        8
    };
    if data.len() < table_len {
        return Err(SegmentErr::Truncated);
    }
    let mut segment_slices: Vec<(usize, usize)> = Vec::with_capacity(count);
    let mut total_words: u64 = 0;
    let mut idx: usize = 0;
    while idx < count
        invariant
            idx <= count,
            count == segment_count(data@),
            0 < count < 512,
            table_len == table_bytes(count as int),
            table_len <= data@.len(),
            total_words == words_before(data@, idx as nat),
            total_words <= traversal_limit_in_words,
            total_words <= usize::MAX,
            segment_slices@.len() == idx,
            forall|i: int|
                0 <= i < idx ==> (#[trigger] segment_slices@[i]) == (
                    words_before(data@, i as nat) as usize,
                    words_before(data@, (i + 1) as nat) as usize,
                ),
        decreases count - idx,
    {
        let segment_len: u64 = read_u32_le(data, 4 + idx * 4) as u64;
        proof {
            lemma_words_before_grows(data@, (idx + 1) as nat, count as nat);
        }
        let end: u64 = total_words + segment_len;
        // A message that the receiver could not traverse within its limit is
        // refused before anything is made of its lengths.
        if end > traversal_limit_in_words || end > usize::MAX as u64 {
            return Err(SegmentErr::MessageTooLarge);
        }
        segment_slices.push((total_words as usize, end as usize));
        total_words = end;
        idx = idx + 1;
    }
    Ok((tail(data, table_len), total_words as usize, segment_slices))
}

/// The segments of one message as views into the buffer that holds it: the
/// bytes behind the segment table, and for each segment the words at which
/// it starts and ends.
#[derive(Debug)]
pub struct SliceSegments<'a> {
    pub words: &'a [u8],
    pub segment_slices: Vec<(usize, usize)>,
}

impl<'a> SliceSegments<'a> {
    /// Whether segment `id` exists and lies within the bytes.
    pub open spec fn holds(&self, id: int) -> bool {
        &&& 0 <= id < self.segment_slices@.len()
        &&& self.segment_slices@[id].0 <= self.segment_slices@[id].1
        &&& self.segment_slices@[id].1 * 8 <= self.words@.len()
    }

    /// The bytes of segment `id`, borrowed from the buffer; `None` where the
    /// message has no such segment or the buffer ends before the segment
    /// does.
    pub fn get_segment(&self, id: u32) -> (segment: Option<&'a [u8]>)
        ensures
            match segment {
                Some(bytes) => self.holds(id as int) && bytes@ == self.words@.subrange(
                    self.segment_slices@[id as int].0 * 8,
                    self.segment_slices@[id as int].1 * 8,
                ),
                None => !self.holds(id as int),
            },
    {
        if (id as usize) < self.segment_slices.len() {
            let (a, b) = self.segment_slices[id as usize];
            if a <= b && b <= self.words.len() / BYTES_PER_WORD {
                Some(vstd::slice::slice_subrange(self.words, a * 8, b * 8))
            } else {
                None
            }
        } else {
            None
        }
    }

    /// The number of segments.
    pub fn len(&self) -> (n: usize)
        ensures
            n == self.segment_slices@.len(),
    {
        self.segment_slices.len()
    }
}

/// `capnp::message::ReaderOptions::new`: the traversal limit of the default
/// reader options, eight mebiwords.
#[verifier::external_body]
fn default_traversal_limit() -> (limit: u64)
    ensures
        limit == 8 * 1024 * 1024,
{
    capnp::message::ReaderOptions::new().traversal_limit_in_words
}

/// What framing the message at the front of `s` gives: the bytes that it
/// occupies, table and segments, or the reason why it cannot be framed.
pub open spec fn frame_len(s: Seq<u8>, limit: u64) -> Result<int, ReadErr<SegmentErr>> {
    if s.len() == 0 {
        Err(ReadErr::NoMoreData)
    } else {
        match table_fault(s, limit) {
            Some(e) => Err(ReadErr::Malformed(e)),
            None => {
                let count = segment_count(s);
                let n = table_bytes(count) + 8 * words_before(s, count as nat);
                if n > s.len() {
                    Err(ReadErr::Malformed(SegmentErr::Truncated))
                } else {
                    Ok(n)
                }
            },
        }
    }
}

/// What taking a packed message off the front of `s` gives: the bytes that
/// unpacking took, or the end of the stream where `s` is empty.
pub open spec fn packed_frame_len(s: Seq<u8>, consumed: usize) -> Result<int, ReadErr<SegmentErr>> {
    if s.len() == 0 {
        Err(ReadErr::NoMoreData)
    } else {
        Ok(consumed as int)
    }
}

/// A message of one segment of `w` words occupies `8 + 8 * w` bytes, and its
/// table is never refused for the number of its segments.
pub proof fn lemma_single_segment(s: Seq<u8>, limit: u64)
    requires
        s.len() >= 8,
        u32_le(s, 0) == 0,
    ensures
        table_fault(s, limit) != Some(SegmentErr::TooManySegments),
        table_fault(s, limit) != Some(SegmentErr::TooFewSegments),
        u32_le(s, 4) <= limit && 8 + 8 * u32_le(s, 4) <= s.len() ==> frame_len(s, limit) == Ok::<
            int,
            ReadErr<SegmentErr>,
        >(8 + 8 * u32_le(s, 4)),
{
    assert(segment_count(s) == 1);
    assert(words_before(s, 1) == words_before(s, 0) + u32_le(s, 4));
}

/// A table that declares 512 segments or more is refused for that, whatever
/// follows its first word.
pub proof fn lemma_too_many_segments(s: Seq<u8>, limit: u64)
    requires
        s.len() >= 8,
        511 <= u32_le(s, 0) < 0xffff_ffff,
    ensures
        table_fault(s, limit) == Some(SegmentErr::TooManySegments),
{
}

/// Reads messages of the segmented format.
#[derive(Debug, Clone, Copy)]
pub struct CapnpReader {
    pub traversal_limit_in_words: u64,
    pub packed: bool,
}

impl CapnpReader {
    /// A reader with the default traversal limit, for the packed or the
    /// plain form of the format.
    pub fn new(packed: bool) -> (reader: CapnpReader)
        ensures
            reader.packed == packed,
            reader.traversal_limit_in_words == 8 * 1024 * 1024,
    {
        CapnpReader { traversal_limit_in_words: default_traversal_limit(), packed }
    }

    /// Frames the message at the front of `data`: hands back views of its
    /// segments and the number of bytes that it occupies, table included.
    /// Nothing is copied but the table.
    pub fn frame<'a>(&self, data: &'a [u8]) -> (r: Result<
        (SliceSegments<'a>, usize),
        ReadErr<SegmentErr>,
    >)
        ensures
            match r {
                Ok((segments, bytes_consumed)) => {
                    let count = segment_count(data@);
                    &&& frame_len(data@, self.traversal_limit_in_words) == Ok::<
                        int,
                        ReadErr<SegmentErr>,
                    >(bytes_consumed as int)
                    &&& segments.words@ == data@.skip(table_bytes(count))
                    &&& segments.segment_slices@.len() == count
                    &&& forall|i: int| 0 <= i < count ==> #[trigger] segments.holds(i)
                    &&& forall|i: int|
                        0 <= i < count ==> (#[trigger] segments.segment_slices@[i]) == (
                            words_before(data@, i as nat) as usize,
                            words_before(data@, (i + 1) as nat) as usize,
                        )
                },
                Err(e) => frame_len(data@, self.traversal_limit_in_words) == Err::<
                    int,
                    ReadErr<SegmentErr>,
                >(e),
            },
    {
        if data.len() == 0 {
            return Err(ReadErr::NoMoreData);
        }
        let (words, num_words, offsets) = match read_segment_table(
            data,
            self.traversal_limit_in_words,
        ) {
            Ok(v) => v,
            Err(e) => {
                return Err(ReadErr::Malformed(e));
            },
        };
        let segment_table_bytes: usize = data.len() - words.len();
        if num_words > words.len() / BYTES_PER_WORD {
            return Err(ReadErr::Malformed(SegmentErr::Truncated));
        }
        let msg_bytes: usize = num_words * BYTES_PER_WORD;
        let bytes_consumed: usize = segment_table_bytes + msg_bytes;
        let segments = SliceSegments { words: words, segment_slices: offsets };
        proof {
            let count = segment_count(data@);
            assert forall|i: int| 0 <= i < count implies #[trigger] segments.holds(i) by {
                lemma_words_before_grows(data@, i as nat, (i + 1) as nat);
                lemma_words_before_grows(data@, (i + 1) as nat, count as nat);
            }
        }
        Ok((segments, bytes_consumed))
    }

    /// Takes one plain message off the front of `buf`: folds the records
    /// that were decoded from it into `stats` and advances `buf` by the
    /// bytes that the message occupies, as its segment table gives them. On
    /// an empty buffer it reports the end of the stream; on a message that
    /// cannot be framed it reports why. In both cases nothing changes.
    pub fn deserialize_unpacked(
        &self,
        buf: &mut StreamVec,
        stats: &mut Summarizer,
        records: &Vec<BookRecord>,
    ) -> (r: Result<(), ReadErr<SegmentErr>>)
        requires
            old(stats).wf(),
        ensures
            final(stats).wf(),
            match frame_len(old(buf)@, self.traversal_limit_in_words) {
                Ok(n) => {
                    &&& r == Ok::<(), ReadErr<SegmentErr>>(())
                    &&& 0 <= n <= old(buf)@.len()
                    &&& final(buf)@ == old(buf)@.skip(n)
                    &&& final(stats)@ == fold(old(stats)@, records_of(records@))
                },
                Err(e) => {
                    &&& r == Err::<(), ReadErr<SegmentErr>>(e)
                    &&& final(buf)@ == old(buf)@
                    &&& final(stats)@ == old(stats)@
                },
            },
    {
        let bytes_consumed: usize = match self.frame(buf.fill_buf()) {
            Ok((_, n)) => n,
            Err(e) => {
                return Err(e);
            },
        };
        fold_records(stats, records);
        buf.consume(bytes_consumed);
        Ok(())
    }

    /// Takes one message off the front of `buf`, in the form that this
    /// reader was made for. `packed_len` is the number of bytes that the
    /// packed message took; the plain form does not look at it, since there
    /// the segment table tells the length.
    pub fn deserialize(
        &self,
        buf: &mut StreamVec,
        stats: &mut Summarizer,
        records: &Vec<BookRecord>,
        packed_len: usize,
    ) -> (r: Result<(), ReadErr<SegmentErr>>)
        requires
            old(stats).wf(),
            self.packed ==> packed_len <= old(buf)@.len(),
        ensures
            final(stats).wf(),
            match self.message_len(old(buf)@, packed_len) {
                Ok(n) => {
                    &&& r == Ok::<(), ReadErr<SegmentErr>>(())
                    &&& 0 <= n <= old(buf)@.len()
                    &&& final(buf)@ == old(buf)@.skip(n)
                    &&& final(stats)@ == fold(old(stats)@, records_of(records@))
                },
                Err(e) => {
                    &&& r == Err::<(), ReadErr<SegmentErr>>(e)
                    &&& final(buf)@ == old(buf)@
                    &&& final(stats)@ == old(stats)@
                },
            },
    {
        if self.packed {
            self.deserialize_packed(buf, stats, records, packed_len)
        } else {
            self.deserialize_unpacked(buf, stats, records)
        }
    }

    /// The bytes that the message at the front of `s` occupies for this
    /// reader: what was taken in unpacking for the packed form, what the
    /// segment table gives for the plain form; on an empty `s` the end of
    /// the stream in either form.
    pub open spec fn message_len(&self, s: Seq<u8>, packed_len: usize) -> Result<
        int,
        ReadErr<SegmentErr>,
    > {
        if self.packed {
            packed_frame_len(s, packed_len)
        } else {
            frame_len(s, self.traversal_limit_in_words)
        }
    }

    /// Takes one packed message off the front of `buf`: folds the records
    /// that were unpacked from it into `stats` and advances `buf` by the
    /// `consumed` bytes that unpacking took. On an empty buffer it reports
    /// the end of the stream and changes nothing. The packed form is
    /// unpacked into segments of its own as it is read, so there is no view
    /// into the buffer to frame: how many bytes the message took is known
    /// only from unpacking it.
    pub fn deserialize_packed(
        &self,
        buf: &mut StreamVec,
        stats: &mut Summarizer,
        records: &Vec<BookRecord>,
        consumed: usize,
    ) -> (r: Result<(), ReadErr<SegmentErr>>)
        requires
            old(stats).wf(),
            consumed <= old(buf)@.len(),
        ensures
            final(stats).wf(),
            match packed_frame_len(old(buf)@, consumed) {
                Ok(n) => {
                    &&& r == Ok::<(), ReadErr<SegmentErr>>(())
                    &&& n == consumed
                    &&& final(buf)@ == old(buf)@.skip(n)
                    &&& final(stats)@ == fold(old(stats)@, records_of(records@))
                },
                Err(e) => {
                    &&& r == Err::<(), ReadErr<SegmentErr>>(e)
                    &&& final(buf)@ == old(buf)@
                    &&& final(stats)@ == old(stats)@
                },
            },
    {
        if buf.remaining() == 0 {
            return Err(ReadErr::NoMoreData);
        }
        fold_records(stats, records);
        buf.consume(consumed);
        Ok(())
    }
}

} // verus!
