//! Decoding of a recorded depth-of-book market-data feed and its re-encoding
//! in interchangeable binary wire formats.
//!
//! The data flows through the modules in this order: [`parsers`] reads the
//! blocks of a capture and strips the headers of a captured frame, [`iex`]
//! decodes the feed's payload into typed messages, [`codec`] picks what a
//! wire format forwards of them, the backends ([`sbe_runner`] over
//! [`marketdata_sbe`], [`capnp_runner`], [`flatbuffers_runner`]) frame the
//! batches on the wire, [`stream`] is the buffer that they are read from, and
//! [`summary`] is the sink that decoded batches are folded into.
pub mod wire;
pub mod parsers;
pub mod iex;
pub mod summary;
pub mod stream;
pub mod marketdata_sbe;
pub mod codec;
pub mod sbe_runner;
pub mod capnp_runner;
pub mod flatbuffers_runner;

pub use codec::parse_symbol;
pub use stream::StreamVec;
pub use summary::{Summarizer, SummaryStats};
