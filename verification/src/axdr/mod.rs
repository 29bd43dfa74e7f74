//! A-XDR — the encoding xDLMS uses for data.

pub mod compact;
pub mod data;
pub mod datetime;
pub mod laws;
pub mod unit;

pub use compact::{CompactArray, CompactLeaf, TypeDesc, MAX_COMPACT_NODES};
pub use data::{BitStr, Data, DataBuf, DataSeq, DataTag, SeqIter, MAX_DEPTH};
pub use datetime::{ClockStatus, Date, DateTime, Time, DEVIATION_NOT_SPECIFIED};
pub use unit::{ScaledValue, Unit};
