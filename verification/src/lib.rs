//! Heap-histogram dumps of a JVM, as `jmap -histo` prints them: parsing a dump
//! into typed entries, and finding the moment the dump was taken from the name
//! and the file times of its source.

pub mod chars;
pub mod grammar;
pub mod histo;
pub mod ingest;
pub mod laws;
pub mod moved;
pub mod parser;
pub mod render;
pub mod rendered;
pub mod source;
pub mod timestamp;
pub mod written;

pub use histo::{
    Entry, EntryView, Expected, Histogram, HistogramParseError, ParseErrorKind, Title,
};
pub use source::HistogramWithTimestamp;
pub use timestamp::{FileTimes, HistogramWithTimestampFromFileError, Timestamp};
