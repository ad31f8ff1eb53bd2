//! A histogram together with the moment it was taken, made from what was
//! loaded of a source: its name, its file times and its text.

use vstd::prelude::*;
use crate::grammar::document;
use crate::histo::Histogram;
use crate::timestamp::{
    name_view, resolve_timestamp, resolved_timestamp, FileTimes,
    HistogramWithTimestampFromFileError, Timestamp,
};

verus! {

/// The histogram of one dump and the moment the dump was taken, in UTC.
#[derive(Debug, PartialEq, Eq)]
pub struct HistogramWithTimestamp {
    pub timestamp: Timestamp,
    pub histogram: Histogram,
}

/// Whether `r` is what a source with this name, these file times and this
/// text gives: its timestamp and its histogram, or, where it has no timestamp,
/// the error of its name, or, where it has one and its text is no dump, the
/// error of the parser.
pub open spec fn is_acquired(
    r: Result<HistogramWithTimestamp, HistogramWithTimestampFromFileError>,
    name: Option<Seq<char>>,
    times: FileTimes,
    contents: Seq<char>,
) -> bool {
    match resolved_timestamp(name, times) {
        None => r is Err && (name is None ==> r->Err_0 is FilenameNotStringError) && (name
            is Some ==> r->Err_0 is FilenameNotDateTimeError),
        Some(timestamp) => match document(contents) {
            Err(f) => r is Err && r->Err_0 is ParseError && r->Err_0->ParseError_0.reports(
                contents,
                f,
            ),
            Ok((entries, stop)) => r is Ok && r->Ok_0.timestamp == timestamp
                && r->Ok_0.histogram@ == entries,
        },
    }
}

impl HistogramWithTimestamp {
    /// Makes the histogram with its timestamp from the name of a source, its
    /// file times and its text. `None` as the name stands for a source without
    /// a name that is text. The timestamp is resolved first: a source without
    /// one fails whatever its text holds.
    pub fn from_source(name: Option<&str>, times: FileTimes, contents: &str) -> (r: Result<
        HistogramWithTimestamp,
        HistogramWithTimestampFromFileError,
    >)
        ensures
            is_acquired(r, name_view(name), times, contents@),
    {
        let timestamp = match resolve_timestamp(name, times) {
            Ok(t) => t,
            Err(e) => { return Err(e); },
        };
        match Histogram::parse(contents) {
            Ok(histogram) => Ok(HistogramWithTimestamp { timestamp, histogram }),
            Err(e) => Err(HistogramWithTimestampFromFileError::ParseError(e)),
        }
    }

    /// Makes the histogram with its timestamp from the outcome of loading a
    /// source. A text that could not be read is an `IoError`, and so are file
    /// times that could not be read, in this order; with both read the result
    /// is that of `from_source`.
    pub fn from_loaded(
        name: Option<&str>,
        contents: Result<String, std::io::Error>,
        times: Result<FileTimes, std::io::Error>,
    ) -> (r: Result<HistogramWithTimestamp, HistogramWithTimestampFromFileError>)
        ensures
            match contents {
                Err(e) => r == Err::<
                    HistogramWithTimestamp,
                    HistogramWithTimestampFromFileError,
                >(HistogramWithTimestampFromFileError::IoError(e)),
                Ok(text) => match times {
                    Err(e) => r == Err::<
                        HistogramWithTimestamp,
                        HistogramWithTimestampFromFileError,
                    >(HistogramWithTimestampFromFileError::IoError(e)),
                    Ok(t) => is_acquired(r, name_view(name), t, text@),
                },
            },
    {
        let text = match contents {
            Ok(text) => text,
            Err(e) => { return Err(HistogramWithTimestampFromFileError::IoError(e)); },
        };
        let file_times = match times {
            Ok(t) => t,
            Err(e) => { return Err(HistogramWithTimestampFromFileError::IoError(e)); },
        };
        HistogramWithTimestamp::from_source(name, file_times, text.as_str())
    }
}

} // verus!
