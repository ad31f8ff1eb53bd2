//! The moment a dump was taken: read from the name of its source where the
//! name is an RFC 3339 date and time, and from the file times of the source
//! where it is not.

use vstd::prelude::*;
use crate::histo::HistogramParseError;

verus! {

/// The error of chrono's parsers, carried as it came.
#[verifier::external_type_specification]
#[verifier::external_body]
pub struct ExChronoParseError(chrono::format::ParseError);

/// The error of std's input and output, carried as it came.
#[verifier::external_type_specification]
#[verifier::external_body]
pub struct ExIoError(std::io::Error);

/// A moment in UTC: the seconds since 1970-01-01T00:00:00Z, leap seconds not
/// counted, and the nanoseconds since the last full second.
#[derive(Debug, Clone, Copy, PartialEq, Eq, Structural)]
pub struct Timestamp {
    pub seconds: i64,
    pub nanoseconds: u32,
}

/// The times that a file system keeps of a file, as far as it tells them.
#[derive(Debug, Clone, Copy, PartialEq, Eq, Structural)]
pub struct FileTimes {
    /// When the file was created.
    pub created: Option<Timestamp>,
    /// When the file was last written.
    pub modified: Option<Timestamp>,
}

/// Why no histogram with its timestamp could be had from a source.
#[derive(Debug)]
pub enum HistogramWithTimestampFromFileError {
    /// The source or its file times could not be read.
    IoError(std::io::Error),
    /// The text of the source is no dump.
    ParseError(HistogramParseError),
    /// The source has no name that is text, and its file times tell nothing.
    FilenameNotStringError,
    /// The name of the source is no date and time, and its file times tell
    /// nothing.
    FilenameNotDateTimeError(chrono::format::ParseError),
}

/// What chrono's `DateTime::parse_from_rfc3339` makes of `s`: the moment that
/// `s` writes down, as seconds and nanoseconds in UTC, or `None` where chrono
/// refuses `s`.
pub uninterp spec fn rfc3339_instant(s: Seq<char>) -> Option<(i64, u32)>;

/// The moment that `s` writes down in RFC 3339, if it does.
pub open spec fn name_timestamp(s: Seq<char>) -> Option<Timestamp> {
    match rfc3339_instant(s) {
        Some((seconds, nanoseconds)) => Some(Timestamp { seconds, nanoseconds }),
        None => None,
    }
}

/// Calls chrono's `DateTime::parse_from_rfc3339` on `s` and takes the moment
/// it returns as seconds (`timestamp`) and nanoseconds (`timestamp_subsec_nanos`)
/// in UTC. The contract only gives the outcome its name: the same text always
/// reads as the same moment, or is always refused.
#[verifier::external_body]
fn parse_rfc3339(s: &str) -> (r: Result<Timestamp, chrono::format::ParseError>)
    ensures
        rfc3339_instant(s@) == match r {
            Ok(t) => Some((t.seconds, t.nanoseconds)),
            Err(_) => None,
        },
{
    match chrono::DateTime::parse_from_rfc3339(s) {
        Ok(t) => Ok(Timestamp { seconds: t.timestamp(), nanoseconds: t.timestamp_subsec_nanos() }),
        Err(e) => Err(e),
    }
}

/// The timestamp of a source whose name reads as `from_name` and whose file
/// times are `times`: the first of the name, the creation time and the
/// modification time that there is.
pub open spec fn first_timestamp(from_name: Option<Timestamp>, times: FileTimes) -> Option<
    Timestamp,
> {
    match from_name {
        Some(t) => Some(t),
        None => match times.created {
            Some(t) => Some(t),
            None => times.modified,
        },
    }
}

/// The timestamp of a source named `name` with the file times `times`.
pub open spec fn resolved_timestamp(name: Option<Seq<char>>, times: FileTimes) -> Option<
    Timestamp,
> {
    first_timestamp(
        match name {
            Some(s) => name_timestamp(s),
            None => None,
        },
        times,
    )
}

/// A name that is a date and time is the timestamp, whatever the file times
/// say.
pub proof fn lemma_name_wins(name: Seq<char>, times: FileTimes)
    requires
        name_timestamp(name) is Some,
    ensures
        resolved_timestamp(Some(name), times) == name_timestamp(name),
{
}

/// Where the name is no date and time, the time of creation is the timestamp
/// if the file system tells it.
pub proof fn lemma_creation_time_comes_next(name: Option<Seq<char>>, times: FileTimes)
    requires
        name matches Some(s) ==> name_timestamp(s) is None,
        times.created is Some,
    ensures
        resolved_timestamp(name, times) == times.created,
{
}

/// Where the name is no date and time and the file system tells no time of
/// creation, the time of modification is the timestamp; without that one
/// there is no timestamp, and none is made up.
pub proof fn lemma_modification_time_comes_last(name: Option<Seq<char>>, times: FileTimes)
    requires
        name matches Some(s) ==> name_timestamp(s) is None,
        times.created is None,
    ensures
        resolved_timestamp(name, times) == times.modified,
{
}

/// Picks the timestamp of a source. `from_name` is what reading the name as a
/// date gave. Where it gave a moment, that is the timestamp. Where it gave an
/// error, the time of creation is the timestamp, or else the time of
/// modification; with neither, the error of the name is returned.
pub fn choose_timestamp(
    from_name: Result<Timestamp, HistogramWithTimestampFromFileError>,
    times: FileTimes,
) -> (r: Result<Timestamp, HistogramWithTimestampFromFileError>)
    ensures
        r == match from_name {
            Ok(t) => Ok::<Timestamp, HistogramWithTimestampFromFileError>(t),
            Err(e) => match times.created {
                Some(t) => Ok(t),
                None => match times.modified {
                    Some(t) => Ok(t),
                    None => Err(e),
                },
            },
        },
{
    match from_name {
        Ok(t) => Ok(t),
        Err(e) => match times.created {
            Some(t) => Ok(t),
            None => match times.modified {
                Some(t) => Ok(t),
                None => Err(e),
            },
        },
    }
}

/// Reads the name of a source as a date and time in RFC 3339. `None` stands
/// for a source without a name that is text.
pub fn timestamp_of_name(name: Option<&str>) -> (r: Result<
    Timestamp,
    HistogramWithTimestampFromFileError,
>)
    ensures
        match name {
            None => r is Err
                && r->Err_0 is FilenameNotStringError,
            Some(s) => match name_timestamp(s@) {
                Some(t) => r == Ok::<Timestamp, HistogramWithTimestampFromFileError>(t),
                None => r is Err && r->Err_0 is FilenameNotDateTimeError,
            },
        },
{
    match name {
        None => Err(HistogramWithTimestampFromFileError::FilenameNotStringError),
        Some(s) => match parse_rfc3339(s) {
            Ok(t) => Ok(t),
            Err(e) => Err(HistogramWithTimestampFromFileError::FilenameNotDateTimeError(e)),
        },
    }
}

/// The view of an optional name.
pub open spec fn name_view(name: Option<&str>) -> Option<Seq<char>> {
    match name {
        Some(s) => Some(s@),
        None => None,
    }
}

/// Resolves the timestamp of a source from its name and its file times. The
/// name wins where it is an RFC 3339 date and time, whatever the file times
/// say. Else the time of creation is taken, or else the time of modification.
/// With none of the three the source has no timestamp: the error is
/// `FilenameNotStringError` where the source has no name that is text, and
/// `FilenameNotDateTimeError` where it has one.
pub fn resolve_timestamp(name: Option<&str>, times: FileTimes) -> (r: Result<
    Timestamp,
    HistogramWithTimestampFromFileError,
>)
    ensures
        match resolved_timestamp(name_view(name), times) {
            Some(t) => r == Ok::<Timestamp, HistogramWithTimestampFromFileError>(t),
            None => r is Err && (name is None ==> r->Err_0 is FilenameNotStringError) && (name
                is Some ==> r->Err_0 is FilenameNotDateTimeError),
        },
{
    choose_timestamp(timestamp_of_name(name), times)
}

impl HistogramWithTimestampFromFileError {
    /// What the error says in words.
    pub open spec fn message_text(self) -> Seq<char> {
        match self {
            HistogramWithTimestampFromFileError::IoError(_) => "Failed to read Histogram data"@,
            HistogramWithTimestampFromFileError::ParseError(_) => "Failed to parse Histogram data"@,
            HistogramWithTimestampFromFileError::FilenameNotStringError => "Filename not useable as String"@,
            HistogramWithTimestampFromFileError::FilenameNotDateTimeError(_) => "Filename not parseable as DateTime"@,
        }
    }

    /// What the error says in words.
    pub fn message(&self) -> (text: String)
        ensures
            text@ == self.message_text(),
    {
        match self {
            HistogramWithTimestampFromFileError::IoError(_) => String::from_str(
                "Failed to read Histogram data",
            ),
            HistogramWithTimestampFromFileError::ParseError(_) => String::from_str(
                "Failed to parse Histogram data",
            ),
            HistogramWithTimestampFromFileError::FilenameNotStringError => String::from_str(
                "Filename not useable as String",
            ),
            HistogramWithTimestampFromFileError::FilenameNotDateTimeError(_) => String::from_str(
                "Filename not parseable as DateTime",
            ),
        }
    }
}

} // verus!
