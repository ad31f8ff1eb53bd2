use jheap_histo::timestamp::{choose_timestamp, resolve_timestamp, timestamp_of_name};
use jheap_histo::{
    Expected, FileTimes, HistogramWithTimestamp, HistogramWithTimestampFromFileError,
    ParseErrorKind, Timestamp, Title,
};

fn at(seconds: i64, nanoseconds: u32) -> Timestamp {
    Timestamp { seconds, nanoseconds }
}

fn no_times() -> FileTimes {
    FileTimes { created: None, modified: None }
}

fn dump() -> &'static str {
    " num     #instances         #bytes  class name\n-----\n   1:  2  3  Foo\n"
}

#[test]
fn name_in_rfc3339_is_the_timestamp_whatever_the_file_times_say() {
    let times = FileTimes { created: Some(at(11, 12)), modified: Some(at(13, 14)) };
    let name = Some("1996-12-19T16:39:57-08:00");
    assert_eq!(at(851042397, 0), resolve_timestamp(name, times).unwrap());
    assert_eq!(at(851042397, 0), resolve_timestamp(name, no_times()).unwrap());
    assert_eq!(
        at(851042397, 0),
        resolve_timestamp(name, FileTimes { created: None, modified: Some(at(13, 14)) }).unwrap()
    );
}

#[test]
fn name_in_rfc3339_is_read_in_utc() {
    assert_eq!(at(1600000000, 0), timestamp_of_name(Some("2020-09-13T12:26:40Z")).unwrap());
    assert_eq!(at(1600000000, 0), timestamp_of_name(Some("2020-09-13T14:26:40+02:00")).unwrap());
    assert_eq!(at(1600000000, 0), timestamp_of_name(Some("2020-09-13t12:26:40z")).unwrap());
    assert_eq!(at(-1, 0), timestamp_of_name(Some("1969-12-31T23:59:59Z")).unwrap());
    assert_eq!(at(0, 0), timestamp_of_name(Some("1970-01-01T00:00:00+00:00")).unwrap());
}

#[test]
fn name_in_rfc3339_keeps_fractions_of_a_second() {
    assert_eq!(
        at(1600000000, 123456789),
        timestamp_of_name(Some("2020-09-13T12:26:40.123456789Z")).unwrap()
    );
    assert_eq!(
        at(1600000000, 500000000),
        timestamp_of_name(Some("2020-09-13T12:26:40.5+00:00")).unwrap()
    );
    assert_eq!(
        at(1483228799, 1_000_000_000),
        timestamp_of_name(Some("2016-12-31T23:59:60Z")).unwrap()
    );
}

#[test]
fn name_that_is_no_date_falls_back_to_the_time_of_modification() {
    let times = FileTimes { created: None, modified: Some(at(1600000000, 250)) };
    assert_eq!(
        at(1600000000, 250),
        resolve_timestamp(Some("sample_histo_with_header"), times).unwrap()
    );
    assert_eq!(at(1600000000, 250), resolve_timestamp(Some(""), times).unwrap());
    assert_eq!(at(1600000000, 250), resolve_timestamp(Some("2020-09-13"), times).unwrap());
    assert_eq!(at(1600000000, 250), resolve_timestamp(None, times).unwrap());
}

#[test]
fn time_of_creation_comes_before_the_time_of_modification() {
    let times = FileTimes { created: Some(at(5, 6)), modified: Some(at(7, 8)) };
    assert_eq!(at(5, 6), resolve_timestamp(Some("heap.histo"), times).unwrap());
    assert_eq!(at(5, 6), resolve_timestamp(None, times).unwrap());
    let times = FileTimes { created: Some(at(5, 6)), modified: None };
    assert_eq!(at(5, 6), resolve_timestamp(Some("heap.histo"), times).unwrap());
}

#[test]
fn without_date_and_file_times_there_is_no_timestamp() {
    let e = resolve_timestamp(Some("heap.histo"), no_times()).unwrap_err();
    assert!(matches!(e, HistogramWithTimestampFromFileError::FilenameNotDateTimeError(_)));
    assert_eq!("Filename not parseable as DateTime", e.message());
    let e = resolve_timestamp(Some("2020-13-13T12:26:40Z"), no_times()).unwrap_err();
    assert!(matches!(e, HistogramWithTimestampFromFileError::FilenameNotDateTimeError(_)));
}

#[test]
fn without_a_name_and_file_times_the_name_is_blamed() {
    let e = resolve_timestamp(None, no_times()).unwrap_err();
    assert!(matches!(e, HistogramWithTimestampFromFileError::FilenameNotStringError));
    assert_eq!("Filename not useable as String", e.message());
}

#[test]
fn timestamp_of_name_tells_why_a_name_is_no_date() {
    assert!(matches!(
        timestamp_of_name(None),
        Err(HistogramWithTimestampFromFileError::FilenameNotStringError)
    ));
    match timestamp_of_name(Some("2020-09-13T12:26:40")) {
        Err(HistogramWithTimestampFromFileError::FilenameNotDateTimeError(e)) => {
            assert_eq!(chrono::format::ParseErrorKind::TooShort, e.kind())
        }
        other => panic!("{:?}", other),
    }
    match timestamp_of_name(Some("2020-09-13T12:26:40Zx")) {
        Err(HistogramWithTimestampFromFileError::FilenameNotDateTimeError(e)) => {
            assert_eq!(chrono::format::ParseErrorKind::TooLong, e.kind())
        }
        other => panic!("{:?}", other),
    }
}

#[test]
fn choose_timestamp_takes_the_first_that_there_is() {
    let both = FileTimes { created: Some(at(1, 2)), modified: Some(at(3, 4)) };
    let failed = || Err(HistogramWithTimestampFromFileError::FilenameNotStringError);
    assert_eq!(at(9, 9), choose_timestamp(Ok(at(9, 9)), both).unwrap());
    assert_eq!(at(9, 9), choose_timestamp(Ok(at(9, 9)), no_times()).unwrap());
    assert_eq!(at(1, 2), choose_timestamp(failed(), both).unwrap());
    assert_eq!(
        at(3, 4),
        choose_timestamp(failed(), FileTimes { created: None, modified: Some(at(3, 4)) }).unwrap()
    );
    assert!(matches!(
        choose_timestamp(failed(), no_times()),
        Err(HistogramWithTimestampFromFileError::FilenameNotStringError)
    ));
    let io = Err(HistogramWithTimestampFromFileError::IoError(std::io::Error::new(
        std::io::ErrorKind::Other,
        "gone",
    )));
    assert!(matches!(
        choose_timestamp(io, no_times()),
        Err(HistogramWithTimestampFromFileError::IoError(_))
    ));
}

#[test]
fn from_source_joins_timestamp_and_histogram() {
    let r = HistogramWithTimestamp::from_source(
        Some("2020-09-13T12:26:40Z"),
        FileTimes { created: Some(at(1, 2)), modified: None },
        dump(),
    )
    .unwrap();
    assert_eq!(at(1600000000, 0), r.timestamp);
    assert_eq!(1, r.histogram.0.len());
    assert_eq!("Foo", r.histogram.0[0].class_name);
}

#[test]
fn from_source_without_a_timestamp_fails_before_parsing() {
    let e = HistogramWithTimestamp::from_source(Some("heap.histo"), no_times(), dump())
        .unwrap_err();
    assert!(matches!(e, HistogramWithTimestampFromFileError::FilenameNotDateTimeError(_)));
    let e = HistogramWithTimestamp::from_source(Some("heap.histo"), no_times(), "no dump")
        .unwrap_err();
    assert!(matches!(e, HistogramWithTimestampFromFileError::FilenameNotDateTimeError(_)));
    let e = HistogramWithTimestamp::from_source(None, no_times(), "no dump").unwrap_err();
    assert!(matches!(e, HistogramWithTimestampFromFileError::FilenameNotStringError));
}

#[test]
fn from_source_with_a_text_that_is_no_dump_is_a_parse_error() {
    let times = FileTimes { created: None, modified: Some(at(7, 8)) };
    let e = HistogramWithTimestamp::from_source(Some("heap.histo"), times, " num #bytes")
        .unwrap_err();
    assert_eq!("Failed to parse Histogram data", e.message());
    match e {
        HistogramWithTimestampFromFileError::ParseError(p) => {
            assert_eq!(Expected::Title(Title::Instances), p.expected);
            assert_eq!(ParseErrorKind::Unexpected, p.kind);
            assert_eq!((5, 0, 5), (p.offset, p.line, p.column));
        }
        other => panic!("{:?}", other),
    }
}

#[test]
fn from_loaded_reports_what_could_not_be_read() {
    let times = FileTimes { created: None, modified: Some(at(7, 8)) };
    let denied = || std::io::Error::new(std::io::ErrorKind::PermissionDenied, "denied");
    let e = HistogramWithTimestamp::from_loaded(
        Some("2020-09-13T12:26:40Z"),
        Err(denied()),
        Ok(times),
    )
    .unwrap_err();
    assert_eq!("Failed to read Histogram data", e.message());
    match e {
        HistogramWithTimestampFromFileError::IoError(io) => {
            assert_eq!(std::io::ErrorKind::PermissionDenied, io.kind())
        }
        other => panic!("{:?}", other),
    }
    let e = HistogramWithTimestamp::from_loaded(
        Some("2020-09-13T12:26:40Z"),
        Ok(dump().to_string()),
        Err(std::io::Error::new(std::io::ErrorKind::NotFound, "gone")),
    )
    .unwrap_err();
    match e {
        HistogramWithTimestampFromFileError::IoError(io) => {
            assert_eq!(std::io::ErrorKind::NotFound, io.kind())
        }
        other => panic!("{:?}", other),
    }
    let e = HistogramWithTimestamp::from_loaded(
        None,
        Err(denied()),
        Err(std::io::Error::new(std::io::ErrorKind::NotFound, "gone")),
    )
    .unwrap_err();
    match e {
        HistogramWithTimestampFromFileError::IoError(io) => {
            assert_eq!(std::io::ErrorKind::PermissionDenied, io.kind())
        }
        other => panic!("{:?}", other),
    }
}

#[test]
fn from_loaded_with_everything_read_is_from_source() {
    let times = FileTimes { created: None, modified: Some(at(7, 8)) };
    let r = HistogramWithTimestamp::from_loaded(
        Some("heap.histo"),
        Ok(dump().to_string()),
        Ok(times),
    )
    .unwrap();
    assert_eq!(
        HistogramWithTimestamp::from_source(Some("heap.histo"), times, dump()).unwrap(),
        r
    );
    assert_eq!(at(7, 8), r.timestamp);
}
