//! The parser: executable readers for the parts of a dump, each stated against
//! the function of `grammar` that defines the part.

use vstd::prelude::*;
use crate::chars::{
    char_digit_value, char_is_digit, chars_of, is_digit, lemma_run_end, run_end, scan_run,
    string_of, CharClass,
};
use crate::grammar::{
    column_of, cut_short, decimal_value, document, entries_from, entry_at, header,
    lemma_entry_at_advances, line_of, literal_at, missing, missing_title, number_at, rule_at,
    title_at, Failure,
};
use crate::histo::{
    Entry, EntryView, Expected, Histogram, HistogramParseError, ParseErrorKind, Title,
};

verus! {

impl HistogramParseError {
    /// Whether the error tells of the failure `f` in the text `s`: the same
    /// place, by offset and by line and column, and the same cause.
    pub open spec fn reports(self, s: Seq<char>, f: Failure) -> bool {
        &&& self.offset == f.offset
        &&& self.line == line_of(s, f.offset)
        &&& self.column == column_of(s, f.offset)
        &&& self.expected == f.expected
        &&& self.kind == f.kind
    }
}

/// Whether a reader that returns a position did what the format asks.
pub open spec fn position_agrees(
    r: Result<usize, HistogramParseError>,
    s: Seq<char>,
    asked: Result<int, Failure>,
) -> bool {
    match asked {
        Ok(p) => r is Ok && r->Ok_0 == p && 0 <= p <= s.len(),
        Err(f) => r is Err && r->Err_0.reports(s, f),
    }
}

/// Whether a reader of a number did what the format asks.
pub open spec fn number_agrees(
    r: Result<(usize, usize), HistogramParseError>,
    s: Seq<char>,
    asked: Result<(nat, int), Failure>,
) -> bool {
    match asked {
        Ok((value, end)) => r is Ok && r->Ok_0.0 == value && r->Ok_0.1 == end && 0 <= end
            <= s.len(),
        Err(f) => r is Err && r->Err_0.reports(s, f),
    }
}

/// Whether a reader of a row did what the format asks.
pub open spec fn entry_agrees(
    r: Result<(Entry, usize), HistogramParseError>,
    s: Seq<char>,
    asked: Result<(EntryView, int), Failure>,
) -> bool {
    match asked {
        Ok((entry, end)) => r is Ok && r->Ok_0.0@ == entry && r->Ok_0.1 == end && 0 <= end
            <= s.len(),
        Err(f) => r is Err && r->Err_0.reports(s, f),
    }
}

/// Whether a reader of rows did what the format asks.
pub open spec fn histogram_agrees(
    r: Result<(Histogram, usize), HistogramParseError>,
    s: Seq<char>,
    asked: Result<(Seq<EntryView>, int), Failure>,
) -> bool {
    match asked {
        Ok((entries, stop)) => r is Ok && r->Ok_0.0@ == entries && r->Ok_0.1 == stop && 0 <= stop
            <= s.len(),
        Err(f) => r is Err && r->Err_0.reports(s, f),
    }
}

/// The entries read so far, followed by what reading the rest gives.
pub open spec fn followed_by(
    done: Seq<EntryView>,
    rest: Result<(Seq<EntryView>, int), Failure>,
) -> Result<(Seq<EntryView>, int), Failure> {
    match rest {
        Err(f) => Err(f),
        Ok((entries, stop)) => Ok((done + entries, stop)),
    }
}

impl Title {
    /// The characters of the title.
    pub fn chars(self) -> (v: Vec<char>)
        ensures
            v@ == self.text(),
    {
        reveal(Title::text);
        match self {
            Title::Num => vec!['n', 'u', 'm'],
            Title::Instances => vec!['#', 'i', 'n', 's', 't', 'a', 'n', 'c', 'e', 's'],
            Title::Bytes => vec!['#', 'b', 'y', 't', 'e', 's'],
            Title::ClassName => vec!['c', 'l', 'a', 's', 's', ' ', 'n', 'a', 'm', 'e'],
            Title::Module => vec!['(', 'm', 'o', 'd', 'u', 'l', 'e', ')'],
        }
    }
}

/// The line and the column of the place `offset` in `text`.
pub fn locate(text: &[char], offset: usize) -> (place: (usize, usize))
    requires
        offset <= text@.len(),
    ensures
        place.0 == line_of(text@, offset as int),
        place.1 == column_of(text@, offset as int),
{
    let mut line: usize = 0;
    let mut column: usize = 0;
    let mut i: usize = 0;
    while i < offset
        invariant
            i <= offset <= text@.len(),
            line == line_of(text@, i as int),
            column == column_of(text@, i as int),
            line <= i,
            column <= i,
        decreases offset - i,
    {
        if text[i] == '\n' {
            line = line + 1;
            column = 0;
        } else {
            column = column + 1;
        }
        i = i + 1;
    }
    (line, column)
}

/// The error for a failure at `offset`.
fn error_at(text: &[char], offset: usize, expected: Expected, kind: ParseErrorKind) -> (e:
    HistogramParseError)
    requires
        offset <= text@.len(),
    ensures
        e.reports(text@, (Failure { offset: offset as int, expected, kind })),
{
    let place = locate(text, offset);
    HistogramParseError { offset, line: place.0, column: place.1, expected, kind }
}

/// The error for something missing at `offset` that starts with one character.
fn error_missing(text: &[char], offset: usize, expected: Expected) -> (e: HistogramParseError)
    requires
        offset <= text@.len(),
    ensures
        e.reports(text@, missing(text@, offset as int, expected)),
{
    if offset >= text.len() {
        error_at(text, offset, expected, ParseErrorKind::EndOfInput)
    } else {
        error_at(text, offset, expected, ParseErrorKind::Unexpected)
    }
}

/// Reads `title` at `at`, with no whitespace before it.
fn match_title(text: &[char], at: usize, title: Title) -> (r: Result<usize, HistogramParseError>)
    requires
        at <= text@.len(),
    ensures
        literal_at(text@, at as int, title.text()) ==> r is Ok && r->Ok_0 == at
            + title.text().len() && at + title.text().len() <= text@.len(),
        !literal_at(text@, at as int, title.text()) ==> r is Err && r->Err_0.reports(
            text@,
            missing_title(text@, at as int, title),
        ),
{
    let literal = title.chars();
    let length = text.len();
    let mut k: usize = 0;
    while k < literal.len()
        invariant
            at <= text@.len(),
            length == text@.len(),
            literal@ == title.text(),
            k <= literal@.len(),
            at + k <= text@.len(),
            forall|j: int| 0 <= j < k ==> text@[at + j] == literal@[j],
        decreases literal@.len() - k,
    {
        if at + k >= length {
            proof {
                reveal(literal_at);
                assert(text@.subrange(at as int, text@.len() as int) =~= literal@.subrange(
                    0,
                    text@.len() - at,
                ));
                assert(cut_short(text@, at as int, literal@));
                assert(!literal_at(text@, at as int, literal@));
            }
            return Err(error_at(text, at, Expected::Title(title), ParseErrorKind::EndOfInput));
        }
        if text[at + k] != literal[k] {
            proof {
                reveal(literal_at);
                if cut_short(text@, at as int, literal@) {
                    assert(text@.subrange(at as int, text@.len() as int)[k as int]
                        == literal@.subrange(0, text@.len() - at)[k as int]);
                }
                if literal_at(text@, at as int, literal@) {
                    assert(text@.subrange(at as int, at + literal@.len())[k as int]
                        == literal@[k as int]);
                }
            }
            return Err(error_at(text, at, Expected::Title(title), ParseErrorKind::Unexpected));
        }
        k = k + 1;
    }
    proof {
        reveal(literal_at);
        assert(text@.subrange(at as int, at + literal@.len()) =~= literal@);
    }
    Ok(at + literal.len())
}

/// Reads whitespace and then `title`, from `at` on.
fn read_title(text: &[char], at: usize, title: Title) -> (r: Result<usize, HistogramParseError>)
    requires
        at <= text@.len(),
    ensures
        position_agrees(r, text@, title_at(text@, at as int, title)),
{
    let p = scan_run(text, at, CharClass::Whitespace);
    match_title(text, p, title)
}

/// Reads what follows the title `class name`: `(module)` if a `(` stands there,
/// and the rule.
fn read_rule(text: &[char], at: usize) -> (r: Result<usize, HistogramParseError>)
    requires
        at <= text@.len(),
    ensures
        position_agrees(r, text@, rule_at(text@, at as int)),
{
    let p = scan_run(text, at, CharClass::Whitespace);
    if p < text.len() && text[p] == '(' {
        match match_title(text, p, Title::Module) {
            Err(e) => Err(e),
            Ok(q) => {
                let d = scan_run(text, q, CharClass::Whitespace);
                Ok(scan_run(text, d, CharClass::Dash))
            },
        }
    } else {
        Ok(scan_run(text, p, CharClass::Dash))
    }
}

/// Reads the header of a dump: the position behind the rule under the titles.
pub fn header_parser(text: &[char]) -> (r: Result<usize, HistogramParseError>)
    ensures
        position_agrees(r, text@, header(text@)),
{
    let a = match read_title(text, 0, Title::Num) {
        Ok(p) => p,
        Err(e) => { return Err(e); },
    };
    let b = match read_title(text, a, Title::Instances) {
        Ok(p) => p,
        Err(e) => { return Err(e); },
    };
    let c = match read_title(text, b, Title::Bytes) {
        Ok(p) => p,
        Err(e) => { return Err(e); },
    };
    let d = match read_title(text, c, Title::ClassName) {
        Ok(p) => p,
        Err(e) => { return Err(e); },
    };
    read_rule(text, d)
}

/// More digits never make a smaller number.
pub proof fn lemma_decimal_value_grows(s: Seq<char>, from: int, mid: int, to: int)
    requires
        0 <= from <= mid <= to <= s.len(),
    ensures
        decimal_value(s.subrange(from, mid)) <= decimal_value(s.subrange(from, to)),
    decreases to - mid,
{
    if mid < to {
        lemma_decimal_value_grows(s, from, mid, to - 1);
        assert(s.subrange(from, to).drop_last() =~= s.subrange(from, to - 1));
    }
}

/// Reads an unsigned decimal integer at `at`: its value and the position behind
/// its last digit.
pub fn number_parser(text: &[char], at: usize) -> (r: Result<(usize, usize), HistogramParseError>)
    requires
        at <= text@.len(),
    ensures
        number_agrees(r, text@, number_at(text@, at as int)),
{
    let end = scan_run(text, at, CharClass::Digit);
    if end == at {
        return Err(error_missing(text, at, Expected::Integer));
    }
    proof {
        lemma_run_end(text@, at as int, CharClass::Digit);
    }
    let mut value: usize = 0;
    let mut i: usize = at;
    while i < end
        invariant
            at <= i <= end <= text@.len(),
            end == run_end(text@, at as int, CharClass::Digit),
            forall|k: int| at <= k < end ==> is_digit(#[trigger] text@[k]),
            value == decimal_value(text@.subrange(at as int, i as int)),
        decreases end - i,
    {
        let digit = char_digit_value(text[i]);
        proof {
            assert(text@.subrange(at as int, i + 1).drop_last() =~= text@.subrange(
                at as int,
                i as int,
            ));
        }
        if value > (usize::MAX - digit) / 10 {
            proof {
                lemma_decimal_value_grows(text@, at as int, i + 1, end as int);
            }
            return Err(error_at(text, at, Expected::Integer, ParseErrorKind::Overflow));
        }
        value = value * 10 + digit;
        i = i + 1;
    }
    Ok((value, end))
}

/// Reads one row: whitespace, then rank, `:`, instances, bytes and class name.
/// Returns the entry and the position behind its class name.
pub fn entry_parser(text: &[char], at: usize) -> (r: Result<(Entry, usize), HistogramParseError>)
    requires
        at <= text@.len(),
    ensures
        entry_agrees(
            r,
            text@,
            entry_at(text@, run_end(text@, at as int, CharClass::Whitespace)),
        ),
{
    let start = scan_run(text, at, CharClass::Whitespace);
    let (rank, a) = match number_parser(text, start) {
        Ok(found) => found,
        Err(e) => { return Err(e); },
    };
    if !(a < text.len() && text[a] == ':') {
        return Err(error_missing(text, a, Expected::Colon));
    }
    let q = scan_run(text, a + 1, CharClass::Whitespace);
    let (instances_count, b) = match number_parser(text, q) {
        Ok(found) => found,
        Err(e) => { return Err(e); },
    };
    let p = scan_run(text, b, CharClass::Whitespace);
    let (bytes, c) = match number_parser(text, p) {
        Ok(found) => found,
        Err(e) => { return Err(e); },
    };
    let from = scan_run(text, c, CharClass::Whitespace);
    let to = scan_run(text, from, CharClass::ClassName);
    if to == from {
        return Err(error_missing(text, from, Expected::ClassName));
    }
    let class_name = string_of(text, from, to);
    Ok((Entry { rank, instances_count, bytes, class_name }, to))
}

/// Reads a whole dump from its characters: the histogram, and the position
/// where reading stopped. What stands from there on was not read: it is the end
/// of the text, or something that is no row.
pub fn parse_chars(text: &[char]) -> (r: Result<(Histogram, usize), HistogramParseError>)
    ensures
        histogram_agrees(r, text@, document(text@)),
{
    let start = match header_parser(text) {
        Ok(p) => p,
        Err(e) => { return Err(e); },
    };
    let mut histogram = Histogram(Vec::new());
    let mut at: usize = start;
    proof {
        if let Ok((entries, stop)) = entries_from(text@, start as int) {
            assert(histogram@ + entries =~= entries);
        }
    }
    loop
        invariant
            at <= text@.len(),
            header(text@) is Ok,
            document(text@) == followed_by(histogram@, entries_from(text@, at as int)),
        decreases text@.len() - at,
    {
        let p = scan_run(text, at, CharClass::Whitespace);
        if p < text.len() && char_is_digit(text[p]) {
            proof {
                lemma_entry_at_advances(text@, p as int);
                lemma_run_end_at_end(text@, p as int);
            }
            match entry_parser(text, p) {
                Err(e) => { return Err(e); },
                Ok((entry, next)) => {
                    let ghost before = histogram@;
                    let ghost rest = entries_from(text@, next as int);
                    histogram.0.push(entry);
                    proof {
                        assert(histogram@ =~= before.push(entry@));
                        if let Ok((entries, stop)) = rest {
                            assert(before + (seq![entry@] + entries) =~= histogram@ + entries);
                        }
                    }
                    at = next;
                },
            }
        } else {
            proof {
                assert(histogram@ + Seq::<EntryView>::empty() =~= histogram@);
            }
            return Ok((histogram, p));
        }
    }
}

/// Whitespace ends at once where no whitespace stands.
pub proof fn lemma_run_end_at_end(s: Seq<char>, i: int)
    requires
        0 <= i < s.len(),
        is_digit(s[i]),
    ensures
        run_end(s, i, CharClass::Whitespace) == i,
{
}

impl Histogram {
    /// Parses the text of a dump. What follows the last row that could be read
    /// is left unread and is no error.
    pub fn parse(s: &str) -> (r: Result<Histogram, HistogramParseError>)
        ensures
            match document(s@) {
                Ok((entries, stop)) => r is Ok && r->Ok_0@ == entries,
                Err(f) => r is Err && r->Err_0.reports(s@, f),
            },
    {
        match Histogram::parse_prefix(s) {
            Ok((histogram, stop)) => Ok(histogram),
            Err(e) => Err(e),
        }
    }

    /// Parses the text of a dump, and tells how much of it was read: the
    /// number of characters before the place where reading stopped. What
    /// stands from there on is the end of the text, or something that is no
    /// row.
    pub fn parse_prefix(s: &str) -> (r: Result<(Histogram, usize), HistogramParseError>)
        ensures
            histogram_agrees(r, s@, document(s@)),
    {
        let text = chars_of(s);
        parse_chars(text.as_slice())
    }
}

} // verus!
