//! The histogram and its entries, and the error of a failed parse.

use vstd::prelude::*;

verus! {

/// One row of a histogram as a mathematical value.
pub struct EntryView {
    pub rank: nat,
    pub instances_count: nat,
    pub bytes: nat,
    pub class_name: Seq<char>,
}

/// One row of a histogram: the instances of a class and the bytes they take.
#[derive(Debug, PartialEq, Eq)]
pub struct Entry {
    /// The ordinal that the dump printed before the row.
    pub rank: usize,
    pub instances_count: usize,
    pub bytes: usize,
    /// The class name as printed, with any module annotation behind it.
    pub class_name: String,
}

impl View for Entry {
    type V = EntryView;

    open spec fn view(&self) -> EntryView {
        EntryView {
            rank: self.rank as nat,
            instances_count: self.instances_count as nat,
            bytes: self.bytes as nat,
            class_name: self.class_name@,
        }
    }
}

/// The rows of one dump, in the order of the dump.
#[derive(Debug, PartialEq, Eq)]
pub struct Histogram(pub Vec<Entry>);

impl View for Histogram {
    type V = Seq<EntryView>;

    open spec fn view(&self) -> Seq<EntryView> {
        Seq::new(self.0@.len(), |i: int| self.0@[i]@)
    }
}

/// The column titles of a dump.
#[derive(Debug, Clone, Copy, PartialEq, Eq, Structural)]
pub enum Title {
    /// `num`
    Num,
    /// `#instances`
    Instances,
    /// `#bytes`
    Bytes,
    /// `class name`
    ClassName,
    /// `(module)`, which only some dumps have
    Module,
}

/// What the parser needed at the place where it gave up.
#[derive(Debug, Clone, Copy, PartialEq, Eq, Structural)]
pub enum Expected {
    /// One of the column titles.
    Title(Title),
    /// The `:` behind a rank.
    Colon,
    /// An unsigned decimal integer.
    Integer,
    /// The class name of a row.
    ClassName,
}

/// Why the parser gave up.
#[derive(Debug, Clone, Copy, PartialEq, Eq, Structural)]
pub enum ParseErrorKind {
    /// The input ended before what was expected was complete.
    EndOfInput,
    /// Another character stood there.
    Unexpected,
    /// The digits stand for a number that `usize` cannot hold.
    Overflow,
}

/// A dump that does not follow the format: what was expected, and where.
#[derive(Debug, Clone, Copy, PartialEq, Eq, Structural)]
pub struct HistogramParseError {
    /// The number of characters before the place.
    pub offset: usize,
    /// The number of line feeds before the place: 0 on the first line.
    pub line: usize,
    /// The number of characters between the start of that line and the place.
    pub column: usize,
    pub expected: Expected,
    pub kind: ParseErrorKind,
}

impl HistogramParseError {
    /// What the error says in words.
    pub open spec fn message_text() -> Seq<char> {
        "Failed to parse histogram"@
    }

    /// What the error says in words. The place and the cause are in the fields.
    pub fn message(&self) -> (text: String)
        ensures
            text@ == Self::message_text(),
    {
        String::from_str("Failed to parse histogram")
    }
}

} // verus!
