//! The format of a dump, as functions on its characters.
//!
//! A dump starts with the column titles `num`, `#instances`, `#bytes` and
//! `class name`, in some dumps followed by `(module)`, then a rule of `-`, then
//! the rows. A row is a rank with a `:` behind it, the number of instances, the
//! number of bytes and the class name. Whitespace may stand between any two of
//! these. Reading is predictive: what starts like a title or a row must be one.
//! The rows end where something stands that does not start with a digit.

use vstd::prelude::*;
use crate::chars::{digit_value, is_digit, lemma_run_end, run_end, CharClass};
use crate::histo::{EntryView, Expected, ParseErrorKind, Title};

verus! {

/// Where and why a text departs from the format.
pub struct Failure {
    pub offset: int,
    pub expected: Expected,
    pub kind: ParseErrorKind,
}

impl Title {
    /// The characters of the title.
    #[verifier::opaque]
    pub open spec fn text(self) -> Seq<char> {
        match self {
            Title::Num => seq!['n', 'u', 'm'],
            Title::Instances => seq!['#', 'i', 'n', 's', 't', 'a', 'n', 'c', 'e', 's'],
            Title::Bytes => seq!['#', 'b', 'y', 't', 'e', 's'],
            Title::ClassName => seq!['c', 'l', 'a', 's', 's', ' ', 'n', 'a', 'm', 'e'],
            Title::Module => seq!['(', 'm', 'o', 'd', 'u', 'l', 'e', ')'],
        }
    }
}

/// The number of line feeds among the first `offset` characters of `s`.
pub open spec fn line_of(s: Seq<char>, offset: int) -> nat
    decreases offset,
{
    if offset <= 0 || offset > s.len() {
        0
    } else if s[offset - 1] == '\n' {
        line_of(s, offset - 1) + 1
    } else {
        line_of(s, offset - 1)
    }
}

/// The number of characters between the last line feed before `offset`, or the
/// start of `s`, and `offset`.
pub open spec fn column_of(s: Seq<char>, offset: int) -> nat
    decreases offset,
{
    if offset <= 0 || offset > s.len() || s[offset - 1] == '\n' {
        0
    } else {
        column_of(s, offset - 1) + 1
    }
}

/// The number that a string of decimal digits stands for.
pub open spec fn decimal_value(digits: Seq<char>) -> nat
    decreases digits.len(),
{
    if digits.len() == 0 {
        0
    } else {
        10 * decimal_value(digits.drop_last()) + digit_value(digits.last())
    }
}

/// Whether the characters of `literal` stand in `s` from `i` on.
#[verifier::opaque]
pub open spec fn literal_at(s: Seq<char>, i: int, literal: Seq<char>) -> bool {
    0 <= i && i + literal.len() <= s.len() && s.subrange(i, i + literal.len()) == literal
}

/// Whether `s` ends at `i` or later with nothing but the start of `literal`.
pub open spec fn cut_short(s: Seq<char>, i: int, literal: Seq<char>) -> bool {
    0 <= i <= s.len() && s.len() - i < literal.len() && s.subrange(i, s.len() as int)
        == literal.subrange(0, s.len() - i)
}

/// The failure to find `title` at `i`.
pub open spec fn missing_title(s: Seq<char>, i: int, title: Title) -> Failure {
    Failure {
        offset: i,
        expected: Expected::Title(title),
        kind: if cut_short(s, i, title.text()) {
            ParseErrorKind::EndOfInput
        } else {
            ParseErrorKind::Unexpected
        },
    }
}

/// The failure to find at `i` something that starts with one character.
pub open spec fn missing(s: Seq<char>, i: int, expected: Expected) -> Failure {
    Failure {
        offset: i,
        expected,
        kind: if i >= s.len() {
            ParseErrorKind::EndOfInput
        } else {
            ParseErrorKind::Unexpected
        },
    }
}

/// Reads whitespace and then `title`, from `i` on: the position behind the title.
pub open spec fn title_at(s: Seq<char>, i: int, title: Title) -> Result<int, Failure> {
    let p = run_end(s, i, CharClass::Whitespace);
    if literal_at(s, p, title.text()) {
        Ok(p + title.text().len())
    } else {
        Err(missing_title(s, p, title))
    }
}

/// Reads what follows the title `class name`, from `i` on: whitespace, then
/// `(module)` if a `(` stands there, then whitespace and the rule.
pub open spec fn rule_at(s: Seq<char>, i: int) -> Result<int, Failure> {
    let p = run_end(s, i, CharClass::Whitespace);
    if p < s.len() && s[p] == '(' {
        if literal_at(s, p, Title::Module.text()) {
            Ok(
                run_end(
                    s,
                    run_end(s, p + Title::Module.text().len(), CharClass::Whitespace),
                    CharClass::Dash,
                ),
            )
        } else {
            Err(missing_title(s, p, Title::Module))
        }
    } else {
        Ok(run_end(s, p, CharClass::Dash))
    }
}

/// Reads the four titles that every dump has: the position behind the last
/// of them, `class name`.
pub open spec fn titles(s: Seq<char>) -> Result<int, Failure> {
    match title_at(s, 0, Title::Num) {
        Err(f) => Err(f),
        Ok(a) => match title_at(s, a, Title::Instances) {
            Err(f) => Err(f),
            Ok(b) => match title_at(s, b, Title::Bytes) {
                Err(f) => Err(f),
                Ok(c) => title_at(s, c, Title::ClassName),
            },
        },
    }
}

/// Reads the header of a dump: the position behind the rule.
pub open spec fn header(s: Seq<char>) -> Result<int, Failure> {
    match titles(s) {
        Err(f) => Err(f),
        Ok(behind) => rule_at(s, behind),
    }
}

/// Reads an unsigned decimal integer at `i`: its value and the position behind
/// its last digit.
pub open spec fn number_at(s: Seq<char>, i: int) -> Result<(nat, int), Failure> {
    let end = run_end(s, i, CharClass::Digit);
    let value = decimal_value(s.subrange(i, end));
    if end <= i {
        Err(missing(s, i, Expected::Integer))
    } else if value > usize::MAX {
        Err(Failure { offset: i, expected: Expected::Integer, kind: ParseErrorKind::Overflow })
    } else {
        Ok((value, end))
    }
}

/// Reads one row at `i`, where its rank starts: the entry and the position
/// behind its class name.
pub open spec fn entry_at(s: Seq<char>, i: int) -> Result<(EntryView, int), Failure> {
    match number_at(s, i) {
        Err(f) => Err(f),
        Ok((rank, a)) => if !(a < s.len() && s[a] == ':') {
            Err(missing(s, a, Expected::Colon))
        } else {
            match number_at(s, run_end(s, a + 1, CharClass::Whitespace)) {
                Err(f) => Err(f),
                Ok((instances_count, b)) => match number_at(
                    s,
                    run_end(s, b, CharClass::Whitespace),
                ) {
                    Err(f) => Err(f),
                    Ok((bytes, c)) => {
                        let from = run_end(s, c, CharClass::Whitespace);
                        let to = run_end(s, from, CharClass::ClassName);
                        if to <= from {
                            Err(missing(s, from, Expected::ClassName))
                        } else {
                            Ok(
                                (
                                    EntryView {
                                        rank,
                                        instances_count,
                                        bytes,
                                        class_name: s.subrange(from, to),
                                    },
                                    to,
                                ),
                            )
                        }
                    },
                },
            }
        },
    }
}

/// Reads the rows from `i` on: the entries in their order, and the position
/// where reading stopped, which is the end of `s` or the start of something
/// that is no row.
pub open spec fn entries_from(s: Seq<char>, i: int) -> Result<(Seq<EntryView>, int), Failure>
    decreases s.len() - i,
    when 0 <= i
    via entries_from_decreases
{
    let p = run_end(s, i, CharClass::Whitespace);
    if p < s.len() && is_digit(s[p]) {
        match entry_at(s, p) {
            Err(f) => Err(f),
            Ok((entry, next)) => match entries_from(s, next) {
                Err(f) => Err(f),
                Ok((rest, stop)) => Ok((seq![entry] + rest, stop)),
            },
        }
    } else {
        Ok((Seq::empty(), p))
    }
}

#[via_fn]
proof fn entries_from_decreases(s: Seq<char>, i: int) {
    let p = run_end(s, i, CharClass::Whitespace);
    if i <= s.len() {
        lemma_run_end(s, i, CharClass::Whitespace);
        if p < s.len() && is_digit(s[p]) {
            lemma_run_end(s, p, CharClass::Digit);
            lemma_entry_at_advances(s, p);
        }
    }
}

/// A row that was read ends behind the place where it starts.
pub proof fn lemma_entry_at_advances(s: Seq<char>, i: int)
    requires
        0 <= i <= s.len(),
    ensures
        entry_at(s, i) matches Ok((_, next)) ==> i < next <= s.len(),
{
    lemma_run_end(s, i, CharClass::Digit);
    if let Ok((_, a)) = number_at(s, i) {
        if a < s.len() && s[a] == ':' {
            let q = run_end(s, a + 1, CharClass::Whitespace);
            lemma_run_end(s, a + 1, CharClass::Whitespace);
            lemma_run_end(s, q, CharClass::Digit);
            if let Ok((_, b)) = number_at(s, q) {
                let r = run_end(s, b, CharClass::Whitespace);
                lemma_run_end(s, b, CharClass::Whitespace);
                lemma_run_end(s, r, CharClass::Digit);
                if let Ok((_, c)) = number_at(s, r) {
                    let from = run_end(s, c, CharClass::Whitespace);
                    lemma_run_end(s, c, CharClass::Whitespace);
                    lemma_run_end(s, from, CharClass::ClassName);
                }
            }
        }
    }
}

/// Reads a whole dump: the entries in their order, and the position where
/// reading stopped.
pub open spec fn document(s: Seq<char>) -> Result<(Seq<EntryView>, int), Failure> {
    match header(s) {
        Err(f) => Err(f),
        Ok(start) => entries_from(s, start),
    }
}

} // verus!
