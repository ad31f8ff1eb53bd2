//! The dump that the rendering writes, as a written dump: that its rows are
//! valid rows which show the entries they were written for.

use vstd::prelude::*;
use crate::chars::{digit_value, is_digit, CharClass};
use crate::grammar::decimal_value;
use crate::histo::{EntryView, Title};
use crate::render::{
    decimal_digits, digit_char, entry_line, entry_lines, header_lines, histogram_text, repeated,
    BYTES_WIDTH, INSTANCES_WIDTH, MODULE_RULE_LENGTH, RANK_WIDTH, RULE_LENGTH,
};
use crate::written::{
    all_in, are_entries, is_entry, rows_entries, rows_text, rows_valid, WrittenDump, WrittenRow,
};

verus! {

/// One more digit behind a number is ten times the number and the digit.
pub proof fn lemma_decimal_value_push(digits: Seq<char>, c: char)
    ensures
        decimal_value(digits.push(c)) == 10 * decimal_value(digits) + digit_value(c),
{
    assert(digits.push(c).drop_last() =~= digits);
}

/// The decimal digits of a number are digits, and stand for the number.
pub proof fn lemma_decimal_digits(n: nat)
    ensures
        decimal_digits(n).len() > 0,
        all_in(decimal_digits(n), CharClass::Digit),
        decimal_value(decimal_digits(n)) == n,
    decreases n,
{
    reveal(all_in);
    assert(digit_value(digit_char(n % 10)) == n % 10);
    assert(is_digit(digit_char(n % 10)));
    if n < 10 {
        lemma_decimal_value_push(Seq::empty(), digit_char(n));
        assert(Seq::<char>::empty().push(digit_char(n)) =~= seq![digit_char(n)]);
        assert(decimal_value(Seq::<char>::empty()) == 0);
    } else {
        lemma_decimal_digits(n / 10);
        lemma_decimal_value_push(decimal_digits(n / 10), digit_char(n % 10));
    }
}

/// The spaces that bring `text` to `width` characters.
pub open spec fn padding(text: Seq<char>, width: nat) -> Seq<char> {
    repeated(' ', if text.len() < width { (width - text.len()) as nat } else { 0 })
}

/// The row that the rendering writes for `entry`.
pub open spec fn rendered_row(entry: EntryView) -> WrittenRow {
    WrittenRow {
        indent: padding(decimal_digits(entry.rank), RANK_WIDTH as nat),
        rank: decimal_digits(entry.rank),
        gap_instances: seq![' '] + padding(
            decimal_digits(entry.instances_count),
            INSTANCES_WIDTH as nat,
        ),
        instances: decimal_digits(entry.instances_count),
        gap_bytes: seq![' '] + padding(decimal_digits(entry.bytes), BYTES_WIDTH as nat),
        bytes: decimal_digits(entry.bytes),
        gap_name: seq![' ', ' '],
        class_name: entry.class_name,
    }
}

/// The rows that the rendering writes for `entries`.
pub open spec fn rendered_rows(entries: Seq<EntryView>) -> Seq<WrittenRow> {
    Seq::new(entries.len(), |k: int| rendered_row(entries[k]))
}

/// The dump that the rendering writes for `entries`.
pub open spec fn rendered_dump(entries: Seq<EntryView>, with_module: bool) -> WrittenDump {
    WrittenDump {
        lead: seq![' '],
        gap_instances: repeated(' ', 5),
        gap_bytes: repeated(' ', 9),
        gap_class_name: repeated(' ', 2),
        module: if with_module {
            Some(seq![' '])
        } else {
            None
        },
        gap_rule: seq!['\n'],
        rule: if with_module {
            MODULE_RULE_LENGTH as nat
        } else {
            RULE_LENGTH as nat
        },
        gap_rows: seq!['\n'],
        rows: rendered_rows(entries),
        tail: Seq::empty(),
    }
}

/// Texts written one behind the other are one text, however they are grouped.
pub proof fn lemma_grouping(a: Seq<char>, b: Seq<char>, c: Seq<char>)
    ensures
        (a + b) + c == a + (b + c),
{
    assert((a + b) + c =~= a + (b + c));
}

/// The line that the rendering writes for an entry is the text of its row.
#[verifier::rlimit(40)]
pub proof fn lemma_rendered_row_text(entry: EntryView)
    ensures
        rendered_row(entry).text() == entry_line(entry),
{
    let row = rendered_row(entry);
    let pad_r = row.indent;
    let pad_i = padding(row.instances, INSTANCES_WIDTH as nat);
    let pad_b = padding(row.bytes, BYTES_WIDTH as nat);
    let x0 = pad_r + row.rank;
    let x1 = seq![':', ' '];
    let x2 = pad_i + row.instances;
    let x3 = seq![' '];
    let x4 = pad_b + row.bytes;
    let x5 = seq![' ', ' '];
    let x6 = row.class_name;
    let x7 = seq!['\n'];
    let s7 = x6 + x7;
    let s6 = x5 + s7;
    let s5 = x4 + s6;
    let s4 = x3 + s5;
    let s3 = x2 + s4;
    let s2 = x1 + s3;
    let s1 = x0 + s2;
    // The line, grouped from the right.
    lemma_grouping(x0 + x1 + x2 + x3 + x4 + x5, x6, x7);
    lemma_grouping(x0 + x1 + x2 + x3 + x4, x5, s7);
    lemma_grouping(x0 + x1 + x2 + x3, x4, s6);
    lemma_grouping(x0 + x1 + x2, x3, s5);
    lemma_grouping(x0 + x1, x2, s4);
    lemma_grouping(x0, x1, s3);
    assert(entry_line(entry) == s1);
    // The row, piece by piece.
    let u5 = row.bytes + s6;
    lemma_grouping(pad_b, row.bytes, s6);
    lemma_grouping(x3, pad_b, u5);
    assert(s4 == row.gap_bytes + u5);
    let u3 = row.instances + s4;
    lemma_grouping(pad_i, row.instances, s4);
    assert(x1 =~= seq![':'] + seq![' ']);
    lemma_grouping(seq![':'], seq![' '], pad_i + u3);
    lemma_grouping(seq![' '], pad_i, u3);
    assert(s2 == seq![':'] + (row.gap_instances + u3));
    lemma_grouping(pad_r, row.rank, s2);
}

/// Spaces are whitespace.
pub proof fn lemma_spaces(count: nat)
    ensures
        all_in(repeated(' ', count), CharClass::Whitespace),
        all_in(seq![' '] + repeated(' ', count), CharClass::Whitespace),
        all_in(seq![' ', ' '], CharClass::Whitespace),
        all_in(seq![' '], CharClass::Whitespace),
        all_in(seq!['\n'], CharClass::Whitespace),
{
    reveal(all_in);
}

/// The line that the rendering writes for an entry is a valid row that shows
/// the entry.
#[verifier::rlimit(40)]
pub proof fn lemma_rendered_row(entry: EntryView)
    requires
        is_entry(entry),
    ensures
        rendered_row(entry).valid(),
        rendered_row(entry).text() == entry_line(entry),
        rendered_row(entry).entry() == entry,
{
    let row = rendered_row(entry);
    lemma_decimal_digits(entry.rank);
    lemma_decimal_digits(entry.instances_count);
    lemma_decimal_digits(entry.bytes);
    lemma_spaces(row.indent.len());
    lemma_spaces((row.gap_instances.len() - 1) as nat);
    lemma_spaces((row.gap_bytes.len() - 1) as nat);
    assert(row.indent =~= repeated(' ', row.indent.len()));
    assert(row.gap_instances =~= seq![' '] + repeated(
        ' ',
        (row.gap_instances.len() - 1) as nat,
    ));
    assert(row.gap_bytes =~= seq![' '] + repeated(' ', (row.gap_bytes.len() - 1) as nat));
    lemma_rendered_row_text(entry);
}

/// The rows of a longer list are the rows of the shorter one and the last row.
pub proof fn lemma_rows_text_push(rows: Seq<WrittenRow>, row: WrittenRow)
    ensures
        rows_text(rows.push(row)) == rows_text(rows) + row.text(),
    decreases rows.len(),
{
    if rows.len() == 0 {
        assert(rows.push(row).drop_first() =~= rows);
        assert(rows_text(rows.push(row)) =~= rows_text(rows) + row.text());
    } else {
        lemma_rows_text_push(rows.drop_first(), row);
        assert(rows.push(row).drop_first() =~= rows.drop_first().push(row));
        assert(rows_text(rows.push(row)) =~= rows_text(rows) + row.text());
    }
}

/// The lines that the rendering writes for entries are valid rows that show
/// the entries.
#[verifier::rlimit(40)]
pub proof fn lemma_rendered_rows(entries: Seq<EntryView>)
    requires
        are_entries(entries),
    ensures
        rows_valid(rendered_rows(entries)),
        rows_text(rendered_rows(entries)) == entry_lines(entries),
        rows_entries(rendered_rows(entries)) == entries,
    decreases entries.len(),
{
    assert forall|k: int| 0 <= k < entries.len() implies (#[trigger] rendered_rows(
        entries,
    )[k]).valid() && rendered_rows(entries)[k].entry() == entries[k] by {
        lemma_rendered_row(entries[k]);
    }
    assert(rows_entries(rendered_rows(entries)) =~= entries);
    if entries.len() > 0 {
        let front = entries.drop_last();
        lemma_rendered_rows(front);
        lemma_rendered_row(entries.last());
        lemma_rows_text_push(rendered_rows(front), rendered_row(entries.last()));
        assert(rendered_rows(front).push(rendered_row(entries.last())) =~= rendered_rows(
            entries,
        ));
    }
}

/// The text that the rendering writes for entries is the text of their dump.
#[verifier::rlimit(40)]
pub proof fn lemma_rendered_dump_text(entries: Seq<EntryView>, with_module: bool)
    requires
        rows_text(rendered_rows(entries)) == entry_lines(entries),
    ensures
        rendered_dump(entries, with_module).text() == histogram_text(entries, with_module),
{
    let dump = rendered_dump(entries, with_module);
    let y0 = seq![' '];
    let y1 = Title::Num.text();
    let y2 = repeated(' ', 5);
    let y3 = Title::Instances.text();
    let y4 = repeated(' ', 9);
    let y5 = Title::Bytes.text();
    let y6 = repeated(' ', 2);
    let y7 = Title::ClassName.text();
    let y8 = dump.module_text();
    let y9 = seq!['\n'];
    let y10 = repeated('-', dump.rule);
    let y11 = seq!['\n'];
    let y12 = entry_lines(entries);
    let s12 = y12 + Seq::<char>::empty();
    assert(s12 =~= y12);
    let s11 = y11 + s12;
    let s10 = y10 + s11;
    let s9 = y9 + s10;
    let s8 = y8 + s9;
    let s7 = y7 + s8;
    let s6 = y6 + s7;
    let s5 = y5 + s6;
    let s4 = y4 + s5;
    let s3 = y3 + s4;
    let s2 = y2 + s3;
    let s1 = y1 + s2;
    assert(dump.body_text() == s9);
    assert(dump.text() == y0 + s1);
    assert(header_lines(with_module) == y0 + y1 + y2 + y3 + y4 + y5 + y6 + y7 + y8 + y9 + y10
        + y11);
    lemma_grouping(y0 + y1 + y2 + y3 + y4 + y5 + y6 + y7 + y8 + y9 + y10, y11, y12);
    lemma_grouping(y0 + y1 + y2 + y3 + y4 + y5 + y6 + y7 + y8 + y9, y10, s11);
    lemma_grouping(y0 + y1 + y2 + y3 + y4 + y5 + y6 + y7 + y8, y9, s10);
    lemma_grouping(y0 + y1 + y2 + y3 + y4 + y5 + y6 + y7, y8, s9);
    lemma_grouping(y0 + y1 + y2 + y3 + y4 + y5 + y6, y7, s8);
    lemma_grouping(y0 + y1 + y2 + y3 + y4 + y5, y6, s7);
    lemma_grouping(y0 + y1 + y2 + y3 + y4, y5, s6);
    lemma_grouping(y0 + y1 + y2 + y3, y4, s5);
    lemma_grouping(y0 + y1 + y2, y3, s4);
    lemma_grouping(y0 + y1, y2, s3);
    lemma_grouping(y0, y1, s2);
}

} // verus!
