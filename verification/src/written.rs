//! The texts that the format accepts, written out: a row and a dump as the
//! pieces that they are made of, with the whitespace and the digits that the
//! format leaves to the writer. The lemmas here read such a text back.

use vstd::prelude::*;
use crate::chars::{
    is_digit, is_whitespace, lemma_run_end, lemma_run_end_is, run_end, CharClass,
};
use crate::grammar::{
    decimal_value, entries_from, entry_at, header, literal_at, number_at, rule_at, title_at,
    Failure,
};
use crate::histo::{EntryView, Title};
use crate::render::repeated;

verus! {

/// Whether `text` holds characters of `class` only.
#[verifier::opaque]
pub open spec fn all_in(text: Seq<char>, class: CharClass) -> bool {
    forall|k: int| 0 <= k < text.len() ==> class.contains(#[trigger] text[k])
}

/// Whether `digits` is a number that `usize` holds, in decimal digits.
pub open spec fn is_number(digits: Seq<char>) -> bool {
    digits.len() > 0 && all_in(digits, CharClass::Digit) && decimal_value(digits) <= usize::MAX
}

/// Whether `name` can be read back as a class name: it is not empty, holds
/// characters of class names only, and does not start with a space.
pub open spec fn is_class_name(name: Seq<char>) -> bool {
    name.len() > 0 && all_in(name, CharClass::ClassName) && !is_whitespace(name[0])
}

/// Whether `entry` is an entry that a dump can show: its numbers are such that
/// `usize` holds them, and its class name can be read back.
pub open spec fn is_entry(entry: EntryView) -> bool {
    &&& entry.rank <= usize::MAX
    &&& entry.instances_count <= usize::MAX
    &&& entry.bytes <= usize::MAX
    &&& is_class_name(entry.class_name)
}

/// Whether each of `entries` is an entry that a dump can show.
pub open spec fn are_entries(entries: Seq<EntryView>) -> bool {
    forall|k: int| 0 <= k < entries.len() ==> is_entry(#[trigger] entries[k])
}

/// A row as it stands in a text: the digits of its three numbers, its class
/// name, and the whitespace before each of them. The line feed that ends the
/// row is not among these: every row has one.
pub struct WrittenRow {
    pub indent: Seq<char>,
    pub rank: Seq<char>,
    pub gap_instances: Seq<char>,
    pub instances: Seq<char>,
    pub gap_bytes: Seq<char>,
    pub bytes: Seq<char>,
    pub gap_name: Seq<char>,
    pub class_name: Seq<char>,
}

impl WrittenRow {
    /// Whether the row follows the format: whitespace where whitespace may
    /// stand, at least some between the instances and the bytes, and between
    /// the bytes and a class name that starts with a digit.
    pub open spec fn valid(self) -> bool {
        &&& all_in(self.indent, CharClass::Whitespace)
        &&& is_number(self.rank)
        &&& all_in(self.gap_instances, CharClass::Whitespace)
        &&& is_number(self.instances)
        &&& all_in(self.gap_bytes, CharClass::Whitespace)
        &&& self.gap_bytes.len() > 0
        &&& is_number(self.bytes)
        &&& all_in(self.gap_name, CharClass::Whitespace)
        &&& is_class_name(self.class_name)
        &&& (self.gap_name.len() > 0 || !is_digit(self.class_name[0]))
    }

    /// The characters of the row, with the line feed at its end.
    pub open spec fn text(self) -> Seq<char> {
        self.indent + (self.rank + (seq![':'] + (self.gap_instances + (self.instances + (
        self.gap_bytes + (self.bytes + (self.gap_name + (self.class_name + seq!['\n']))))))))
    }

    /// The entry that the row shows.
    pub open spec fn entry(self) -> EntryView {
        EntryView {
            rank: decimal_value(self.rank),
            instances_count: decimal_value(self.instances),
            bytes: decimal_value(self.bytes),
            class_name: self.class_name,
        }
    }
}

/// Where a literal stands, its characters stand.
pub proof fn lemma_literal_chars(s: Seq<char>, i: int, literal: Seq<char>)
    requires
        literal_at(s, i, literal),
    ensures
        forall|k: int| 0 <= k < literal.len() ==> s[i + k] == #[trigger] literal[k],
{
    reveal(literal_at);
    assert forall|k: int| 0 <= k < literal.len() implies s[i + k] == #[trigger] literal[k] by {
        assert(s.subrange(i, i + literal.len())[k] == literal[k]);
    }
}

/// Where two texts stand one behind the other, each of them stands.
pub proof fn lemma_literal_split(s: Seq<char>, i: int, a: Seq<char>, b: Seq<char>)
    requires
        literal_at(s, i, a + b),
    ensures
        literal_at(s, i, a),
        literal_at(s, i + a.len(), b),
{
    reveal(literal_at);
    lemma_literal_chars(s, i, a + b);
    assert forall|k: int| 0 <= k < a.len() implies s.subrange(i, i + a.len())[k] == a[k] by {
        assert((a + b)[k] == a[k]);
    }
    assert(s.subrange(i, i + a.len()) =~= a);
    assert forall|k: int| 0 <= k < b.len() implies s.subrange(i + a.len(), i + a.len() + b.len())[k]
        == b[k] by {
        assert((a + b)[a.len() + k] == b[k]);
    }
    assert(s.subrange(i + a.len(), i + a.len() + b.len()) =~= b);
}

/// A run goes on through characters of its class.
pub proof fn lemma_run_passes(s: Seq<char>, i: int, text: Seq<char>, class: CharClass)
    requires
        literal_at(s, i, text),
        all_in(text, class),
    ensures
        run_end(s, i, class) == run_end(s, i + text.len(), class),
{
    reveal(literal_at);
    reveal(all_in);
    let end = run_end(s, i + text.len(), class);
    lemma_run_end(s, i + text.len(), class);
    lemma_literal_chars(s, i, text);
    assert forall|k: int| i <= k < end implies class.contains(#[trigger] s[k]) by {
        if k < i + text.len() {
            assert(s[i + (k - i)] == text[k - i]);
        }
    }
    lemma_run_end_is(s, i, end, class);
}

/// A run ends behind characters of its class that no other follows.
pub proof fn lemma_run_at(s: Seq<char>, i: int, text: Seq<char>, class: CharClass)
    requires
        literal_at(s, i, text),
        all_in(text, class),
        i + text.len() < s.len() ==> !class.contains(s[i + text.len()]),
    ensures
        run_end(s, i, class) == i + text.len(),
{
    lemma_run_passes(s, i, text, class);
}

/// Digits that no digit follows are read as the number they stand for.
pub proof fn lemma_number_at(s: Seq<char>, i: int, digits: Seq<char>)
    requires
        literal_at(s, i, digits),
        is_number(digits),
        i + digits.len() < s.len() ==> !is_digit(s[i + digits.len()]),
    ensures
        number_at(s, i) == Ok::<(nat, int), Failure>(
            (decimal_value(digits), i + digits.len()),
        ),
{
    reveal(literal_at);
    lemma_run_at(s, i, digits, CharClass::Digit);
}

/// A valid row is read back as the entry that it shows: the whitespace before
/// it is passed, and the row is read from its rank to the end of its class
/// name, where its line feed stands.
#[verifier::rlimit(40)]
pub proof fn lemma_row_read(s: Seq<char>, i: int, row: WrittenRow)
    requires
        row.valid(),
        literal_at(s, i, row.text()),
    ensures
        run_end(s, i, CharClass::Whitespace) == i + row.indent.len(),
        i + row.indent.len() < s.len(),
        is_digit(s[i + row.indent.len()]),
        entry_at(s, i + row.indent.len()) == Ok::<(EntryView, int), Failure>(
            (row.entry(), i + row.text().len() - 1),
        ),
        s[i + row.text().len() - 1] == '\n',
{
    reveal(literal_at);
    reveal(all_in);
    let t1 = row.rank + (seq![':'] + (row.gap_instances + (row.instances + (row.gap_bytes + (
    row.bytes + (row.gap_name + (row.class_name + seq!['\n'])))))));
    let t2 = seq![':'] + (row.gap_instances + (row.instances + (row.gap_bytes + (row.bytes + (
    row.gap_name + (row.class_name + seq!['\n']))))));
    let t3 = row.gap_instances + (row.instances + (row.gap_bytes + (row.bytes + (row.gap_name + (
    row.class_name + seq!['\n'])))));
    let t4 = row.instances + (row.gap_bytes + (row.bytes + (row.gap_name + (row.class_name
        + seq!['\n']))));
    let t5 = row.gap_bytes + (row.bytes + (row.gap_name + (row.class_name + seq!['\n'])));
    let t6 = row.bytes + (row.gap_name + (row.class_name + seq!['\n']));
    let t7 = row.gap_name + (row.class_name + seq!['\n']);
    let t8 = row.class_name + seq!['\n'];
    let i1 = i + row.indent.len();
    let i2 = i1 + row.rank.len();
    let i3 = i2 + 1;
    let i4 = i3 + row.gap_instances.len();
    let i5 = i4 + row.instances.len();
    let i6 = i5 + row.gap_bytes.len();
    let i7 = i6 + row.bytes.len();
    let i8 = i7 + row.gap_name.len();
    let i9 = i8 + row.class_name.len();
    lemma_literal_split(s, i, row.indent, t1);
    lemma_literal_split(s, i1, row.rank, t2);
    lemma_literal_split(s, i2, seq![':'], t3);
    lemma_literal_split(s, i3, row.gap_instances, t4);
    lemma_literal_split(s, i4, row.instances, t5);
    lemma_literal_split(s, i5, row.gap_bytes, t6);
    lemma_literal_split(s, i6, row.bytes, t7);
    lemma_literal_split(s, i7, row.gap_name, t8);
    lemma_literal_split(s, i8, row.class_name, seq!['\n']);
    lemma_literal_chars(s, i1, row.rank);
    lemma_literal_chars(s, i2, seq![':']);
    lemma_literal_chars(s, i4, row.instances);
    lemma_literal_chars(s, i5, row.gap_bytes);
    lemma_literal_chars(s, i6, row.bytes);
    lemma_literal_chars(s, i8, row.class_name);
    lemma_literal_chars(s, i9, seq!['\n']);
    assert(s[i1] == row.rank[0]);
    assert(s[i2] == seq![':'][0]);
    assert(s[i4] == row.instances[0]);
    assert(s[i5] == row.gap_bytes[0]);
    assert(s[i6] == row.bytes[0]);
    assert(s[i8] == row.class_name[0]);
    if row.gap_name.len() > 0 {
        lemma_literal_chars(s, i7, row.gap_name);
        assert(s[i7] == row.gap_name[0]);
    }
    assert(s[i9] == seq!['\n'][0]);
    assert(row.text().len() == i9 + 1 - i);
    lemma_run_at(s, i, row.indent, CharClass::Whitespace);
    lemma_number_at(s, i1, row.rank);
    lemma_run_at(s, i3, row.gap_instances, CharClass::Whitespace);
    lemma_number_at(s, i4, row.instances);
    lemma_run_at(s, i5, row.gap_bytes, CharClass::Whitespace);
    lemma_number_at(s, i6, row.bytes);
    lemma_run_at(s, i7, row.gap_name, CharClass::Whitespace);
    lemma_run_at(s, i8, row.class_name, CharClass::ClassName);
}

/// The characters of `rows`, one row behind the other.
pub open spec fn rows_text(rows: Seq<WrittenRow>) -> Seq<char>
    decreases rows.len(),
{
    if rows.len() == 0 {
        Seq::empty()
    } else {
        rows[0].text() + rows_text(rows.drop_first())
    }
}

/// The entries that `rows` show, in the order of the rows.
pub open spec fn rows_entries(rows: Seq<WrittenRow>) -> Seq<EntryView> {
    Seq::new(rows.len(), |k: int| rows[k].entry())
}

/// Whether each of `rows` follows the format.
pub open spec fn rows_valid(rows: Seq<WrittenRow>) -> bool {
    forall|k: int| 0 <= k < rows.len() ==> (#[trigger] rows[k]).valid()
}

/// Whether `tail` may follow the last row of a dump without being read: the
/// first character in it that is no whitespace, if it has one, is no digit, no
/// `-` and no `(`.
pub open spec fn is_tail(tail: Seq<char>) -> bool {
    let q = run_end(tail, 0, CharClass::Whitespace);
    q < tail.len() ==> !is_digit(tail[q]) && tail[q] != '-' && tail[q] != '('
}

/// A dump as it stands in a text: the whitespace before each of its titles and
/// before its rule, the length of the rule, its rows, and what follows them.
pub struct WrittenDump {
    pub lead: Seq<char>,
    pub gap_instances: Seq<char>,
    pub gap_bytes: Seq<char>,
    pub gap_class_name: Seq<char>,
    /// The whitespace before `(module)`, in a dump that has this title.
    pub module: Option<Seq<char>>,
    pub gap_rule: Seq<char>,
    pub rule: nat,
    pub gap_rows: Seq<char>,
    pub rows: Seq<WrittenRow>,
    pub tail: Seq<char>,
}

impl WrittenDump {
    /// Whether the dump follows the format.
    pub open spec fn valid(self) -> bool {
        &&& all_in(self.lead, CharClass::Whitespace)
        &&& all_in(self.gap_instances, CharClass::Whitespace)
        &&& all_in(self.gap_bytes, CharClass::Whitespace)
        &&& all_in(self.gap_class_name, CharClass::Whitespace)
        &&& (self.module matches Some(gap) ==> all_in(gap, CharClass::Whitespace))
        &&& all_in(self.gap_rule, CharClass::Whitespace)
        &&& all_in(self.gap_rows, CharClass::Whitespace)
        &&& rows_valid(self.rows)
        &&& is_tail(self.tail)
    }

    /// The title `(module)` with the whitespace before it, or nothing.
    pub open spec fn module_text(self) -> Seq<char> {
        match self.module {
            Some(gap) => gap + Title::Module.text(),
            None => Seq::empty(),
        }
    }

    /// The characters from the rule on, with the whitespace before it.
    pub open spec fn body_text(self) -> Seq<char> {
        self.gap_rule + (repeated('-', self.rule) + (self.gap_rows + (rows_text(self.rows)
            + self.tail)))
    }

    /// The characters of the dump.
    pub open spec fn text(self) -> Seq<char> {
        self.lead + (Title::Num.text() + (self.gap_instances + (Title::Instances.text() + (
        self.gap_bytes + (Title::Bytes.text() + (self.gap_class_name + (Title::ClassName.text() + (
        self.module_text() + self.body_text()))))))))
    }

    /// The position in `text` where `tail` starts.
    pub open spec fn tail_start(self) -> int {
        self.text().len() - self.tail.len()
    }
}

/// Whitespace before the rows is passed: reading the rows from `i` or from a
/// later place with only whitespace between the two gives the same.
pub proof fn lemma_entries_from_skips(s: Seq<char>, i: int, k: int)
    requires
        0 <= i <= k <= run_end(s, i, CharClass::Whitespace),
        i <= s.len(),
    ensures
        entries_from(s, i) == entries_from(s, k),
{
    let end = run_end(s, i, CharClass::Whitespace);
    lemma_run_end(s, i, CharClass::Whitespace);
    lemma_run_end_is(s, k, end, CharClass::Whitespace);
}

/// A run at the end of a text ends where the run in that end alone does.
pub proof fn lemma_run_in_suffix(s: Seq<char>, i: int, suffix: Seq<char>, class: CharClass)
    requires
        literal_at(s, i, suffix),
        i + suffix.len() == s.len(),
    ensures
        run_end(s, i, class) == i + run_end(suffix, 0, class),
        0 <= run_end(suffix, 0, class) <= suffix.len(),
        run_end(suffix, 0, class) < suffix.len() ==> s[i + run_end(suffix, 0, class)]
            == suffix[run_end(suffix, 0, class)],
{
    reveal(literal_at);
    let q = run_end(suffix, 0, class);
    lemma_run_end(suffix, 0, class);
    lemma_literal_chars(s, i, suffix);
    assert forall|k: int| i <= k < i + q implies class.contains(#[trigger] s[k]) by {
        assert(s[i + (k - i)] == suffix[k - i]);
    }
    if q < suffix.len() {
        assert(s[i + q] == suffix[q]);
    }
    lemma_run_end_is(s, i, i + q, class);
}

/// Valid rows are read back as the entries that they show, in their order, one
/// entry for each row. Reading stops behind the whitespace that follows the
/// last row, provided that no digit stands there.
#[verifier::rlimit(40)]
pub proof fn lemma_rows_read(s: Seq<char>, i: int, rows: Seq<WrittenRow>)
    requires
        rows_valid(rows),
        literal_at(s, i, rows_text(rows)),
        ({
            let q = run_end(s, i + rows_text(rows).len(), CharClass::Whitespace);
            q < s.len() ==> !is_digit(s[q])
        }),
    ensures
        entries_from(s, i) == Ok::<(Seq<EntryView>, int), Failure>(
            (
                rows_entries(rows),
                run_end(s, i + rows_text(rows).len(), CharClass::Whitespace),
            ),
        ),
        rows.len() > 0 ==> is_digit(s[run_end(s, i, CharClass::Whitespace)]) && run_end(
            s,
            i,
            CharClass::Whitespace,
        ) < s.len(),
    decreases rows.len(),
{
    reveal(literal_at);
    if rows.len() == 0 {
        assert(rows_entries(rows) =~= Seq::<EntryView>::empty());
        lemma_run_end(s, i, CharClass::Whitespace);
    } else {
        let row = rows[0];
        let rest = rows.drop_first();
        assert(row.valid());
        assert(rows_valid(rest)) by {
            assert forall|k: int| 0 <= k < rest.len() implies (#[trigger] rest[k]).valid() by {
                assert(rest[k] == rows[k + 1]);
            }
        }
        lemma_literal_split(s, i, row.text(), rows_text(rest));
        lemma_row_read(s, i, row);
        let end = i + row.text().len() - 1;
        lemma_rows_read(s, end + 1, rest);
        lemma_run_end(s, end + 1, CharClass::Whitespace);
        lemma_entries_from_skips(s, end, end + 1);
        assert(seq![row.entry()] + rows_entries(rest) =~= rows_entries(rows));
    }
}

/// The rule of a dump and what follows it are read back: from the whitespace
/// before the rule on, no `(` is met where `(module)` could start, and behind
/// the rule the rows are read as the entries that they show.
#[verifier::rlimit(40)]
pub proof fn lemma_body_read(
    s: Seq<char>,
    g: int,
    gap_rule: Seq<char>,
    rule: nat,
    gap_rows: Seq<char>,
    rows: Seq<WrittenRow>,
    tail: Seq<char>,
)
    requires
        all_in(gap_rule, CharClass::Whitespace),
        all_in(gap_rows, CharClass::Whitespace),
        rows_valid(rows),
        is_tail(tail),
        literal_at(
            s,
            g,
            gap_rule + (repeated('-', rule) + (gap_rows + (rows_text(rows) + tail))),
        ),
        g + (gap_rule + (repeated('-', rule) + (gap_rows + (rows_text(rows) + tail)))).len()
            == s.len(),
    ensures
        ({
            let w = run_end(s, g, CharClass::Whitespace);
            &&& g <= w <= s.len()
            &&& (w < s.len() ==> s[w] != '(')
            &&& entries_from(s, run_end(s, w, CharClass::Dash)) == Ok::<
                (Seq<EntryView>, int),
                Failure,
            >((rows_entries(rows), s.len() - tail.len() + run_end(tail, 0, CharClass::Whitespace)))
        }),
{
    reveal(literal_at);
    reveal(all_in);
    let dashes = repeated('-', rule);
    let d = g + gap_rule.len();
    let a = d + rule;
    let r = a + gap_rows.len();
    let j = r + rows_text(rows).len();
    lemma_literal_split(s, g, gap_rule, dashes + (gap_rows + (rows_text(rows) + tail)));
    lemma_literal_split(s, d, dashes, gap_rows + (rows_text(rows) + tail));
    lemma_literal_split(s, a, gap_rows, rows_text(rows) + tail);
    lemma_literal_split(s, r, rows_text(rows), tail);
    lemma_run_in_suffix(s, j, tail, CharClass::Whitespace);
    let q = run_end(tail, 0, CharClass::Whitespace);
    lemma_rows_read(s, r, rows);
    // Where the whitespace before the rows ends, neither `-` nor `(` stands.
    let x = run_end(s, r, CharClass::Whitespace);
    lemma_run_end(s, r, CharClass::Whitespace);
    assert(x < s.len() ==> s[x] != '-' && s[x] != '(') by {
        if rows.len() == 0 {
            assert(rows_text(rows).len() == 0);
        }
    }
    lemma_run_passes(s, a, gap_rows, CharClass::Whitespace);
    lemma_run_end(s, a, CharClass::Whitespace);
    lemma_entries_from_skips(s, a, r);
    lemma_run_passes(s, g, gap_rule, CharClass::Whitespace);
    if rule > 0 {
        lemma_literal_chars(s, d, dashes);
        assert(s[d + 0] == dashes[0]);
        assert(run_end(s, d, CharClass::Whitespace) == d);
        assert(a < s.len() ==> s[a] != '-') by {
            if a < x {
                assert(CharClass::Whitespace.contains(s[a]));
            }
        }
        lemma_run_at(s, d, dashes, CharClass::Dash);
    } else {
        assert(d == a);
        assert(run_end(s, g, CharClass::Whitespace) == x);
        assert(run_end(s, x, CharClass::Dash) == x);
        lemma_entries_from_skips(s, r, x);
    }
}

/// A text stands in itself, from its start on.
pub proof fn lemma_literal_whole(s: Seq<char>)
    ensures
        literal_at(s, 0, s),
{
    reveal(literal_at);
    assert(s.subrange(0, s.len() as int) =~= s);
}

/// A title behind whitespace is read, and reading goes on behind it.
pub proof fn lemma_title_read(s: Seq<char>, i: int, gap: Seq<char>, title: Title, rest: Seq<char>)
    requires
        all_in(gap, CharClass::Whitespace),
        literal_at(s, i, gap + (title.text() + rest)),
    ensures
        title_at(s, i, title) == Ok::<int, Failure>(i + gap.len() + title.text().len()),
        literal_at(s, i + gap.len(), title.text()),
        literal_at(s, i + gap.len() + title.text().len(), rest),
        s[i + gap.len()] == title.text()[0],
        title.text().len() > 0,
        !CharClass::Whitespace.contains(title.text()[0]),
{
    reveal(Title::text);
    let at = i + gap.len();
    lemma_literal_split(s, i, gap, title.text() + rest);
    lemma_literal_split(s, at, title.text(), rest);
    lemma_literal_chars(s, at, title.text());
    assert(s[at + 0] == title.text()[0]);
    lemma_run_at(s, i, gap, CharClass::Whitespace);
}

/// The four titles that every dump has are read, and reading goes on behind
/// the last of them.
#[verifier::rlimit(40)]
pub proof fn lemma_titles_read(dump: WrittenDump)
    requires
        all_in(dump.lead, CharClass::Whitespace),
        all_in(dump.gap_instances, CharClass::Whitespace),
        all_in(dump.gap_bytes, CharClass::Whitespace),
        all_in(dump.gap_class_name, CharClass::Whitespace),
    ensures
        ({
            let behind = dump.text().len() - dump.module_text().len() - dump.body_text().len();
            &&& header(dump.text()) == rule_at(dump.text(), behind)
            &&& literal_at(dump.text(), behind, dump.module_text() + dump.body_text())
        }),
{
    let s = dump.text();
    let t9 = dump.module_text() + dump.body_text();
    let t7 = dump.gap_class_name + (Title::ClassName.text() + t9);
    let t5 = dump.gap_bytes + (Title::Bytes.text() + t7);
    let t3 = dump.gap_instances + (Title::Instances.text() + t5);
    lemma_literal_whole(s);
    lemma_title_read(s, 0, dump.lead, Title::Num, t3);
    let i2: int = (dump.lead.len() + Title::Num.text().len()) as int;
    lemma_title_read(s, i2, dump.gap_instances, Title::Instances, t5);
    let i4: int = i2 + dump.gap_instances.len() + Title::Instances.text().len();
    lemma_title_read(s, i4, dump.gap_bytes, Title::Bytes, t7);
    let i6: int = i4 + dump.gap_bytes.len() + Title::Bytes.text().len();
    lemma_title_read(s, i6, dump.gap_class_name, Title::ClassName, t9);
}

/// What follows the title `class name` is read back: `(module)` where the
/// dump has it, the rule, and the rows as the entries that they show.
#[verifier::rlimit(40)]
pub proof fn lemma_rule_read(s: Seq<char>, i: int, dump: WrittenDump)
    requires
        dump.valid(),
        literal_at(s, i, dump.module_text() + dump.body_text()),
        i + dump.module_text().len() + dump.body_text().len() == s.len(),
    ensures
        rule_at(s, i) is Ok,
        entries_from(s, rule_at(s, i)->Ok_0) == Ok::<(Seq<EntryView>, int), Failure>(
            (
                rows_entries(dump.rows),
                s.len() - dump.tail.len() + run_end(dump.tail, 0, CharClass::Whitespace),
            ),
        ),
{
    let g = i + dump.module_text().len();
    lemma_literal_split(s, i, dump.module_text(), dump.body_text());
    lemma_body_read(s, g, dump.gap_rule, dump.rule, dump.gap_rows, dump.rows, dump.tail);
    let w = run_end(s, g, CharClass::Whitespace);
    match dump.module {
        Some(gap) => {
            lemma_module_read(s, i, gap);
        },
        None => {
            assert(g == i);
        },
    }
    assert(rule_at(s, i) == Ok::<int, Failure>(run_end(s, w, CharClass::Dash)));
}

/// The title `(module)` behind whitespace is read.
pub proof fn lemma_module_read(s: Seq<char>, i: int, gap: Seq<char>)
    requires
        all_in(gap, CharClass::Whitespace),
        literal_at(s, i, gap + Title::Module.text()),
    ensures
        rule_at(s, i) == Ok::<int, Failure>(
            run_end(
                s,
                run_end(s, i + gap.len() + Title::Module.text().len(), CharClass::Whitespace),
                CharClass::Dash,
            ),
        ),
{
    reveal(Title::text);
    reveal(literal_at);
    let module = Title::Module.text();
    let m = i + gap.len();
    lemma_literal_split(s, i, gap, module);
    lemma_literal_chars(s, m, module);
    assert(s[m + 0] == module[0]);
    lemma_run_at(s, i, gap, CharClass::Whitespace);
}

} // verus!
