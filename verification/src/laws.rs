//! What holds of the parser on every text: a text that follows the format is
//! read back as the entries it shows, one for each row and in the order of the
//! rows; the title `(module)` changes nothing of what is read, and may be
//! left out of any text; every class name that is read is made of the allowed
//! characters; a histogram that was parsed is parsed again from its own
//! rendering; and a text whose header is wrong gives no entries.

use vstd::prelude::*;
use crate::chars::{is_digit, lemma_run_end, lemma_run_end_is, run_end, CharClass};
use crate::grammar::{
    document, entries_from, entry_at, header, lemma_entry_at_advances, literal_at, number_at,
    rule_at, titles, Failure,
};
use crate::histo::{EntryView, Title};
use crate::moved::{
    lemma_entries_moved, lemma_run_moved, lemma_titles_grow, lemma_titles_in_common,
    moved_entries, same_from, same_until,
};
use crate::render::histogram_text;
use crate::rendered::{
    lemma_rendered_dump_text, lemma_rendered_rows, lemma_spaces, rendered_dump,
};
use crate::written::{
    all_in, are_entries, is_entry, is_tail, lemma_rule_read, lemma_titles_read, rows_entries,
    WrittenDump,
};

verus! {

/// A text that follows the format is read back as the entries that it shows:
/// one entry for each row, in the order of the rows. Reading stops behind the
/// whitespace that follows the last row.
#[verifier::rlimit(40)]
pub proof fn lemma_dump_read(dump: WrittenDump)
    requires
        dump.valid(),
    ensures
        document(dump.text()) == Ok::<(Seq<EntryView>, int), Failure>(
            (
                rows_entries(dump.rows),
                dump.tail_start() + run_end(dump.tail, 0, CharClass::Whitespace),
            ),
        ),
        rows_entries(dump.rows).len() == dump.rows.len(),
{
    let s = dump.text();
    let behind = s.len() - dump.module_text().len() - dump.body_text().len();
    lemma_titles_read(dump);
    lemma_rule_read(s, behind, dump);
}

/// The title `(module)` changes nothing of what is read: a dump that follows
/// the format and the same dump without that title are both read, and give
/// the same entries.
pub proof fn lemma_module_title_is_transparent(dump: WrittenDump)
    requires
        dump.valid(),
    ensures
        document(dump.text()) is Ok,
        document((WrittenDump { module: None, ..dump }).text()) is Ok,
        document(dump.text())->Ok_0.0 == document(
            (WrittenDump { module: None, ..dump }).text(),
        )->Ok_0.0,
{
    lemma_dump_read(dump);
    lemma_dump_read(WrittenDump { module: None, ..dump });
}

/// The text `s` without the `length` characters from `at` on.
pub open spec fn without(s: Seq<char>, at: int, length: int) -> Seq<char> {
    s.subrange(0, at) + s.subrange(at + length, s.len() as int)
}

/// Where the title `(module)` stands in a text whose first four titles are
/// read: behind the whitespace that follows `class name`.
pub open spec fn module_place(s: Seq<char>) -> int {
    run_end(s, titles(s)->Ok_0, CharClass::Whitespace)
}

/// The title `(module)` may be left out of any text, whatever follows it:
/// the text without the title is read as the text with it, entry for entry
/// and failure for failure, at places that lie as many characters earlier as
/// the title has. The one text that this does not hold of is a text in which a
/// `(` follows the title, since without the title that `(` would be taken for
/// the start of it.
#[verifier::rlimit(40)]
pub proof fn lemma_module_title_may_be_left_out(s: Seq<char>)
    requires
        titles(s) is Ok,
        literal_at(s, module_place(s), Title::Module.text()),
        ({
            let next = run_end(
                s,
                module_place(s) + Title::Module.text().len(),
                CharClass::Whitespace,
            );
            next < s.len() ==> s[next] != '('
        }),
    ensures
        document(s) == moved_entries(
            document(without(s, module_place(s), Title::Module.text().len() as int)),
            Title::Module.text().len() as int,
        ),
{
    let behind = titles(s)->Ok_0;
    let place = module_place(s);
    let length = Title::Module.text().len() as int;
    let after = place + length;
    let next = run_end(s, after, CharClass::Whitespace);
    let t = without(s, place, length);
    assert(0 <= place && after <= s.len() && length > 0 && s[place] == '(') by {
        reveal(literal_at);
        reveal(Title::text);
        assert(s.subrange(place, after)[0] == Title::Module.text()[0]);
    }
    lemma_titles_grow(s);
    lemma_run_end(s, behind, CharClass::Whitespace);
    // The two texts start alike, and go on alike behind the title.
    assert(same_until(s, t, place));
    assert(same_from(s, after, t, place)) by {
        assert forall|k: int| after <= k < s.len() implies #[trigger] s[k] == t[k - length] by {
            assert(t[k - length] == s.subrange(after, s.len() as int)[k - length - place]);
        }
    }
    lemma_titles_in_common(s, t, place);
    // With the title, reading goes on behind it.
    assert(rule_at(s, behind) == Ok::<int, Failure>(run_end(s, next, CharClass::Dash)));
    // Without it, the whitespace before and behind it is one run.
    lemma_run_moved(s, after, t, place, CharClass::Whitespace);
    let next_t = next - length;
    lemma_run_end(t, place, CharClass::Whitespace);
    assert forall|k: int| behind <= k < next_t implies CharClass::Whitespace.contains(
        #[trigger] t[k],
    ) by {
        if k < place {
            assert(s[k] == t[k]);
        }
    }
    lemma_run_end_is(t, behind, next_t, CharClass::Whitespace);
    if next < s.len() {
        assert(s[next] == t[next - length]);
    }
    assert(rule_at(t, behind) == Ok::<int, Failure>(run_end(t, next_t, CharClass::Dash)));
    lemma_run_moved(s, next, t, next_t, CharClass::Dash);
    lemma_entries_moved(
        s,
        run_end(s, next, CharClass::Dash),
        t,
        run_end(t, next_t, CharClass::Dash),
    );
}

/// A row that was read gave an entry that a dump can show.
pub proof fn lemma_entry_read_is_entry(s: Seq<char>, i: int)
    requires
        0 <= i <= s.len(),
    ensures
        entry_at(s, i) matches Ok((entry, next)) ==> is_entry(entry),
{
    reveal(all_in);
    lemma_run_end(s, i, CharClass::Digit);
    if let Ok((_, a)) = number_at(s, i) {
        if a < s.len() && s[a] == ':' {
            let q = run_end(s, a + 1, CharClass::Whitespace);
            lemma_run_end(s, a + 1, CharClass::Whitespace);
            lemma_run_end(s, q, CharClass::Digit);
            if let Ok((_, b)) = number_at(s, q) {
                let r = run_end(s, b, CharClass::Whitespace);
                lemma_run_end(s, b, CharClass::Whitespace);
                lemma_run_end(s, r, CharClass::Digit);
                if let Ok((_, c)) = number_at(s, r) {
                    let from = run_end(s, c, CharClass::Whitespace);
                    lemma_run_end(s, c, CharClass::Whitespace);
                    lemma_run_end(s, from, CharClass::ClassName);
                    let to = run_end(s, from, CharClass::ClassName);
                    if to > from {
                        let name = s.subrange(from, to);
                        assert forall|k: int| 0 <= k < name.len() implies
                            CharClass::ClassName.contains(#[trigger] name[k]) by {
                            assert(name[k] == s[from + k]);
                        }
                        assert(name[0] == s[from]);
                    }
                }
            }
        }
    }
}

/// The rows that were read gave entries that a dump can show: numbers that
/// `usize` holds, and class names of the allowed characters that are not
/// empty and do not start with whitespace.
pub proof fn lemma_entries_read_are_entries(s: Seq<char>, i: int)
    requires
        0 <= i <= s.len(),
    ensures
        entries_from(s, i) matches Ok((entries, stop)) ==> are_entries(entries) && i <= stop
            <= s.len(),
    decreases s.len() - i,
{
    let p = run_end(s, i, CharClass::Whitespace);
    lemma_run_end(s, i, CharClass::Whitespace);
    if p < s.len() && is_digit(s[p]) {
        lemma_entry_read_is_entry(s, p);
        lemma_entry_at_advances(s, p);
        if let Ok((entry, next)) = entry_at(s, p) {
            lemma_entries_read_are_entries(s, next);
            if let Ok((rest, stop)) = entries_from(s, next) {
                let entries = seq![entry] + rest;
                assert forall|k: int| 0 <= k < entries.len() implies is_entry(
                    #[trigger] entries[k],
                ) by {
                    if k > 0 {
                        assert(entries[k] == rest[k - 1]);
                    }
                }
            }
        }
    }
}

/// The rendering of entries is read back as these entries: every line is
/// read as the entry that it was written for, and nothing else is read.
#[verifier::rlimit(40)]
pub proof fn lemma_rendering_read(entries: Seq<EntryView>, with_module: bool)
    requires
        are_entries(entries),
    ensures
        document(histogram_text(entries, with_module)) == Ok::<(Seq<EntryView>, int), Failure>(
            (entries, histogram_text(entries, with_module).len() as int),
        ),
{
    let dump = rendered_dump(entries, with_module);
    lemma_rendered_rows(entries);
    lemma_rendered_dump_text(entries, with_module);
    lemma_spaces(5);
    lemma_spaces(9);
    lemma_spaces(2);
    assert(is_tail(dump.tail));
    assert(dump.valid());
    lemma_dump_read(dump);
}

/// A header that was read ends inside the text.
pub proof fn lemma_header_in_text(s: Seq<char>)
    ensures
        header(s) matches Ok(end) ==> 0 <= end <= s.len(),
{
    reveal(literal_at);
    lemma_titles_grow(s);
    if let Ok(behind) = titles(s) {
        let p = run_end(s, behind, CharClass::Whitespace);
        lemma_run_end(s, behind, CharClass::Whitespace);
        lemma_run_end(s, p, CharClass::Dash);
        if literal_at(s, p, Title::Module.text()) {
            let m = p + Title::Module.text().len();
            lemma_run_end(s, m, CharClass::Whitespace);
            lemma_run_end(s, run_end(s, m, CharClass::Whitespace), CharClass::Dash);
        }
    }
}

/// What was parsed from a text is parsed again from its own rendering: the
/// rendering of the entries of a dump, with or without the title `(module)`,
/// is a dump with the same entries in the same order.
pub proof fn lemma_round_trip(s: Seq<char>, with_module: bool)
    requires
        document(s) is Ok,
    ensures
        document(histogram_text(document(s)->Ok_0.0, with_module)) is Ok,
        document(histogram_text(document(s)->Ok_0.0, with_module))->Ok_0.0 == document(
            s,
        )->Ok_0.0,
{
    let start = header(s)->Ok_0;
    lemma_header_in_text(s);
    lemma_entries_read_are_entries(s, start);
    lemma_rendering_read(document(s)->Ok_0.0, with_module);
}

/// A text whose header is wrong gives no entries: parsing fails with the
/// failure of the header, whatever rows follow.
pub proof fn lemma_header_comes_first(s: Seq<char>)
    requires
        header(s) is Err,
    ensures
        document(s) == Err::<(Seq<EntryView>, int), Failure>(header(s)->Err_0),
{
}

} // verus!
