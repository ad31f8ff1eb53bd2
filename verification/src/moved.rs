//! Reading does not depend on where a text stands: what is read from one
//! place of a text is read from any place of any text behind which the same
//! characters stand, with every position moved by the distance of the two
//! places.

use vstd::prelude::*;
use crate::chars::{is_digit, lemma_run_end, lemma_run_end_is, run_end, CharClass};
use crate::grammar::{
    entries_from, entry_at, lemma_entry_at_advances, literal_at, number_at, title_at, titles,
    Failure,
};
use crate::histo::{EntryView, Title};

verus! {

/// Whether the same characters stand in `s` from `i` on and in `t` from `j` on.
pub open spec fn same_from(s: Seq<char>, i: int, t: Seq<char>, j: int) -> bool {
    &&& 0 <= i <= s.len()
    &&& 0 <= j <= t.len()
    &&& s.len() - i == t.len() - j
    &&& forall|k: int| i <= k < s.len() ==> #[trigger] s[k] == t[k - (i - j)]
}

/// The failure `f`, at a place that lies `by` further on.
pub open spec fn moved(f: Failure, by: int) -> Failure {
    Failure { offset: f.offset + by, expected: f.expected, kind: f.kind }
}

/// What was read of a number, at a place that lies `by` further on.
pub open spec fn moved_number(r: Result<(nat, int), Failure>, by: int) -> Result<
    (nat, int),
    Failure,
> {
    match r {
        Ok((value, end)) => Ok((value, end + by)),
        Err(f) => Err(moved(f, by)),
    }
}

/// What was read of a row, at a place that lies `by` further on.
pub open spec fn moved_entry(r: Result<(EntryView, int), Failure>, by: int) -> Result<
    (EntryView, int),
    Failure,
> {
    match r {
        Ok((entry, end)) => Ok((entry, end + by)),
        Err(f) => Err(moved(f, by)),
    }
}

/// What was read of rows, at a place that lies `by` further on.
pub open spec fn moved_entries(r: Result<(Seq<EntryView>, int), Failure>, by: int) -> Result<
    (Seq<EntryView>, int),
    Failure,
> {
    match r {
        Ok((entries, stop)) => Ok((entries, stop + by)),
        Err(f) => Err(moved(f, by)),
    }
}

/// The same characters stand behind places that lie equally far on.
pub proof fn lemma_same_further(s: Seq<char>, i: int, t: Seq<char>, j: int, by: int)
    requires
        same_from(s, i, t, j),
        0 <= by <= s.len() - i,
    ensures
        same_from(s, i + by, t, j + by),
{
}

/// The same characters between two places make the same text.
pub proof fn lemma_same_text(s: Seq<char>, i: int, t: Seq<char>, j: int, length: int)
    requires
        same_from(s, i, t, j),
        0 <= length <= s.len() - i,
    ensures
        s.subrange(i, i + length) == t.subrange(j, j + length),
{
    assert forall|k: int| 0 <= k < length implies #[trigger] s.subrange(i, i + length)[k]
        == t.subrange(j, j + length)[k] by {
        assert(s[i + k] == t[i + k - (i - j)]);
    }
    assert(s.subrange(i, i + length) =~= t.subrange(j, j + length));
}

/// A run is as long in one text as in the other.
pub proof fn lemma_run_moved(s: Seq<char>, i: int, t: Seq<char>, j: int, class: CharClass)
    requires
        same_from(s, i, t, j),
    ensures
        run_end(s, i, class) == run_end(t, j, class) + (i - j),
        same_from(s, run_end(s, i, class), t, run_end(t, j, class)),
        i <= run_end(s, i, class) <= s.len(),
{
    let end = run_end(t, j, class);
    lemma_run_end(t, j, class);
    let by = end - j;
    assert forall|k: int| i <= k < i + by implies class.contains(#[trigger] s[k]) by {
        assert(s[k] == t[k - (i - j)]);
    }
    if i + by < s.len() {
        assert(s[i + by] == t[i + by - (i - j)]);
    }
    lemma_run_end_is(s, i, i + by, class);
    lemma_same_further(s, i, t, j, by);
}

/// A number is read alike in one text and in the other.
pub proof fn lemma_number_moved(s: Seq<char>, i: int, t: Seq<char>, j: int)
    requires
        same_from(s, i, t, j),
    ensures
        number_at(s, i) == moved_number(number_at(t, j), i - j),
        number_at(s, i) matches Ok((value, end)) ==> i <= end <= s.len() && same_from(
            s,
            end,
            t,
            end - (i - j),
        ),
{
    lemma_run_moved(s, i, t, j, CharClass::Digit);
    let end = run_end(s, i, CharClass::Digit);
    lemma_same_text(s, i, t, j, end - i);
    if i < s.len() {
        assert(s[i] == t[i - (i - j)]);
    }
}

/// A row is read alike in one text and in the other.
#[verifier::rlimit(40)]
pub proof fn lemma_entry_moved(s: Seq<char>, i: int, t: Seq<char>, j: int)
    requires
        same_from(s, i, t, j),
    ensures
        entry_at(s, i) == moved_entry(entry_at(t, j), i - j),
        entry_at(s, i) matches Ok((entry, end)) ==> i <= end <= s.len() && same_from(
            s,
            end,
            t,
            end - (i - j),
        ),
{
    let by = i - j;
    lemma_number_moved(s, i, t, j);
    if let Ok((_, a)) = number_at(s, i) {
        if a < s.len() {
            assert(s[a] == t[a - by]);
        }
        if a < s.len() && s[a] == ':' {
            lemma_same_further(s, a, t, a - by, 1);
            lemma_run_moved(s, a + 1, t, a + 1 - by, CharClass::Whitespace);
            let q = run_end(s, a + 1, CharClass::Whitespace);
            lemma_number_moved(s, q, t, q - by);
            if let Ok((_, b)) = number_at(s, q) {
                lemma_run_moved(s, b, t, b - by, CharClass::Whitespace);
                let r = run_end(s, b, CharClass::Whitespace);
                lemma_number_moved(s, r, t, r - by);
                if let Ok((_, c)) = number_at(s, r) {
                    lemma_run_moved(s, c, t, c - by, CharClass::Whitespace);
                    let from = run_end(s, c, CharClass::Whitespace);
                    lemma_run_moved(s, from, t, from - by, CharClass::ClassName);
                    let to = run_end(s, from, CharClass::ClassName);
                    lemma_same_text(s, from, t, from - by, to - from);
                    if from < s.len() {
                        assert(s[from] == t[from - by]);
                    }
                }
            }
        }
    }
}

/// Rows are read alike in one text and in the other.
pub proof fn lemma_entries_moved(s: Seq<char>, i: int, t: Seq<char>, j: int)
    requires
        same_from(s, i, t, j),
    ensures
        entries_from(s, i) == moved_entries(entries_from(t, j), i - j),
    decreases s.len() - i,
{
    let by = i - j;
    lemma_run_moved(s, i, t, j, CharClass::Whitespace);
    let p = run_end(s, i, CharClass::Whitespace);
    if p < s.len() {
        assert(s[p] == t[p - by]);
    }
    if p < s.len() && is_digit(s[p]) {
        lemma_entry_moved(s, p, t, p - by);
        lemma_entry_at_advances(s, p);
        if let Ok((_, next)) = entry_at(s, p) {
            lemma_entries_moved(s, next, t, next - by);
        }
    }
}

/// Whether `s` and `t` hold the same first `n` characters.
pub open spec fn same_until(s: Seq<char>, t: Seq<char>, n: int) -> bool {
    &&& 0 <= n <= s.len()
    &&& n <= t.len()
    &&& forall|k: int| 0 <= k < n ==> #[trigger] s[k] == t[k]
}

/// A title that is read within the start that two texts have in common is
/// read in both.
#[verifier::rlimit(40)]
pub proof fn lemma_title_in_common(s: Seq<char>, t: Seq<char>, n: int, i: int, title: Title)
    requires
        same_until(s, t, n),
        0 <= i,
        title_at(s, i, title) matches Ok(end) && end <= n,
    ensures
        title_at(t, i, title) == title_at(s, i, title),
        i <= title_at(s, i, title)->Ok_0,
{
    reveal(literal_at);
    let from = run_end(s, i, CharClass::Whitespace);
    let end = from + title.text().len();
    if i <= s.len() {
        lemma_run_end(s, i, CharClass::Whitespace);
    }
    reveal(Title::text);
    assert(title.text().len() > 0);
    assert(s[from] == s.subrange(from, end)[0]);
    assert(!CharClass::Whitespace.contains(title.text()[0]));
    assert(i <= s.len());
    assert forall|k: int| i <= k < from implies CharClass::Whitespace.contains(
        #[trigger] t[k],
    ) by {
        assert(s[k] == t[k]);
    }
    assert(s[from] == t[from]);
    lemma_run_end_is(t, i, from, CharClass::Whitespace);
    assert forall|k: int| 0 <= k < end - from implies #[trigger] t.subrange(from, end)[k]
        == s.subrange(from, end)[k] by {
        assert(s[from + k] == t[from + k]);
    }
    assert(t.subrange(from, end) =~= s.subrange(from, end));
}

/// The four titles that are read within the start that two texts have in
/// common are read in both.
pub proof fn lemma_titles_in_common(s: Seq<char>, t: Seq<char>, n: int)
    requires
        same_until(s, t, n),
        titles(s) matches Ok(end) && end <= n,
    ensures
        titles(t) == titles(s),
        0 <= titles(s)->Ok_0,
{
    let a = title_at(s, 0, Title::Num)->Ok_0;
    let b = title_at(s, a, Title::Instances)->Ok_0;
    let c = title_at(s, b, Title::Bytes)->Ok_0;
    let d = title_at(s, c, Title::ClassName)->Ok_0;
    lemma_title_grows(s, 0, Title::Num);
    lemma_title_grows(s, a, Title::Instances);
    lemma_title_grows(s, b, Title::Bytes);
    lemma_title_grows(s, c, Title::ClassName);
    lemma_title_in_common(s, t, n, 0, Title::Num);
    lemma_title_in_common(s, t, n, a, Title::Instances);
    lemma_title_in_common(s, t, n, b, Title::Bytes);
    lemma_title_in_common(s, t, n, c, Title::ClassName);
}

/// A title that is read ends behind the place where reading started.
pub proof fn lemma_title_grows(s: Seq<char>, i: int, title: Title)
    requires
        0 <= i,
    ensures
        title_at(s, i, title) matches Ok(end) ==> i <= end <= s.len(),
{
    reveal(literal_at);
    if i <= s.len() {
        lemma_run_end(s, i, CharClass::Whitespace);
    }
}

/// The four titles that are read end inside the text.
pub proof fn lemma_titles_grow(s: Seq<char>)
    ensures
        titles(s) matches Ok(end) ==> 0 <= end <= s.len(),
{
    lemma_title_grows(s, 0, Title::Num);
    if let Ok(a) = title_at(s, 0, Title::Num) {
        lemma_title_grows(s, a, Title::Instances);
        if let Ok(b) = title_at(s, a, Title::Instances) {
            lemma_title_grows(s, b, Title::Bytes);
            if let Ok(c) = title_at(s, b, Title::Bytes) {
                lemma_title_grows(s, c, Title::ClassName);
            }
        }
    }
}

} // verus!
