//! Writing a histogram down as the text of a dump, in the layout that `jmap`
//! uses: the rank in a column of 4, the instances in a column of 13, the bytes
//! in a column of 14, each right-aligned, then two spaces and the class name.

use vstd::prelude::*;
use crate::histo::{Entry, EntryView, Histogram, Title};

verus! {

/// The width of the column of ranks.
pub const RANK_WIDTH: usize = 4;

/// The width of the column of instance counts.
pub const INSTANCES_WIDTH: usize = 13;

/// The width of the column of byte counts.
pub const BYTES_WIDTH: usize = 14;

/// The length of the rule under the titles of a dump without modules.
pub const RULE_LENGTH: usize = 46;

/// The length of the rule under the titles of a dump with modules.
pub const MODULE_RULE_LENGTH: usize = 55;

/// The digit that stands for a number below ten.
pub open spec fn digit_char(d: nat) -> char {
    if d == 0 {
        '0'
    } else if d == 1 {
        '1'
    } else if d == 2 {
        '2'
    } else if d == 3 {
        '3'
    } else if d == 4 {
        '4'
    } else if d == 5 {
        '5'
    } else if d == 6 {
        '6'
    } else if d == 7 {
        '7'
    } else if d == 8 {
        '8'
    } else {
        '9'
    }
}

/// A number in decimal digits, without leading zeros.
pub open spec fn decimal_digits(n: nat) -> Seq<char>
    decreases n,
{
    if n < 10 {
        seq![digit_char(n)]
    } else {
        decimal_digits(n / 10).push(digit_char(n % 10))
    }
}

/// `count` times the character `c`.
pub open spec fn repeated(c: char, count: nat) -> Seq<char> {
    Seq::new(count, |i: int| c)
}

/// `text` behind as many spaces as bring it to `width` characters, or behind
/// none where it is that long already.
pub open spec fn right_aligned(text: Seq<char>, width: nat) -> Seq<char> {
    repeated(' ', if text.len() < width { (width - text.len()) as nat } else { 0 }) + text
}

/// The line of a dump that shows `entry`, with the line feed at its end.
pub open spec fn entry_line(entry: EntryView) -> Seq<char> {
    right_aligned(decimal_digits(entry.rank), RANK_WIDTH as nat) + seq![':', ' ']
        + right_aligned(decimal_digits(entry.instances_count), INSTANCES_WIDTH as nat) + seq![' ']
        + right_aligned(decimal_digits(entry.bytes), BYTES_WIDTH as nat) + seq![' ', ' ']
        + entry.class_name + seq!['\n']
}

/// The lines that show `entries`, one behind the other.
pub open spec fn entry_lines(entries: Seq<EntryView>) -> Seq<char>
    decreases entries.len(),
{
    if entries.len() == 0 {
        Seq::empty()
    } else {
        entry_lines(entries.drop_last()) + entry_line(entries.last())
    }
}

/// The two lines that open a dump: the titles, with `(module)` where
/// `with_module` says so, and the rule under them.
pub open spec fn header_lines(with_module: bool) -> Seq<char> {
    seq![' '] + Title::Num.text() + repeated(' ', 5) + Title::Instances.text() + repeated(' ', 9)
        + Title::Bytes.text() + repeated(' ', 2) + Title::ClassName.text() + (if with_module {
        seq![' '] + Title::Module.text()
    } else {
        Seq::empty()
    }) + seq!['\n'] + repeated(
        '-',
        if with_module {
            MODULE_RULE_LENGTH as nat
        } else {
            RULE_LENGTH as nat
        },
    ) + seq!['\n']
}

/// The text of a dump that shows `entries`.
pub open spec fn histogram_text(entries: Seq<EntryView>, with_module: bool) -> Seq<char> {
    header_lines(with_module) + entry_lines(entries)
}

/// The digit for `d`.
fn digit_of(d: usize) -> (c: char)
    requires
        d < 10,
    ensures
        c == digit_char(d as nat),
{
    if d == 0 {
        '0'
    } else if d == 1 {
        '1'
    } else if d == 2 {
        '2'
    } else if d == 3 {
        '3'
    } else if d == 4 {
        '4'
    } else if d == 5 {
        '5'
    } else if d == 6 {
        '6'
    } else if d == 7 {
        '7'
    } else if d == 8 {
        '8'
    } else {
        '9'
    }
}

/// Appends the decimal digits of `n` to `out`.
fn push_decimal(out: &mut Vec<char>, n: usize)
    ensures
        final(out)@ == old(out)@ + decimal_digits(n as nat),
    decreases n,
{
    if n >= 10 {
        push_decimal(out, n / 10);
    }
    out.push(digit_of(n % 10));
}

/// Appends `count` times the character `c` to `out`.
fn push_repeated(out: &mut String, c: char, count: usize)
    ensures
        final(out)@ == old(out)@ + repeated(c, count as nat),
{
    let mut i: usize = 0;
    while i < count
        invariant
            i <= count,
            out@ == old(out)@ + repeated(c, i as nat),
        decreases count - i,
    {
        out.push(c);
        i = i + 1;
    }
}

/// Appends the characters of `chars` to `out`.
fn push_chars(out: &mut String, chars: &Vec<char>)
    ensures
        final(out)@ == old(out)@ + chars@,
{
    let mut i: usize = 0;
    while i < chars.len()
        invariant
            i <= chars@.len(),
            out@ == old(out)@ + chars@.subrange(0, i as int),
        decreases chars@.len() - i,
    {
        out.push(chars[i]);
        i = i + 1;
    }
    assert(chars@.subrange(0, chars@.len() as int) =~= chars@);
}

/// Appends `n` in decimal to `out`, right-aligned in a column of `width`.
fn push_number(out: &mut String, n: usize, width: usize)
    ensures
        final(out)@ == old(out)@ + right_aligned(decimal_digits(n as nat), width as nat),
{
    let mut digits: Vec<char> = Vec::new();
    push_decimal(&mut digits, n);
    assert(digits@ =~= decimal_digits(n as nat));
    let pad = if digits.len() < width {
        width - digits.len()
    } else {
        0
    };
    let ghost before = out@;
    push_repeated(out, ' ', pad);
    push_chars(out, &digits);
    assert(out@ =~= before + right_aligned(decimal_digits(n as nat), width as nat));
}

impl Entry {
    /// Appends the line that shows the entry to `out`.
    pub fn write_line(&self, out: &mut String)
        ensures
            final(out)@ == old(out)@ + entry_line(self@),
    {
        let ghost before = out@;
        push_number(out, self.rank, RANK_WIDTH);
        out.push(':');
        out.push(' ');
        push_number(out, self.instances_count, INSTANCES_WIDTH);
        out.push(' ');
        push_number(out, self.bytes, BYTES_WIDTH);
        out.push(' ');
        out.push(' ');
        out.append(self.class_name.as_str());
        out.push('\n');
        assert(out@ =~= before + entry_line(self@));
    }

    /// The line of a dump that shows the entry, with the line feed at its end.
    pub fn render(&self) -> (line: String)
        ensures
            line@ == entry_line(self@),
    {
        let mut line = String::new();
        self.write_line(&mut line);
        assert(Seq::<char>::empty() + entry_line(self@) =~= entry_line(self@));
        line
    }
}

impl Histogram {
    /// The text of a dump that shows the histogram: the titles, with `(module)`
    /// where `with_module` says so, the rule, and one line for each entry.
    pub fn render(&self, with_module: bool) -> (text: String)
        ensures
            text@ == histogram_text(self@, with_module),
    {
        let mut text = String::new();
        text.push(' ');
        push_chars(&mut text, &Title::Num.chars());
        push_repeated(&mut text, ' ', 5);
        push_chars(&mut text, &Title::Instances.chars());
        push_repeated(&mut text, ' ', 9);
        push_chars(&mut text, &Title::Bytes.chars());
        push_repeated(&mut text, ' ', 2);
        push_chars(&mut text, &Title::ClassName.chars());
        if with_module {
            text.push(' ');
            push_chars(&mut text, &Title::Module.chars());
        }
        text.push('\n');
        push_repeated(
            &mut text,
            '-',
            if with_module {
                MODULE_RULE_LENGTH
            } else {
                RULE_LENGTH
            },
        );
        text.push('\n');
        assert(text@ =~= header_lines(with_module));
        let mut i: usize = 0;
        assert(self@.subrange(0, 0) =~= Seq::<EntryView>::empty());
        assert(text@ =~= header_lines(with_module) + entry_lines(self@.subrange(0, 0)));
        while i < self.0.len()
            invariant
                i <= self.0@.len(),
                text@ == header_lines(with_module) + entry_lines(self@.subrange(0, i as int)),
            decreases self.0@.len() - i,
        {
            let ghost before = text@;
            self.0[i].write_line(&mut text);
            proof {
                let done = self@.subrange(0, i + 1);
                assert(done.drop_last() =~= self@.subrange(0, i as int));
                assert(done.last() == self.0@[i as int]@);
                assert(text@ =~= header_lines(with_module) + entry_lines(done));
            }
            i = i + 1;
        }
        assert(self@.subrange(0, self.0@.len() as int) =~= self@);
        text
    }
}

} // verus!
