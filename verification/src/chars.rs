//! Character classes of the dump format, and scanning of runs of one class.

use vstd::prelude::*;

verus! {

/// What std's `char::is_alphanumeric` answers for `c`: whether Unicode lists it
/// as alphabetic or numeric.
pub uninterp spec fn unicode_alphanumeric(c: char) -> bool;

/// `char::is_alphanumeric` of std, by the name above. Nothing is claimed of any
/// particular character.
pub assume_specification[ char::is_alphanumeric ](c: char) -> (b: bool)
    ensures
        b == unicode_alphanumeric(c),
;

/// `String::push` of std appends one character.
pub assume_specification[ String::push ](s: &mut String, c: char)
    ensures
        final(s)@ == old(s)@.push(c),
;

/// Whitespace between tokens: space, tab, and the line terminators.
pub open spec fn is_whitespace(c: char) -> bool {
    c == ' ' || c == '\t' || c == '\n' || c == '\r'
}

/// A decimal digit, `0` to `9`.
pub open spec fn is_digit(c: char) -> bool {
    '0' <= c <= '9'
}

/// The number a decimal digit stands for.
pub open spec fn digit_value(c: char) -> nat
    recommends
        is_digit(c),
{
    (c as u32 - '0' as u32) as nat
}

/// The punctuation marks that may occur in a class name.
pub open spec fn is_punctuation(c: char) -> bool {
    ||| c == '!'
    ||| c == '"'
    ||| c == '#'
    ||| c == '$'
    ||| c == '%'
    ||| c == '&'
    ||| c == '\''
    ||| c == '('
    ||| c == ')'
    ||| c == '='
    ||| c == '~'
    ||| c == '|'
    ||| c == '-'
    ||| c == '^'
    ||| c == '\u{a5}'
    ||| c == '@'
    ||| c == '['
    ||| c == ';'
    ||| c == ':'
    ||| c == ']'
    ||| c == ','
    ||| c == '.'
    ||| c == '/'
    ||| c == '_'
    ||| c == '`'
    ||| c == '{'
    ||| c == '+'
    ||| c == '*'
    ||| c == '}'
    ||| c == '<'
    ||| c == '>'
    ||| c == '?'
}

/// A character of a class name: a space, or a character other than whitespace
/// that is alphanumeric or one of the punctuation marks. A class name may hold
/// spaces, and never runs over the end of a line.
pub open spec fn is_class_name_char(c: char) -> bool {
    c == ' ' || (!is_whitespace(c) && (unicode_alphanumeric(c) || is_punctuation(c)))
}

/// The classes of characters that the format has runs of.
#[derive(Clone, Copy, Debug, PartialEq, Eq, Structural)]
pub enum CharClass {
    /// Whitespace between tokens.
    Whitespace,
    /// Decimal digits of a number.
    Digit,
    /// The `-` of the rule under the column titles.
    Dash,
    /// Characters of a class name.
    ClassName,
}

impl CharClass {
    /// Whether `c` belongs to the class.
    pub open spec fn contains(self, c: char) -> bool {
        match self {
            CharClass::Whitespace => is_whitespace(c),
            CharClass::Digit => is_digit(c),
            CharClass::Dash => c == '-',
            CharClass::ClassName => is_class_name_char(c),
        }
    }

    /// Tests whether `c` belongs to the class.
    pub fn test(self, c: char) -> (b: bool)
        ensures
            b == self.contains(c),
    {
        match self {
            CharClass::Whitespace => char_is_whitespace(c),
            CharClass::Digit => char_is_digit(c),
            CharClass::Dash => c == '-',
            CharClass::ClassName => char_is_class_name_char(c),
        }
    }
}

/// Tests whether `c` is whitespace.
pub fn char_is_whitespace(c: char) -> (b: bool)
    ensures
        b == is_whitespace(c),
{
    c == ' ' || c == '\t' || c == '\n' || c == '\r'
}

/// Tests whether `c` is a decimal digit.
pub fn char_is_digit(c: char) -> (b: bool)
    ensures
        b == is_digit(c),
{
    c >= '0' && c <= '9'
}

/// The number that the digit `c` stands for.
pub fn char_digit_value(c: char) -> (v: usize)
    requires
        is_digit(c),
    ensures
        v == digit_value(c),
        v <= 9,
{
    (c as u32 - '0' as u32) as usize
}

/// Tests whether `c` is one of the punctuation marks of a class name.
pub fn char_is_punctuation(c: char) -> (b: bool)
    ensures
        b == is_punctuation(c),
{
    c == '!' || c == '"' || c == '#' || c == '$' || c == '%' || c == '&' || c == '\'' || c == '('
        || c == ')' || c == '=' || c == '~' || c == '|' || c == '-' || c == '^' || c == '\u{a5}'
        || c == '@' || c == '[' || c == ';' || c == ':' || c == ']' || c == ',' || c == '.' || c
        == '/' || c == '_' || c == '`' || c == '{' || c == '+' || c == '*' || c == '}' || c == '<'
        || c == '>' || c == '?'
}

/// Tests whether `c` may occur in a class name.
pub fn char_is_class_name_char(c: char) -> (b: bool)
    ensures
        b == is_class_name_char(c),
{
    c == ' ' || (!char_is_whitespace(c) && (c.is_alphanumeric() || char_is_punctuation(c)))
}

/// Where the run of characters of `class` that starts at `i` ends: the first
/// position from `i` on that holds no character of the class, or the end of `s`.
pub open spec fn run_end(s: Seq<char>, i: int, class: CharClass) -> int
    decreases s.len() - i,
{
    if 0 <= i < s.len() && class.contains(s[i]) {
        run_end(s, i + 1, class)
    } else {
        i
    }
}

/// The run from `i` to `run_end` holds characters of the class only, and is
/// followed by none.
pub proof fn lemma_run_end(s: Seq<char>, i: int, class: CharClass)
    requires
        0 <= i <= s.len(),
    ensures
        i <= run_end(s, i, class) <= s.len(),
        forall|k: int| i <= k < run_end(s, i, class) ==> class.contains(#[trigger] s[k]),
        run_end(s, i, class) < s.len() ==> !class.contains(s[run_end(s, i, class)]),
    decreases s.len() - i,
{
    if i < s.len() && class.contains(s[i]) {
        lemma_run_end(s, i + 1, class);
    }
}

/// A run that is followed by no character of the class ends where `run_end` says.
pub proof fn lemma_run_end_is(s: Seq<char>, i: int, end: int, class: CharClass)
    requires
        0 <= i <= end <= s.len(),
        forall|k: int| i <= k < end ==> class.contains(#[trigger] s[k]),
        end < s.len() ==> !class.contains(s[end]),
    ensures
        run_end(s, i, class) == end,
    decreases end - i,
{
    if i < end {
        lemma_run_end_is(s, i + 1, end, class);
    }
}

/// Scans the run of characters of `class` that starts at `start`.
pub fn scan_run(text: &[char], start: usize, class: CharClass) -> (end: usize)
    requires
        start <= text@.len(),
    ensures
        end == run_end(text@, start as int, class),
        start <= end <= text@.len(),
{
    let mut end: usize = start;
    while end < text.len() && class.test(text[end])
        invariant
            start <= end <= text@.len(),
            run_end(text@, start as int, class) == run_end(text@, end as int, class),
        decreases text@.len() - end,
    {
        end = end + 1;
    }
    end
}

/// The characters of `s`, in order.
pub fn chars_of(s: &str) -> (v: Vec<char>)
    ensures
        v@ == s@,
{
    let mut v: Vec<char> = Vec::new();
    for c in it: s.chars()
        invariant
            v@ == it.seq().take(it.index() as int),
    {
        v.push(c);
    }
    v
}

/// The string made of the characters `text[from..to]`.
pub fn string_of(text: &[char], from: usize, to: usize) -> (s: String)
    requires
        from <= to <= text@.len(),
    ensures
        s@ == text@.subrange(from as int, to as int),
{
    let mut s = String::new();
    let mut i: usize = from;
    while i < to
        invariant
            from <= i <= to <= text@.len(),
            s@ == text@.subrange(from as int, i as int),
        decreases to - i,
    {
        s.push(text[i]);
        i = i + 1;
    }
    s
}

} // verus!
