use jheap_histo::parser::{entry_parser, header_parser, locate, number_parser, parse_chars};
use jheap_histo::{
    Entry, Expected, FileTimes, Histogram, HistogramParseError, HistogramWithTimestamp,
    ParseErrorKind, Timestamp, Title,
};

fn chars(text: &str) -> Vec<char> {
    text.chars().collect()
}

fn entry(rank: usize, instances_count: usize, bytes: usize, class_name: &str) -> Entry {
    Entry { rank, instances_count, bytes, class_name: class_name.to_string() }
}

fn failure(text: &str) -> HistogramParseError {
    Histogram::parse(text).unwrap_err()
}

const HEADER: &str = " num     #instances         #bytes  class name\n----------------------------------------------\n";

const MODULE_HEADER: &str = " num     #instances         #bytes  class name (module)\n-------------------------------------------------------\n";

fn sample_histo_with_header() -> String {
    let rows: [(usize, usize, &str); 40] = [
        (58102, 6823472, "[C"),
        (4719, 4195360, "[B"),
        (17402, 1914220, "java.lang.Class"),
        (57741, 1385784, "java.lang.String"),
        (7999, 1290520, "[Ljava.util.concurrent.ConcurrentHashMap$Node;"),
        (36396, 1164672, "java.util.concurrent.ConcurrentHashMap$Node"),
        (16902, 1100416, "[Ljava.lang.Object;"),
        (11420, 1004960, "java.lang.reflect.Method"),
        (8713, 722008, "[I"),
        (20100, 643200, "java.util.HashMap$Node"),
        (4310, 517432, "[Ljava.util.HashMap$Node;"),
        (12560, 401920, "java.util.Hashtable$Entry"),
        (9120, 364800, "java.util.LinkedHashMap$Entry"),
        (7012, 336576, "java.util.HashMap"),
        (13821, 331704, "java.util.ArrayList"),
        (5120, 286720, "java.util.LinkedHashMap"),
        (2980, 262240, "java.lang.reflect.Constructor"),
        (10340, 248160, "java.lang.Long"),
        (3011, 240880, "java.lang.reflect.Field"),
        (5800, 232000, "java.lang.ref.SoftReference"),
        (9105, 218520, "java.util.concurrent.atomic.AtomicLong"),
        (4302, 206496, "java.util.concurrent.ConcurrentHashMap"),
        (6010, 192320, "java.lang.ref.WeakReference"),
        (1480, 177600, "java.lang.Thread"),
        (5210, 166720, "java.util.concurrent.locks.ReentrantLock$NonfairSync"),
        (3920, 156800, "java.math.BigInteger"),
        (2407, 154048, "java.net.URL"),
        (6120, 146880, "java.lang.StringBuilder"),
        (1802, 144160, "java.util.regex.Pattern"),
        (8530, 136480, "java.lang.Integer"),
        (1310, 125760, "sun.nio.cs.UTF_8$Decoder"),
        (3640, 116480, "java.util.Collections$UnmodifiableMap"),
        (4401, 105624, "java.util.LinkedList$Node"),
        (2600, 104000, "java.util.TreeMap$Entry"),
        (1207, 96560, "java.util.jar.JarFile$JarFileEntry"),
        (3950, 94800, "java.util.Date"),
        (910, 87360, "java.util.zip.Inflater"),
        (5320, 85120, "java.lang.Object"),
        (1120, 80640, "java.lang.invoke.MethodType"),
        (2310, 73920, "java.lang.invoke.LambdaForm$Name"),
    ];
    let mut text = String::new();
    text.push_str(" num     #instances         #bytes  class name\n");
    text.push_str("----------------------------------------------\n");
    for (i, (instances, bytes, class_name)) in rows.iter().enumerate() {
        text.push_str(&format!("{:>4}: {:>13} {:>14}  {}\n", i + 1, instances, bytes, class_name));
    }
    text.push_str("Total        438214       27654912\n");
    text
}

fn sample_histo_with_module_header() -> String {
    let modules = ["java.base@11.0.9", "java.logging@11.0.9", "jdk.compiler@11.0.9"];
    let mut text = String::new();
    text.push_str(" num     #instances         #bytes  class name (module)\n");
    text.push_str("-------------------------------------------------------\n");
    for i in 0..13831usize {
        let class_name = if i % 7 == 0 {
            format!("com.example.generated.Type{}$$Lambda${}/0x{:016x}", i, i % 89, i * 4096)
        } else {
            format!("com.example.generated.Type{} ({})", i, modules[i % 3])
        };
        text.push_str(&format!(
            "{:>4}: {:>13} {:>14}  {}\n",
            i + 1,
            2000000 - i * 3,
            900000000 - i * 512,
            class_name
        ));
    }
    text.push_str("Total      27604321     1762310984\n");
    text
}

#[test]
fn parse_entry_test() {
    let input =
        "  14:          7999        1290520  [Ljava.util.concurrent.ConcurrentHashMap$Node;";
    let chars: Vec<char> = input.chars().collect();
    let r = entry_parser(&chars, 0).unwrap().0;
    let expected = Entry {
        rank: 14,
        instances_count: 7999,
        bytes: 1290520,
        class_name: "[Ljava.util.concurrent.ConcurrentHashMap$Node;".to_string(),
    };
    assert_eq!(expected, r);
}

#[test]
fn parse_with_header_test() {
    let r = Histogram::parse(&sample_histo_with_header()).unwrap();
    assert_eq!(40, r.0.len())
}

#[test]
fn parse_with_module_header_test() {
    let r = Histogram::parse(&sample_histo_with_module_header()).unwrap();
    assert_eq!(13831, r.0.len())
}

#[test]
fn open_histogram_with_timestamp_test() {
    let times = FileTimes {
        created: None,
        modified: Some(Timestamp { seconds: 1_600_000_000, nanoseconds: 0 }),
    };
    let r = HistogramWithTimestamp::from_source(
        Some("sample_histo_with_header"),
        times,
        &sample_histo_with_header(),
    )
    .unwrap();
    assert_eq!(40, r.histogram.0.len());
    assert_eq!(Timestamp { seconds: 1_600_000_000, nanoseconds: 0 }, r.timestamp);
}

#[test]
fn sample_entries_are_in_document_order() {
    let r = Histogram::parse(&sample_histo_with_header()).unwrap();
    assert_eq!(entry(1, 58102, 6823472, "[C"), r.0[0]);
    assert_eq!(
        entry(5, 7999, 1290520, "[Ljava.util.concurrent.ConcurrentHashMap$Node;"),
        r.0[4]
    );
    assert_eq!(entry(40, 2310, 73920, "java.lang.invoke.LambdaForm$Name"), r.0[39]);
    for (i, e) in r.0.iter().enumerate() {
        assert_eq!(i + 1, e.rank);
    }
}

#[test]
fn module_sample_keeps_module_annotations() {
    let r = Histogram::parse(&sample_histo_with_module_header()).unwrap();
    assert_eq!(
        entry(2, 1999997, 899999488, "com.example.generated.Type1 (java.logging@11.0.9)"),
        r.0[1]
    );
    assert_eq!(13831, r.0[13830].rank);
}

#[test]
fn header_with_and_without_module_give_equal_histograms() {
    let rows = "   1:            10            160  java.lang.Object\n   2:             3             72  [I\n";
    let plain = Histogram::parse(&format!("{}{}", HEADER, rows)).unwrap();
    let with_module = Histogram::parse(&format!("{}{}", MODULE_HEADER, rows)).unwrap();
    assert_eq!(plain, with_module);
    assert_eq!(
        Histogram(vec![entry(1, 10, 160, "java.lang.Object"), entry(2, 3, 72, "[I")]),
        plain
    );
}

#[test]
fn class_name_with_spaces_and_punctuation_is_kept_verbatim() {
    let text = format!(
        "{}   7:             4            128  java.util.Map$Entry<K, V> (java.base@17.0.1) !#%&\n   8:             1             16  Next\n",
        MODULE_HEADER
    );
    let r = Histogram::parse(&text).unwrap();
    assert_eq!(2, r.0.len());
    assert_eq!("java.util.Map$Entry<K, V> (java.base@17.0.1) !#%&", r.0[0].class_name);
    assert_eq!("Next", r.0[1].class_name);
}

#[test]
fn class_name_keeps_trailing_spaces_of_its_line() {
    let text = format!("{}   1:             4            128  Foo Bar  \n", HEADER);
    let r = Histogram::parse(&text).unwrap();
    assert_eq!(vec![entry(1, 4, 128, "Foo Bar  ")], r.0);
}

#[test]
fn class_name_may_hold_every_punctuation_mark() {
    let name = "a!\"#$%&'()=~|-^\u{a5}@[;:],./_`{+*}<>?_ z";
    let text = format!("{}1: 2 3 {}\n", HEADER, name);
    let r = Histogram::parse(&text).unwrap();
    assert_eq!(vec![entry(1, 2, 3, name)], r.0);
}

#[test]
fn class_name_stops_at_a_character_outside_the_set() {
    let text = format!("{}1: 2 3 Foo\\Bar\n", HEADER);
    let (histogram, stop) = parse_chars(&chars(&text)).unwrap();
    assert_eq!(vec![entry(1, 2, 3, "Foo")], histogram.0);
    assert_eq!(HEADER.chars().count() + "1: 2 3 Foo".len(), stop);
}

#[test]
fn class_name_may_hold_letters_and_digits_of_any_script() {
    let text = format!("{}1: 2 3 \u{65e5}\u{672c}\u{8a9e}.\u{0663}Klasse\u{00df}\n", HEADER);
    let r = Histogram::parse(&text).unwrap();
    assert_eq!("\u{65e5}\u{672c}\u{8a9e}.\u{0663}Klasse\u{00df}", r.0[0].class_name);
}

#[test]
fn tab_ends_a_class_name() {
    let text = format!("{}1: 2 3 Foo\t4: 5 6 Bar\n", HEADER);
    let r = Histogram::parse(&text).unwrap();
    assert_eq!(vec![entry(1, 2, 3, "Foo"), entry(4, 5, 6, "Bar")], r.0);
}

#[test]
fn carriage_return_and_line_feed_end_lines() {
    let text = " num     #instances         #bytes  class name\r\n-----\r\n   1:  2  3  Foo\r\n   2:  4  5  Bar\r\n";
    let r = Histogram::parse(text).unwrap();
    assert_eq!(vec![entry(1, 2, 3, "Foo"), entry(2, 4, 5, "Bar")], r.0);
}

#[test]
fn header_alone_is_an_empty_histogram() {
    assert_eq!(Histogram(vec![]), Histogram::parse(HEADER).unwrap());
    assert_eq!(Histogram(vec![]), Histogram::parse("num #instances #bytes class name").unwrap());
    assert_eq!(Histogram(vec![]), Histogram::parse("num#instances#bytesclass name(module)").unwrap());
    assert_eq!(Histogram(vec![]), Histogram::parse(MODULE_HEADER).unwrap());
}

#[test]
fn what_follows_the_last_row_is_left_unread() {
    let text = format!("{}   1:  2  3  Foo\nTotal  2  3\n   2:  4  5  Bar\n", HEADER);
    let (histogram, stop) = parse_chars(&chars(&text)).unwrap();
    assert_eq!(vec![entry(1, 2, 3, "Foo")], histogram.0);
    assert_eq!(HEADER.chars().count() + "   1:  2  3  Foo\n".len(), stop);
    let rest: String = text.chars().skip(stop).collect();
    assert_eq!("Total  2  3\n   2:  4  5  Bar\n", rest);
}

#[test]
fn reading_stops_at_the_end_of_the_text() {
    let text = format!("{}   1:  2  3  Foo\n \t\n", HEADER);
    let (histogram, stop) = parse_chars(&chars(&text)).unwrap();
    assert_eq!(1, histogram.0.len());
    assert_eq!(text.chars().count(), stop);
}

#[test]
fn rule_may_be_missing() {
    let text = "num #instances #bytes class name\n1: 2 3 Foo\n";
    assert_eq!(vec![entry(1, 2, 3, "Foo")], Histogram::parse(text).unwrap().0);
}

#[test]
fn rows_need_no_line_of_their_own() {
    let text = "num #instances #bytes class name --- 1:2 3 Foo\n2:\n4\n5\nBar";
    assert_eq!(
        vec![entry(1, 2, 3, "Foo"), entry(2, 4, 5, "Bar")],
        Histogram::parse(text).unwrap().0
    );
}

#[test]
fn malformed_header_fails_without_entries() {
    let text = " num     #instances  class name\n-----\n   1:  2  3  Foo\n";
    let e = failure(text);
    assert_eq!(
        HistogramParseError {
            offset: 21,
            line: 0,
            column: 21,
            expected: Expected::Title(Title::Bytes),
            kind: ParseErrorKind::Unexpected,
        },
        e
    );
    assert!(header_parser(&chars(text)).is_err());
}

#[test]
fn each_title_is_required() {
    assert_eq!(Expected::Title(Title::Num), failure("nom #instances").expected);
    assert_eq!(Expected::Title(Title::Num), failure("1: 2 3 Foo").expected);
    assert_eq!(Expected::Title(Title::Instances), failure("num instances").expected);
    assert_eq!(Expected::Title(Title::Bytes), failure("num #instances bytes").expected);
    assert_eq!(
        Expected::Title(Title::ClassName),
        failure("num #instances #bytes classname").expected
    );
    assert_eq!(
        Expected::Title(Title::Module),
        failure("num #instances #bytes class name (modules").expected
    );
}

#[test]
fn header_cut_short_is_end_of_input() {
    let e = failure("");
    assert_eq!(
        HistogramParseError {
            offset: 0,
            line: 0,
            column: 0,
            expected: Expected::Title(Title::Num),
            kind: ParseErrorKind::EndOfInput,
        },
        e
    );
    let e = failure(" num\n #inst");
    assert_eq!(
        HistogramParseError {
            offset: 6,
            line: 1,
            column: 1,
            expected: Expected::Title(Title::Instances),
            kind: ParseErrorKind::EndOfInput,
        },
        e
    );
    assert_eq!(ParseErrorKind::EndOfInput, failure("num #instances #bytes class name (mod").kind);
    assert_eq!(ParseErrorKind::Unexpected, failure("num #instances #bytes class name (mod)").kind);
    assert_eq!(ParseErrorKind::Unexpected, failure("num #instancez").kind);
}

#[test]
fn row_that_starts_must_be_complete() {
    let e = failure(&format!("{}   1:  2  3  Foo\n   2 4 5 Bar\n", HEADER));
    assert_eq!(
        HistogramParseError {
            offset: HEADER.len() + 21,
            line: 3,
            column: 4,
            expected: Expected::Colon,
            kind: ParseErrorKind::Unexpected,
        },
        e
    );
    let e = failure(&format!("{}12", HEADER));
    assert_eq!((Expected::Colon, ParseErrorKind::EndOfInput), (e.expected, e.kind));
    let e = failure(&format!("{}12: x", HEADER));
    assert_eq!((Expected::Integer, ParseErrorKind::Unexpected), (e.expected, e.kind));
    assert_eq!(HEADER.len() + 4, e.offset);
    let e = failure(&format!("{}12: 3", HEADER));
    assert_eq!((Expected::Integer, ParseErrorKind::EndOfInput), (e.expected, e.kind));
    let e = failure(&format!("{}12: 3 -4 Foo", HEADER));
    assert_eq!((Expected::Integer, ParseErrorKind::Unexpected), (e.expected, e.kind));
    let e = failure(&format!("{}12: 3 4", HEADER));
    assert_eq!((Expected::ClassName, ParseErrorKind::EndOfInput), (e.expected, e.kind));
    let e = failure(&format!("{}12: 3 4 \\", HEADER));
    assert_eq!((Expected::ClassName, ParseErrorKind::Unexpected), (e.expected, e.kind));
    assert_eq!(HEADER.len() + 8, e.offset);
}

#[test]
fn number_that_usize_cannot_hold_is_an_overflow() {
    let most = usize::MAX;
    let text = format!("{}{}: {} {} Foo\n", HEADER, most, most, most);
    assert_eq!(vec![entry(most, most, most, "Foo")], Histogram::parse(&text).unwrap().0);
    let text = format!("{}1: 2 {}0 Foo\n", HEADER, most);
    let e = failure(&text);
    assert_eq!(
        HistogramParseError {
            offset: HEADER.len() + 5,
            line: 2,
            column: 5,
            expected: Expected::Integer,
            kind: ParseErrorKind::Overflow,
        },
        e
    );
    let digits = chars("18446744073709551616 ");
    if usize::MAX as u128 == u64::MAX as u128 {
        assert_eq!(ParseErrorKind::Overflow, number_parser(&digits, 0).unwrap_err().kind);
    }
    let digits = chars("99999999999999999999999999999999999999999999");
    assert_eq!(ParseErrorKind::Overflow, number_parser(&digits, 0).unwrap_err().kind);
}

#[test]
fn number_parser_reads_digits_only() {
    assert_eq!((1290520, 7), number_parser(&chars("1290520  x"), 0).unwrap());
    assert_eq!((7, 9), number_parser(&chars("x00000007"), 1).unwrap());
    assert_eq!((0, 1), number_parser(&chars("0"), 0).unwrap());
    assert_eq!((12, 2), number_parser(&chars("12,345"), 0).unwrap());
    let e = number_parser(&chars("+12"), 0).unwrap_err();
    assert_eq!((Expected::Integer, ParseErrorKind::Unexpected, 0), (e.expected, e.kind, e.offset));
    let e = number_parser(&chars("12"), 2).unwrap_err();
    assert_eq!((Expected::Integer, ParseErrorKind::EndOfInput, 2), (e.expected, e.kind, e.offset));
}

#[test]
fn entry_parser_returns_the_end_of_the_row() {
    let text = chars("\n  3:  4  5  a.b.C  \nrest");
    let (e, end) = entry_parser(&text, 0).unwrap();
    assert_eq!(entry(3, 4, 5, "a.b.C  "), e);
    assert_eq!(20, end);
    let (e, end) = entry_parser(&text, 3).unwrap();
    assert_eq!(entry(3, 4, 5, "a.b.C  "), e);
    assert_eq!(20, end);
    let e = entry_parser(&chars("Total 1 2"), 0).unwrap_err();
    assert_eq!((Expected::Integer, ParseErrorKind::Unexpected, 0), (e.expected, e.kind, e.offset));
}

#[test]
fn header_parser_returns_the_end_of_the_rule() {
    assert_eq!(HEADER.len() - 1, header_parser(&chars(HEADER)).unwrap());
    assert_eq!(MODULE_HEADER.len() - 1, header_parser(&chars(MODULE_HEADER)).unwrap());
    assert_eq!(32, header_parser(&chars("num #instances #bytes class name")).unwrap());
    assert_eq!(33, header_parser(&chars("num #instances #bytes class name x")).unwrap());
}

#[test]
fn locate_counts_lines_and_columns_from_zero() {
    let text = chars("ab\ncd\n\nefg");
    assert_eq!((0, 0), locate(&text, 0));
    assert_eq!((0, 2), locate(&text, 2));
    assert_eq!((1, 0), locate(&text, 3));
    assert_eq!((2, 0), locate(&text, 6));
    assert_eq!((3, 3), locate(&text, 10));
}

#[test]
fn offsets_count_characters_not_bytes() {
    let text = format!("{}1: 2 3 \u{65e5}\u{672c}\n4: x", HEADER);
    let e = failure(&text);
    assert_eq!(HEADER.len() + 13, e.offset);
    assert_eq!((3, 3), (e.line, e.column));
}

#[test]
fn parse_error_has_a_message() {
    assert_eq!("Failed to parse histogram", failure("").message());
}

#[test]
fn module_title_may_be_left_out_whatever_follows() {
    let rests = [
        "\n---\n 1: 2 3 Foo\n 2: 3 4 Bar\nTotal 5 7\n",
        "",
        " \t\n",
        "---",
        "1: 2 3 Foo",
        "\n---\n 1: 2 3 Foo\n 2 3 4 Bar\n",
        "\n---\n 1: 2 3 Foo\n 2: 3\n\n",
        "\n---\n 1: 2 99999999999999999999999999999 Foo\n",
        "\n---\n 1: 2 3",
        "\n-x-\n 1: 2 3 Foo",
    ];
    for rest in rests.iter() {
        let with = format!(" num #instances #bytes class name \n(module){}", rest);
        let without = format!(" num #instances #bytes class name \n{}", rest);
        let a = Histogram::parse_prefix(&with);
        let b = Histogram::parse_prefix(&without);
        match (a, b) {
            (Ok((x, stop_x)), Ok((y, stop_y))) => {
                assert_eq!(x, y);
                assert_eq!(stop_x, stop_y + 8);
            }
            (Err(x), Err(y)) => {
                assert_eq!((x.expected, x.kind), (y.expected, y.kind));
                assert_eq!(x.offset, y.offset + 8);
            }
            (a, b) => panic!("{:?} {:?} {:?}", rest, a, b),
        }
    }
}

#[test]
fn parenthesis_behind_the_module_title_is_no_second_title() {
    let with = " num #instances #bytes class name (module)(module)\n---\n1: 2 3 Foo\n";
    let without = " num #instances #bytes class name (module)\n---\n1: 2 3 Foo\n";
    assert_eq!(0, Histogram::parse(with).unwrap().0.len());
    assert_eq!(1, Histogram::parse(without).unwrap().0.len());
}
