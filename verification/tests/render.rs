use jheap_histo::{Entry, Histogram};

fn entry(rank: usize, instances_count: usize, bytes: usize, class_name: &str) -> Entry {
    Entry { rank, instances_count, bytes, class_name: class_name.to_string() }
}

#[test]
fn entry_renders_as_the_line_of_a_dump() {
    let e = entry(14, 7999, 1290520, "[Ljava.util.concurrent.ConcurrentHashMap$Node;");
    assert_eq!(
        "  14:          7999        1290520  [Ljava.util.concurrent.ConcurrentHashMap$Node;\n",
        e.render()
    );
}

#[test]
fn entry_wider_than_its_columns_is_not_cut() {
    let e = entry(123456, 12345678901234, 123456789012345, "x");
    assert_eq!("123456: 12345678901234 123456789012345  x\n", e.render());
    let e = entry(0, 0, 0, "x");
    assert_eq!("   0:             0              0  x\n", e.render());
    let e = entry(usize::MAX, 1, 2, "x");
    assert_eq!(format!("{}:             1              2  x\n", usize::MAX), e.render());
}

#[test]
fn write_line_appends() {
    let mut out = String::from("head\n");
    entry(1, 2, 3, "A b").write_line(&mut out);
    entry(10, 20, 30, "C").write_line(&mut out);
    assert_eq!(
        "head\n   1:             2              3  A b\n  10:            20             30  C\n",
        out
    );
}

#[test]
fn histogram_renders_titles_rule_and_lines() {
    let h = Histogram(vec![entry(1, 58102, 6823472, "[C"), entry(2, 4719, 4195360, "[B")]);
    assert_eq!(
        " num     #instances         #bytes  class name\n\
         ----------------------------------------------\n   \
         1:         58102        6823472  [C\n   \
         2:          4719        4195360  [B\n",
        h.render(false)
    );
    assert_eq!(
        " num     #instances         #bytes  class name (module)\n\
         -------------------------------------------------------\n   \
         1:         58102        6823472  [C\n   \
         2:          4719        4195360  [B\n",
        h.render(true)
    );
    assert_eq!(
        " num     #instances         #bytes  class name\n\
         ----------------------------------------------\n",
        Histogram(vec![]).render(false)
    );
}

#[test]
fn rendering_is_parsed_back() {
    let h = Histogram(vec![
        entry(1, 58102, 6823472, "[C"),
        entry(2, 0, usize::MAX, "java.util.Map$Entry<K, V> (java.base@17.0.1)"),
        entry(3, 7, 8, "9: 10 11 looks like a row"),
        entry(12345678, 7, 8, "trailing spaces  "),
        entry(5, 7, 8, "\u{65e5}\u{672c}\u{8a9e}"),
    ]);
    assert_eq!(h, Histogram::parse(&h.render(false)).unwrap());
    assert_eq!(h, Histogram::parse(&h.render(true)).unwrap());
    let empty = Histogram(vec![]);
    assert_eq!(empty, Histogram::parse(&empty.render(true)).unwrap());
}

#[test]
fn parsed_dump_is_parsed_again_from_its_rendering() {
    let text = "num #instances\t#bytes class name\n\n 7:1 2 a  b \n8:\n3\n4\n c!\nTotal 4 6\n";
    let first = Histogram::parse(text).unwrap();
    assert_eq!(vec![entry(7, 1, 2, "a  b "), entry(8, 3, 4, "c!")], first.0);
    let rendered = first.render(false);
    assert_eq!(
        " num     #instances         #bytes  class name\n\
         ----------------------------------------------\n   \
         7:             1              2  a  b \n   \
         8:             3              4  c!\n",
        rendered
    );
    let second = Histogram::parse(&rendered).unwrap();
    assert_eq!(first, second);
    assert_eq!(rendered, second.render(false));
}
