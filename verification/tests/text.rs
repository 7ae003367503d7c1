use ferro::text::{find_in, join, parse_index, split_lines, split_on, split_words, str_eq, Index};

#[test]
fn split_on_dots() {
    assert_eq!(split_on("a.b.c", '.'), vec!["a", "b", "c"]);
    assert_eq!(split_on("", '.'), vec![""]);
    assert_eq!(split_on(".", '.'), vec!["", ""]);
    assert_eq!(split_on("a..b.", '.'), vec!["a", "", "b", ""]);
    assert_eq!(split_on("no dots", '.'), vec!["no dots"]);
    assert_eq!(split_on("é.ü", '.'), vec!["é", "ü"]);
}

#[test]
fn words_of_a_line() {
    assert_eq!(split_words("/bin/ls -l /"), vec!["/bin/ls", "-l", "/"]);
    assert_eq!(split_words("  a \t b\n"), vec!["a", "b"]);
    assert!(split_words("").is_empty());
    assert!(split_words(" \t ").is_empty());
    assert_eq!(split_words("one"), vec!["one"]);
    assert_eq!(split_words("a\u{3000}b\u{a0}c"), vec!["a", "b", "c"]);
}

#[test]
fn lines_of_a_text() {
    assert_eq!(split_lines("a\nb\n"), vec!["a", "b"]);
    assert_eq!(split_lines("a\r\nb"), vec!["a", "b"]);
    assert_eq!(split_lines("a\n\nb"), vec!["a", "", "b"]);
    assert!(split_lines("").is_empty());
    assert_eq!(split_lines("\n"), vec![""]);
    assert_eq!(split_lines("a\r"), vec!["a\r"]);
    assert_eq!(split_lines("a\r\r\n"), vec!["a\r"]);
    for s in ["a\nb\n", "a\r\nb", "x\r", "\n\n", "", "one\ntwo\r\n\r\nthree"] {
        let expected: Vec<String> = s.lines().map(|l| l.to_owned()).collect();
        assert_eq!(split_lines(s), expected);
    }
}

#[test]
fn index_of_a_segment() {
    assert!(matches!(parse_index("0", 3), Index::At(0)));
    assert!(matches!(parse_index("2", 3), Index::At(2)));
    assert!(matches!(parse_index("007", 8), Index::At(7)));
    assert!(matches!(parse_index("3", 3), Index::OutOfRange));
    assert!(matches!(parse_index("0", 0), Index::OutOfRange));
    assert!(matches!(
        parse_index("340282366920938463463374607431768211456", usize::MAX),
        Index::OutOfRange
    ));
    assert!(matches!(parse_index("", 3), Index::NotNumeric));
    assert!(matches!(parse_index("a", 3), Index::NotNumeric));
    assert!(matches!(parse_index("1a", 3), Index::NotNumeric));
    assert!(matches!(parse_index("+1", 3), Index::NotNumeric));
    assert!(matches!(parse_index("١", 3), Index::NotNumeric));
}

#[test]
fn phrases_in_a_text() {
    assert!(find_in("Stack with id foo does not exist", "Stack with id"));
    assert!(find_in("Stack with id foo does not exist", "does not exist"));
    assert!(!find_in("Stack with id foo", "does not exist"));
    assert!(find_in("abc", ""));
    assert!(find_in("", ""));
    assert!(!find_in("", "a"));
    assert!(!find_in("ab", "abc"));
    assert!(find_in("aab", "ab"));
}

#[test]
fn joining_and_comparing() {
    assert_eq!(join("value not found at path ", "a.b"), "value not found at path a.b");
    assert!(str_eq("abc", "abc"));
    assert!(!str_eq("abc", "abd"));
    assert!(!str_eq("abc", "ab"));
    assert!(str_eq("", ""));
}
