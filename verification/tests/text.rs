use atst::text::{
    chars_of, is_whitespace, line_spans, push_line, same_text, split_words, string_of, trim,
    word_spans,
};

fn lines_of(s: &str) -> Vec<String> {
    let v = chars_of(s);
    line_spans(&v).into_iter().map(|(a, b)| string_of(&v, a, b)).collect()
}

fn trimmed(s: &str) -> String {
    let v = trim(&chars_of(s));
    string_of(&v, 0, v.len())
}

#[test]
fn whitespace_is_what_std_calls_whitespace() {
    let mut c = 0u32;
    while c <= 0x10FFFF {
        if let Some(ch) = char::from_u32(c) {
            assert_eq!(is_whitespace(ch), ch.is_whitespace(), "U+{:04X}", c);
        }
        c += 1;
    }
}

#[test]
fn chars_and_back() {
    let s = "a\u{e9}\u{4e2d}\u{1F600} z";
    let v = chars_of(s);
    assert_eq!(v, s.chars().collect::<Vec<char>>());
    assert_eq!(string_of(&v, 0, v.len()), s);
    assert_eq!(string_of(&v, 1, 3), "\u{e9}\u{4e2d}");
    assert_eq!(string_of(&v, 2, 2), "");
    assert!(chars_of("").is_empty());
}

#[test]
fn same_text_compares_all_characters() {
    assert!(same_text(&chars_of("abc"), &chars_of("abc")));
    assert!(!same_text(&chars_of("abc"), &chars_of("abd")));
    assert!(!same_text(&chars_of("abc"), &chars_of("ab")));
    assert!(!same_text(&chars_of(""), &chars_of("a")));
    assert!(same_text(&chars_of(""), &chars_of("")));
}

#[test]
fn trim_agrees_with_std() {
    let samples = [
        "",
        " ",
        "a",
        "  a  ",
        "\t\n a b \r\n",
        "\u{a0}x\u{3000}",
        "\u{2003}\u{2003}",
        "no space",
        " inner  space kept ",
        "\u{feff}bom is no space ",
        "x\u{0b}\u{0c}",
    ];
    for s in samples {
        assert_eq!(trimmed(s), s.trim(), "{:?}", s);
    }
}

#[test]
fn trim_expected_values() {
    assert_eq!(trimmed("  hello world \n"), "hello world");
    assert_eq!(trimmed("\n\n"), "");
    assert_eq!(trimmed("*  "), "*");
}

#[test]
fn lines_agree_with_std() {
    let samples = [
        "",
        "\n",
        "\n\n",
        "a",
        "a\n",
        "a\nb",
        "a\r\nb\r\n",
        "a\rb\n",
        "a\n\nb\n",
        "\r\n",
        "\r",
        "a\r",
        "a\r\r\n",
        "\na",
        "x\u{2028}y\nz",
        "last line without end\nhere",
    ];
    for s in samples {
        let expected: Vec<String> = s.lines().map(String::from).collect();
        assert_eq!(lines_of(s), expected, "{:?}", s);
    }
}

#[test]
fn lines_expected_values() {
    assert_eq!(lines_of("a\r\nb\n\nc"), vec!["a", "b", "", "c"]);
    assert_eq!(lines_of("\n"), vec![""]);
    assert!(lines_of("").is_empty());
    assert_eq!(lines_of("a\r"), vec!["a\r"]);
}

#[test]
fn line_spans_are_index_pairs() {
    let v = chars_of("ab\r\n\ncd");
    assert_eq!(line_spans(&v), vec![(0, 2), (4, 4), (5, 7)]);
}

#[test]
fn words_agree_with_std() {
    let samples = [
        "",
        " ",
        "a",
        " a ",
        "-std=c99 -Wall -Wextra",
        "  -O2\t-g\n-lm  ",
        "a\u{a0}b\u{3000}c",
        "one",
        "\t\t",
    ];
    for s in samples {
        let expected: Vec<String> = s.split_whitespace().map(String::from).collect();
        assert_eq!(split_words(s), expected, "{:?}", s);
    }
}

#[test]
fn words_expected_values() {
    assert_eq!(split_words("-std=c99 -Wall  -Wextra"), vec!["-std=c99", "-Wall", "-Wextra"]);
    assert!(split_words(" \n ").is_empty());
    let v = chars_of(" ab  c");
    assert_eq!(word_spans(&v), vec![(1, 3), (5, 6)]);
}

#[test]
fn push_line_appends_range_and_line_feed() {
    let v = chars_of("hello world");
    let mut out = chars_of("x");
    push_line(&mut out, &v, 6, 11);
    push_line(&mut out, &v, 0, 0);
    assert_eq!(string_of(&out, 0, out.len()), "xworld\n\n");
}

/// All strings over `alphabet` that are no longer than `max`.
fn strings(alphabet: &[char], max: usize) -> Vec<String> {
    let mut all = vec![String::new()];
    let mut last = vec![String::new()];
    for _ in 0..max {
        let mut next = vec![];
        for s in &last {
            for c in alphabet {
                let mut t = s.clone();
                t.push(*c);
                next.push(t);
            }
        }
        all.extend(next.iter().cloned());
        last = next;
    }
    all
}

#[test]
fn lines_agree_with_std_on_all_short_texts() {
    for s in strings(&['a', '\r', '\n'], 8) {
        let expected: Vec<String> = s.lines().map(String::from).collect();
        assert_eq!(lines_of(&s), expected, "{:?}", s);
    }
}

#[test]
fn words_and_trim_agree_with_std_on_all_short_texts() {
    for s in strings(&['a', ' ', '\n', '\u{a0}'], 6) {
        let expected: Vec<String> = s.split_whitespace().map(String::from).collect();
        assert_eq!(split_words(&s), expected, "{:?}", s);
        assert_eq!(trimmed(&s), s.trim(), "{:?}", s);
    }
}
