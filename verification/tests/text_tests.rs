use git_lumina::text::{
    join2, join3, first_line_of, line_count_of, split_lines, starts_with, str_eq, str_is_blank,
    str_lt, to_chars, trim_string, u64_to_string,
};

#[test]
fn decimal_numbers() {
    assert_eq!(u64_to_string(0), "0");
    assert_eq!(u64_to_string(7), "7");
    assert_eq!(u64_to_string(1234567890), "1234567890");
    assert_eq!(u64_to_string(u64::MAX), "18446744073709551615");
}

#[test]
fn trimming_whitespace() {
    assert_eq!(trim_string("  feature/x \t\n"), "feature/x");
    assert_eq!(trim_string("\u{3000}wide\u{a0}"), "wide");
    assert_eq!(trim_string("   "), "");
    assert_eq!(trim_string("a b"), "a b");
}

#[test]
fn blank_strings() {
    assert!(str_is_blank(""));
    assert!(str_is_blank(" \t\r\n"));
    assert!(!str_is_blank("  x "));
}

#[test]
fn first_lines() {
    assert_eq!(first_line_of("subject\nbody"), "subject");
    assert_eq!(first_line_of("subject\r\nbody"), "subject");
    assert_eq!(first_line_of("only"), "only");
    assert_eq!(first_line_of(""), "");
}

#[test]
fn counting_lines_as_str_lines_does() {
    assert_eq!(line_count_of(""), 0);
    assert_eq!(line_count_of("a"), 1);
    assert_eq!(line_count_of("a\n"), 1);
    assert_eq!(line_count_of("a\nb"), 2);
    assert_eq!(line_count_of("\n\n"), 2);
    assert_eq!(line_count_of("a\r\nb\r\n"), "a\r\nb\r\n".lines().count());
}

#[test]
fn splitting_lines_as_str_lines_does() {
    for s in ["", "a", "a\n", "a\nb", "\n\n", "a\r\nb\r\n", "x\ry\n", "end\r"] {
        let expected: Vec<String> = s.lines().map(|l| l.to_string()).collect();
        assert_eq!(split_lines(s), expected, "input {:?}", s);
        assert_eq!(split_lines(s).len(), line_count_of(s));
    }
}

#[test]
fn prefixes_and_comparisons() {
    assert!(starts_with("origin/main", "origin/"));
    assert!(!starts_with("main", "origin/"));
    assert!(str_eq("abc", "abc"));
    assert!(!str_eq("abc", "abd"));
    assert!(str_lt("alpha", "beta"));
    assert!(str_lt("ab", "abc"));
    assert!(!str_lt("abc", "abc"));
    assert!(!str_lt("b", "a"));
}

#[test]
fn joining_and_chars() {
    assert_eq!(join2("a", "b"), "ab");
    assert_eq!(join3("a", "b", "c"), "abc");
    assert_eq!(to_chars("h\u{e9}!"), vec!['h', '\u{e9}', '!']);
}
