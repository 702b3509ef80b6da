use rsql::number::{parse_number, push_decimal};
use rsql::text::{
    char_is_whitespace, chars_of, field_bounds, field_end, line_end, same_text, starts_with,
    trim_bounds, trim_end_of_bound,
};

fn chars(text: &str) -> Vec<char> {
    text.chars().collect()
}

fn pieces(text: &str, limit: usize) -> Vec<String> {
    let all = chars(text);
    field_bounds(&all, limit).iter().map(|b| all[b.0..b.1].iter().collect()).collect()
}

fn number(text: &str) -> Option<u32> {
    let all = chars(text);
    parse_number(&all, 0, all.len())
}

fn decimal(n: u32) -> String {
    let mut out = String::new();
    push_decimal(n, &mut out);
    out
}

#[test]
fn chars_are_those_of_the_text() {
    assert_eq!(chars_of(""), Vec::<char>::new());
    assert_eq!(chars_of("aö€𝄞"), vec!['a', 'ö', '€', '𝄞']);
}

#[test]
fn white_space_is_what_std_says() {
    for n in 0u32..0x11_0000 {
        if let Some(c) = char::from_u32(n) {
            assert_eq!(char_is_whitespace(c), c.is_whitespace(), "U+{:04X}", n);
        }
    }
}

#[test]
fn trimming_is_what_std_does() {
    for text in ["", " ", "a", " a", "a ", "  a b \t\r\n", "\u{3000}x\u{2003}", " \n ", "a\u{85}"] {
        let all = chars(text);
        let (start, end) = trim_bounds(&all);
        let trimmed: String = all[start..end].iter().collect();
        assert_eq!(trimmed, text.trim(), "{:?}", text);
    }
}

#[test]
fn trimming_one_character_from_the_end() {
    assert_eq!(trim_end_of_bound(&chars("ab\0\0"), '\0'), 2);
    assert_eq!(trim_end_of_bound(&chars("\0a\0b"), '\0'), 4);
    assert_eq!(trim_end_of_bound(&chars("\0\0"), '\0'), 0);
    assert_eq!(trim_end_of_bound(&chars(""), '\0'), 0);
    assert_eq!(trim_end_of_bound(&chars("axx"), 'x'), 1);
}

#[test]
fn fields_are_what_std_splits() {
    for text in ["", "a", "a b", " a", "a ", "a  b", "insert 1 x y", "\t\n", "a\u{a0}b c"] {
        let expected: Vec<String> =
            text.split(char::is_whitespace).map(|s| s.to_string()).collect();
        assert_eq!(pieces(text, 100), expected, "{:?}", text);
    }
}

#[test]
fn fields_stop_at_the_limit() {
    assert_eq!(pieces("a b c d e", 4), vec!["a", "b", "c", "d"]);
    assert_eq!(pieces("a b", 4), vec!["a", "b"]);
    assert_eq!(pieces("a b", 0), Vec::<String>::new());
    assert_eq!(pieces("", 1), vec![""]);
}

#[test]
fn field_and_line_ends() {
    let all = chars("ab cd\nef");
    assert_eq!(field_end(&all, 0), 2);
    assert_eq!(field_end(&all, 2), 2);
    assert_eq!(field_end(&all, 3), 5);
    assert_eq!(field_end(&all, 6), 8);
    assert_eq!(field_end(&all, 8), 8);
    assert_eq!(line_end(&all, 0), 5);
    assert_eq!(line_end(&all, 5), 5);
    assert_eq!(line_end(&all, 6), 8);
}

#[test]
fn prefixes_and_equal_texts() {
    assert!(starts_with(&chars("insert 1"), "insert"));
    assert!(starts_with(&chars("insert"), "insert"));
    assert!(starts_with(&chars("x"), ""));
    assert!(!starts_with(&chars("inser"), "insert"));
    assert!(!starts_with(&chars("Insert"), "insert"));
    assert!(same_text(&chars(".exit"), ".exit"));
    assert!(!same_text(&chars(".exit "), ".exit"));
    assert!(!same_text(&chars(".exi"), ".exit"));
    assert!(same_text(&chars(""), ""));
}

#[test]
fn numbers_are_read_as_std_reads_them() {
    for text in [
        "", "0", "1", "+1", "-1", "+", "-", "++1", "00", "0012", "4294967295", "4294967296",
        "42949672950", "18446744073709551616", "1a", "a1", " 1", "1 ", "١٢", "1_000", "0x10",
    ] {
        assert_eq!(number(text), text.parse::<u32>().ok(), "{:?}", text);
    }
}

#[test]
fn number_is_read_from_a_stretch_of_the_text() {
    let all = chars("ab123cd");
    assert_eq!(parse_number(&all, 2, 5), Some(123));
    assert_eq!(parse_number(&all, 2, 6), None);
    assert_eq!(parse_number(&all, 3, 3), None);
    assert_eq!(parse_number(&all, 4, 5), Some(3));
}

#[test]
fn numbers_are_written_as_std_writes_them() {
    for n in [0u32, 1, 9, 10, 11, 99, 100, 101, 65535, 1000000, 4294967294, 4294967295] {
        assert_eq!(decimal(n), n.to_string());
        assert_eq!(number(&decimal(n)), Some(n));
    }
}

#[test]
fn number_is_appended() {
    let mut out = String::from("id=");
    push_decimal(40, &mut out);
    push_decimal(2, &mut out);
    assert_eq!(out, "id=402");
}
