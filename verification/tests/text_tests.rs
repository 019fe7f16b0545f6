use pf_sandbox::text::{
    char_utf8_len, chars_of, decimal_chars, first_word_from, insert_char_at_byte, is_whitespace,
    parse_unsigned, remove_char_at_byte, split_chars, str_eq, string_from_chars,
    trim_end_chars,
};

fn chars(s: &str) -> Vec<char> {
    s.chars().collect()
}

fn text(v: &Vec<char>) -> String {
    v.iter().collect()
}

#[test]
fn utf8_lengths_and_whitespace() {
    assert_eq!(char_utf8_len('a'), 1);
    assert_eq!(char_utf8_len('é'), 2);
    assert_eq!(char_utf8_len('→'), 3);
    assert_eq!(char_utf8_len('😀'), 4);
    assert!(is_whitespace(' '));
    assert!(is_whitespace('\t'));
    assert!(is_whitespace('\u{3000}'));
    assert!(!is_whitespace('x'));
}

#[test]
fn editing_at_byte_offsets() {
    assert_eq!(text(&insert_char_at_byte(&chars("héllo"), 3, 'x')), "héxllo");
    assert_eq!(text(&insert_char_at_byte(&chars("ab"), 2, 'c')), "abc");
    assert_eq!(text(&insert_char_at_byte(&chars("héllo"), 2, 'x')), "héllox");
    assert_eq!(text(&remove_char_at_byte(&chars("héllo"), 1)), "hllo");
    assert_eq!(text(&remove_char_at_byte(&chars("abc"), 5)), "abc");
}

#[test]
fn trimming_and_splitting() {
    assert_eq!(text(&trim_end_chars(&chars("ab \t\n"))), "ab");
    assert_eq!(text(&trim_end_chars(&chars("  "))), "");
    let pieces: Vec<String> = split_chars(&chars("a,,b,"), ',').iter().map(text).collect();
    assert_eq!(pieces, vec!["a", "", "b", ""]);
    let pieces: Vec<String> = split_chars(&chars(""), ',').iter().map(text).collect();
    assert_eq!(pieces, vec![""]);
}

#[test]
fn numbers() {
    assert_eq!(text(&decimal_chars(0)), "0");
    assert_eq!(text(&decimal_chars(105)), "105");
    assert_eq!(text(&decimal_chars(u64::MAX)), u64::MAX.to_string());
    assert_eq!(parse_unsigned("+12", 100), Some(12));
    assert_eq!(parse_unsigned("007", 255), Some(7));
    assert_eq!(parse_unsigned("255", 255), Some(255));
    assert_eq!(parse_unsigned("256", 255), None);
    assert_eq!(parse_unsigned("+", 255), None);
    assert_eq!(parse_unsigned("", 255), None);
    assert_eq!(parse_unsigned("-1", 255), None);
    assert_eq!(parse_unsigned("1 ", 255), None);
    assert_eq!(parse_unsigned("18446744073709551615", u64::MAX), Some(u64::MAX));
    assert_eq!(parse_unsigned("18446744073709551616", u64::MAX), None);
}

#[test]
fn words_and_equality() {
    let v = chars("  set  7 ");
    let (w, after) = first_word_from(&v, 0);
    assert_eq!(text(&w.unwrap()), "set");
    assert_eq!(after, 5);
    let (w, after) = first_word_from(&v, after);
    assert_eq!(text(&w.unwrap()), "7");
    let (w, _) = first_word_from(&v, after);
    assert!(w.is_none());
    assert!(str_eq("abc", "abc"));
    assert!(!str_eq("abc", "abd"));
    assert!(!str_eq("ab", "abc"));
}

#[test]
fn string_conversions() {
    assert_eq!(chars_of("hé"), vec!['h', 'é']);
    assert_eq!(string_from_chars(&vec!['o', 'k']), "ok");
    assert_eq!(string_from_chars(&vec!['a', '→']), "a→");
}
