use bell::text::{
    chars_of, decimal_string, find_chars, is_word, parse_unsigned_chars, split_chars, string_of,
    trim_matching_chars,
};

#[test]
fn characters_and_strings() {
    let v = chars_of("héllo");
    assert_eq!(v, vec!['h', 'é', 'l', 'l', 'o']);
    assert_eq!(string_of(&v), "héllo");
    assert!(is_word(&v, &['h', 'é', 'l', 'l', 'o']));
    assert!(!is_word(&v, &['h']));
}

#[test]
fn splitting_and_finding() {
    let v = chars_of("a,b,,c");
    let parts = split_chars(&v, &[',']);
    assert_eq!(parts, vec![vec!['a'], vec!['b'], vec![], vec!['c']]);
    assert_eq!(find_chars(&v, &[',', ',']), Some(3));
    assert_eq!(find_chars(&v, &['x']), None);
    assert_eq!(trim_matching_chars(&chars_of(" ,a b, "), &[' ', ',']), vec!['a', ' ', 'b']);
}

#[test]
fn numbers() {
    assert_eq!(parse_unsigned_chars(&chars_of("123"), 10, u64::MAX), Some(123));
    assert_eq!(parse_unsigned_chars(&chars_of("+7"), 10, u64::MAX), Some(7));
    assert_eq!(parse_unsigned_chars(&chars_of("ff"), 16, u64::MAX), Some(255));
    assert_eq!(parse_unsigned_chars(&chars_of("256"), 10, 255), None);
    assert_eq!(parse_unsigned_chars(&chars_of(""), 10, 255), None);
    assert_eq!(parse_unsigned_chars(&chars_of("1x"), 10, 255), None);
    assert_eq!(decimal_string(0), "0");
    assert_eq!(decimal_string(9041), "9041");
}
