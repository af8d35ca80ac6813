use certbot_alfahosting::text::{chars_of, decimal_string, find_first, split_on_char, split_once};

#[test]
fn decimal_numbers() {
    assert_eq!(decimal_string(0), "0");
    assert_eq!(decimal_string(7), "7");
    assert_eq!(decimal_string(10), "10");
    assert_eq!(decimal_string(4294967295), "4294967295");
}

#[test]
fn leftmost_occurrence() {
    let s = chars_of("abcabc");
    assert_eq!(find_first(&s, &chars_of("ca")), Some(2));
    assert_eq!(find_first(&s, &chars_of("abc")), Some(0));
    assert_eq!(find_first(&s, &chars_of("x")), None);
    assert_eq!(find_first(&chars_of("ab"), &chars_of("abc")), None);
}

#[test]
fn split_once_at_leftmost() {
    assert_eq!(split_once("a::b::c", "::"), Some(("a".to_string(), "b::c".to_string())));
    assert_eq!(split_once("abc", "::"), None);
}

#[test]
fn split_on_char_keeps_empty_pieces() {
    assert_eq!(split_on_char("a,,b,", ','), vec!["a", "", "b", ""]);
    assert_eq!(split_on_char("", ','), vec![""]);
}
