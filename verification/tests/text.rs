use gcodekit5_ui::text::{
    chars_equal, chars_of, contains_chars, decimal_string, digit, first_non_white, replace_all_in,
    split_lines, string_from_chars, text_byte_len, white_space,
};

#[test]
fn lines_like_str_lines() {
    for s in ["", "a", "a\n", "a\r\nb", "\n\nx", "x\r", "a\n\r\nb\r\n"] {
        let want: Vec<String> = s.lines().map(|l| l.to_string()).collect();
        assert_eq!(split_lines(s), want, "{:?}", s);
    }
}

#[test]
fn character_helpers() {
    let v = chars_of("héllo");
    assert_eq!(v.len(), 5);
    assert_eq!(string_from_chars(&v, 1, 3), "él");
    assert!(chars_equal(&chars_of("ab"), &chars_of("ab")));
    assert!(!chars_equal(&chars_of("ab"), &chars_of("abc")));
    assert!(contains_chars(&v, &chars_of("ll")));
    assert!(contains_chars(&v, &chars_of("")));
    assert!(!contains_chars(&v, &chars_of("lo!")));
    assert_eq!(text_byte_len("héllo"), 6);
    assert_eq!(first_non_white(&chars_of(" \t x")), 3);
    assert_eq!(first_non_white(&chars_of("   ")), 3);
    assert!(white_space('\u{a0}'));
    assert!(!white_space('x'));
}

#[test]
fn replacing_and_numbers() {
    assert_eq!(replace_all_in("aXbXc", "X", "--"), "a--b--c");
    assert_eq!(replace_all_in("aaa", "aa", "b"), "ba");
    assert_eq!(replace_all_in("ab", "", "-"), "-a-b-");
    assert_eq!(decimal_string(0), "0");
    assert_eq!(decimal_string(1234567890), "1234567890");
    assert_eq!(decimal_string(u64::MAX), u64::MAX.to_string());
    assert_eq!(digit(7), '7');
}
