use simple::util::{chars_of, code_point, string_has_duplicate_chars};

#[test]
fn dup_chars() {
    assert!(!string_has_duplicate_chars("123".to_string()));
    assert!(!string_has_duplicate_chars("".to_string()));
    assert!(!string_has_duplicate_chars("aAbBcC".to_string())); // case sensitivity check

    assert!(string_has_duplicate_chars("11".to_string()));
    assert!(string_has_duplicate_chars("250 asdf 5".to_string()));

    // real-world test case
    assert!(!string_has_duplicate_chars(
    " abcdefghijklmnopqrstuvwxyzABCDEFGHIJKLMNOPQRSTUVWXYZ0123456789.,!?-+/():;%&`'*#=[]\""
    .to_string()));
}

#[test]
fn dup_chars_beyond_ascii() {
    assert!(string_has_duplicate_chars("é-é".to_string()));
    assert!(!string_has_duplicate_chars("éè€".to_string()));
    assert!(!string_has_duplicate_chars("a".to_string()));
    assert!(string_has_duplicate_chars("abca".to_string()));
}

#[test]
fn chars_of_a_string_in_order() {
    assert_eq!(chars_of("a€b"), vec!['a', '€', 'b']);
    assert_eq!(chars_of(""), Vec::<char>::new());
}

#[test]
fn code_point_of_a_character() {
    assert_eq!(code_point('A'), 65);
    assert_eq!(code_point('€'), 0x20ac);
    assert_eq!(code_point('\u{10ffff}'), 0x10ffff);
}
