use sentinella::text::{
    chars_of, contains_text, copy_texts, ends_with, find_char, join, lower_chars, push_decimal,
    same_ignoring_ascii_case, same_text, trim,
};

#[test]
fn decimals_have_no_leading_zeros() {
    for n in [0u128, 7, 10, 99, 100, 65535, u64::MAX as u128, u128::MAX] {
        let mut s = "n=".to_string();
        push_decimal(&mut s, n);
        assert_eq!(s, format!("n={n}"));
    }
}

#[test]
fn white_space_is_trimmed_as_unicode_defines_it() {
    for s in ["", "  ", " a b ", "\u{a0}x\u{3000}", "\u{2028}y\u{200b}", "\tz\r\n", "\u{85}"] {
        assert_eq!(trim(s), s.trim());
    }
}

#[test]
fn texts_are_found_where_they_stand() {
    let hay = chars_of("hello");
    for needle in ["", "hello", "ell", "lo", "x", "hello!"] {
        assert_eq!(contains_text(&hay, needle), "hello".contains(needle));
    }
    assert!(ends_with("a.hosts", "hosts"));
    assert!(!ends_with("hosts", ".hosts"));
    assert_eq!(find_char(&hay, 'l'), Some(2));
    assert_eq!(find_char(&hay, 'z'), None);
}

#[test]
fn case_matters_only_where_it_should() {
    assert!(same_text("é", "é") && !same_text("a", "A") && !same_text("a", "ab"));
    assert!(same_ignoring_ascii_case("aBc", "AbC"));
    assert!(!same_ignoring_ascii_case("É", "é"));
    assert_eq!(lower_chars("AZaz É"), "azaz É".chars().collect::<Vec<char>>());
}

#[test]
fn lists_are_joined_and_copied() {
    let v = vec!["a".to_string(), "b".to_string(), "c".to_string()];
    assert_eq!(join(&v, ", "), "a, b, c");
    assert_eq!(join(&vec![], ", "), "");
    assert_eq!(join(&vec!["a".to_string()], ", "), "a");
    assert_eq!(copy_texts(&v), v);
}
