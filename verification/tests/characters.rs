use jig::case::{char_is_digit, char_is_lower, char_is_upper, to_ascii_upper, to_uppercase};
use jig::key::find_key;
use jig::text::{
    begins_with, char_is_whitespace, chars_of, collapse_all, has, has_at, push_decimal, replace,
    string_of, take_chars, trimmed,
};

fn chars(s: &str) -> Vec<char> {
    s.chars().collect()
}

#[test]
fn white_space_is_that_of_unicode() {
    for c in '\0'..=char::MAX {
        assert_eq!(char_is_whitespace(c), c.is_whitespace());
    }
}

#[test]
fn ascii_classes_are_those_of_the_standard() {
    for c in '\0'..=char::MAX {
        assert_eq!(char_is_upper(c), c.is_ascii_uppercase());
        assert_eq!(char_is_lower(c), c.is_ascii_lowercase());
        assert_eq!(char_is_digit(c), c.is_ascii_digit());
        assert_eq!(to_ascii_upper(c), c.to_ascii_uppercase());
    }
}

#[test]
fn upper_case_of_every_character_is_that_of_the_standard() {
    for c in '\0'..=char::MAX {
        let wanted: Vec<char> = c.to_uppercase().collect();
        assert_eq!(to_uppercase(&vec![c]), wanted);
    }
}

#[test]
fn upper_case_of_a_text_is_that_of_the_standard() {
    for s in ["", "hello", "tsch\u{fc}\u{df}", "\u{fb01}x \u{149}", "MiXeD 123 -_", "\u{3c3}\u{3c2}"] {
        assert_eq!(to_uppercase(&chars(s)), chars(&s.to_uppercase()));
    }
}

#[test]
fn strings_and_characters_convert() {
    for s in ["", "a", "a b", "\u{e9}\u{1f600}z"] {
        assert_eq!(chars_of(s), chars(s));
        assert_eq!(string_of(&chars(s)), s);
    }
}

#[test]
fn patterns_are_found() {
    let s = chars("a.lock/b");
    assert!(has_at(&s, &chars(".lock/"), 1));
    assert!(!has_at(&s, &chars(".lock/"), 0));
    assert!(!has_at(&s, &chars(".lock/"), 3));
    assert!(has_at(&s, &chars(""), 8));
    assert!(!has_at(&s, &chars(""), 9));
    assert!(has(&s, &chars("/b")));
    assert!(has(&s, &chars("")));
    assert!(!has(&s, &chars("/c")));
    assert!(!has(&chars(""), &chars("a")));
    assert!(begins_with(&s, &chars("a.")));
    assert!(!begins_with(&s, &chars(".")));
}

#[test]
fn replacing_is_that_of_the_standard() {
    let cases = [
        ("", "..", "."),
        ("....", "..", "."),
        (".....", "..", "."),
        ("a..b...c", "..", "."),
        ("aaa", "aa", "b"),
        ("x${y${", "${", ""),
        ("a/./.b", "/.", "/"),
        (".lock.lock/", ".lock/", "/"),
        ("abc", "abcd", "x"),
        ("abc", "c", "long"),
    ];
    for (s, pat, rep) in cases {
        assert_eq!(
            string_of(&replace(&chars(s), &chars(pat), &chars(rep))),
            s.replace(pat, rep)
        );
    }
    assert_eq!(replace(&chars("abc"), &chars(""), &chars("x")), chars("abc"));
}

#[test]
fn collapsing_repeats_the_replacement() {
    assert_eq!(collapse_all(&chars("....."), &chars(".."), &chars(".")), chars("."));
    assert_eq!(collapse_all(&chars("$${{"), &chars("${"), &chars("")), chars(""));
    assert_eq!(
        collapse_all(&chars("a.lock.lock.lock/b"), &chars(".lock/"), &chars("/")),
        chars("a/b")
    );
    assert_eq!(collapse_all(&chars("abc"), &chars("b"), &chars("b")), chars("abc"));
    assert_eq!(collapse_all(&chars("abc"), &chars("b"), &chars("bb")), chars("abc"));
}

#[test]
fn texts_are_cut_and_trimmed() {
    assert_eq!(take_chars(chars("abcdef"), 3), chars("abc"));
    assert_eq!(take_chars(chars("abc"), 3), chars("abc"));
    assert_eq!(take_chars(chars("abc"), 9), chars("abc"));
    assert_eq!(take_chars(chars("abc"), 0), chars(""));
    for s in ["", " ", " a ", "\t\na b\u{a0}\u{3000}", "a", "  ab", "ab  "] {
        assert_eq!(string_of(&trimmed(&chars(s))), s.trim());
    }
}

#[test]
fn numbers_are_written_in_decimal() {
    for n in [0u64, 1, 9, 10, 11, 99, 100, 1000, 4294967295, u64::MAX] {
        let mut out = String::from("n=");
        push_decimal(&mut out, n);
        assert_eq!(out, format!("n={}", n));
    }
}

#[test]
fn key_search_reports_indices() {
    assert_eq!(find_key(&chars("see AB-12x")), Some((4, 9)));
    assert_eq!(find_key(&chars("AB-12")), Some((0, 5)));
    assert_eq!(find_key(&chars("AAAAAAAA-")), None);
    assert_eq!(find_key(&chars("A-1B-2CD-3")), Some((6, 10)));
    assert_eq!(find_key(&chars("ABAB-")), None);
    assert_eq!(find_key(&chars("XYZ-9")), Some((0, 5)));
    assert_eq!(find_key(&chars("")), None);
}
