use escape_tabs::app::App;
use escape_tabs::text::{chars_le, chars_of, ends_with, str_eq};

#[test]
fn str_eq_compares_by_characters() {
    assert!(str_eq("", ""));
    assert!(str_eq("abc", "abc"));
    assert!(!str_eq("abc", "abd"));
    assert!(!str_eq("abc", "ab"));
    assert!(str_eq("héllo", "héllo"));
}

#[test]
fn chars_of_lists_the_characters() {
    assert_eq!(chars_of("ab c"), vec!['a', 'b', ' ', 'c']);
    assert_eq!(chars_of(""), Vec::<char>::new());
}

#[test]
fn lexicographic_order_on_char_vectors() {
    let v = |s: &str| s.chars().collect::<Vec<char>>();
    assert!(chars_le(&v(""), &v("a")));
    assert!(chars_le(&v("2023"), &v("2024")));
    assert!(!chars_le(&v("2024"), &v("2023")));
    assert!(chars_le(&v("abc"), &v("abc")));
    assert!(chars_le(&v("ab"), &v("abc")));
    assert!(!chars_le(&v("abc"), &v("ab")));
}

#[test]
fn ends_with_checks_the_suffix() {
    assert!(ends_with("1-ESCAPE", "-ESCAPE"));
    assert!(!ends_with("1-ESCAPED", "-ESCAPE"));
    assert!(!ends_with("PE", "-ESCAPE"));
    assert!(ends_with("x", ""));
}

#[test]
fn controller_needs_at_least_one_tab() {
    assert!(App::new(Vec::new()).is_err());
}
