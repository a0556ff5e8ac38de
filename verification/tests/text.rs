use rester::text::{byte_len, contains, replace, to_chars};

fn chars(s: &str) -> Vec<char> {
    s.chars().collect()
}

fn text(v: Vec<char>) -> String {
    v.into_iter().collect()
}

#[test]
fn to_chars_gives_the_characters() {
    assert_eq!(to_chars("aé€"), vec!['a', 'é', '€']);
    assert!(to_chars("").is_empty());
}

#[test]
fn byte_len_counts_bytes() {
    assert_eq!(byte_len(""), 0);
    assert_eq!(byte_len("aé€"), 6);
}

#[test]
fn contains_finds_a_pattern_anywhere() {
    assert!(contains(&chars("application/json"), &chars("json")));
    assert!(contains(&chars("json; charset=utf-8"), &chars("json")));
    assert!(contains(&chars("a json b"), &chars("json")));
    assert!(!contains(&chars("application/jso"), &chars("json")));
    assert!(!contains(&chars("jsxon"), &chars("json")));
    assert!(!contains(&chars(""), &chars("json")));
    assert!(contains(&chars("abc"), &chars("")));
    assert!(contains(&chars(""), &chars("")));
}

#[test]
fn replace_works_from_left_to_right() {
    assert_eq!(text(replace(&chars("a://b"), &chars("://"), &chars("_"))), "a_b");
    assert_eq!(text(replace(&chars("aaa"), &chars("aa"), &chars("b"))), "ba");
    assert_eq!(text(replace(&chars("a/b/c/"), &chars("/"), &chars("--"))), "a--b--c--");
    assert_eq!(text(replace(&chars("abc"), &chars("x"), &chars("y"))), "abc");
    assert_eq!(text(replace(&chars("abc"), &chars("abc"), &chars(""))), "");
    assert_eq!(text(replace(&chars(""), &chars("a"), &chars("b"))), "");
}

#[test]
fn replace_of_an_empty_pattern_changes_nothing() {
    assert_eq!(text(replace(&chars("abc"), &chars(""), &chars("x"))), "abc");
}
