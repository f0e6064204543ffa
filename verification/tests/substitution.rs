use template_tool::substitute::{matches_at, replace_chars, substitute};

fn pairs(list: &[(&str, &str)]) -> Vec<(String, String)> {
    list.iter().map(|(a, b)| (a.to_string(), b.to_string())).collect()
}

fn chars(s: &str) -> Vec<char> {
    s.chars().collect()
}

fn replaced(text: &str, pattern: &str, replacement: &str) -> String {
    replace_chars(&chars(text), &chars(pattern), &chars(replacement)).into_iter().collect()
}

#[test]
fn substitute_without_pairs_returns_template() {
    for t in ["", "a", "GREETING, NAME!", "line\nline\n", "héllo ✓"] {
        assert_eq!(substitute(t, &Vec::new()), t);
    }
}

#[test]
fn substitute_applies_pairs_in_order() {
    let forward = pairs(&[("a", "b"), ("b", "c")]);
    let backward = pairs(&[("b", "c"), ("a", "b")]);
    assert_eq!(substitute("a", &forward), "c");
    assert_eq!(substitute("a", &backward), "b");
    assert_eq!(substitute("ab", &forward), "cc");
    assert_eq!(substitute("ab", &backward), "bc");
    assert_ne!(substitute("ab", &forward), substitute("ab", &backward));
}

#[test]
fn substitute_greeting_template() {
    let list = pairs(&[("NAME", "Alice"), ("GREETING", "Hello")]);
    assert_eq!(substitute("GREETING, NAME!", &list), "Hello, Alice!");
}

#[test]
fn substitute_later_pair_sees_earlier_output() {
    let list = pairs(&[("NAME", "GREETING"), ("GREETING", "Hello")]);
    assert_eq!(substitute("GREETING, NAME!", &list), "Hello, Hello!");
}

#[test]
fn substitute_is_case_sensitive_and_literal() {
    let list = pairs(&[("name", "Alice"), ("a.c", "X")]);
    assert_eq!(substitute("NAME name abc a.c", &list), "NAME Alice abc X");
}

#[test]
fn replace_takes_occurrences_left_to_right_without_overlap() {
    assert_eq!(replaced("aaa", "aa", "b"), "ba");
    assert_eq!(replaced("aaaa", "aa", "b"), "bb");
    assert_eq!(replaced("abab", "ab", "abab"), "abababab");
    assert_eq!(replaced("xyz", "q", "r"), "xyz");
    assert_eq!(replaced("", "q", "r"), "");
    assert_eq!(replaced("abc", "abcd", "r"), "abc");
    assert_eq!(replaced("abc", "abc", ""), "");
}

#[test]
fn replace_with_empty_pattern_inserts_everywhere() {
    assert_eq!(replaced("abc", "", "X"), "XaXbXcX");
    assert_eq!(replaced("", "", "X"), "X");
    assert_eq!(replaced("a", "", ""), "a");
    let list = pairs(&[("", "-")]);
    assert_eq!(substitute("ab", &list), "-a-b-");
}

#[test]
fn replace_agrees_with_the_standard_library() {
    let texts = ["", "a", "aaa", "abcabc", "GREETING, NAME!", "héllo wörld ✓✓", "a;b;c", "\n\n"];
    let patterns = ["", "a", "aa", "abc", "NAME", "ö", "✓", ";", "\n", "zz"];
    let replacements = ["", "a", "b", "aa", "Alice", "é"];
    for t in texts {
        for p in patterns {
            for r in replacements {
                assert_eq!(replaced(t, p, r), t.replace(p, r), "{:?} {:?} {:?}", t, p, r);
            }
        }
    }
}

#[test]
fn substitute_handles_text_beyond_ascii() {
    let list = pairs(&[("ö", "oe"), ("✓", "ok")]);
    assert_eq!(substitute("wörld ✓", &list), "woerld ok");
}

#[test]
fn matches_at_checks_one_position() {
    let text = chars("hello");
    assert!(matches_at(&text, 0, &chars("he")));
    assert!(matches_at(&text, 3, &chars("lo")));
    assert!(!matches_at(&text, 4, &chars("lo")));
    assert!(!matches_at(&text, 1, &chars("he")));
    assert!(matches_at(&text, 5, &chars("")));
    assert!(!matches_at(&text, 6, &chars("")));
}
