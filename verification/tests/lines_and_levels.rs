use template_tool::level::{level_from_name, LogLevel};
use template_tool::split::split_lines;
use template_tool::text::{to_chars, to_string};

#[test]
fn lines_of_a_script() {
    assert_eq!(split_lines("if;a\nof;b\n"), vec!["if;a", "of;b"]);
    assert_eq!(split_lines("if;a\nof;b"), vec!["if;a", "of;b"]);
    assert_eq!(split_lines("if;a\r\nof;b\r\n"), vec!["if;a", "of;b"]);
    assert_eq!(split_lines("a\n\nb"), vec!["a", "", "b"]);
}

#[test]
fn lines_of_edge_texts() {
    assert_eq!(split_lines(""), Vec::<String>::new());
    assert_eq!(split_lines("\n"), vec![""]);
    assert_eq!(split_lines("\n\n"), vec!["", ""]);
    assert_eq!(split_lines("\r\n"), vec![""]);
    assert_eq!(split_lines("a\r"), vec!["a\r"]);
    assert_eq!(split_lines("a\rb\n"), vec!["a\rb"]);
    assert_eq!(split_lines("a\r\r\n"), vec!["a\r"]);
}

#[test]
fn lines_agree_with_the_standard_library() {
    for text in ["", "a", "a\n", "a\nb", "a\r\nb\r\n", "a\r", "\n", "\n\n", "a\n\nb", "\r\n", "a\rb\n", "\r", "é\n✓\r\n", "x\n\r"] {
        let expected: Vec<String> = text.lines().map(String::from).collect();
        assert_eq!(split_lines(text), expected, "{:?}", text);
    }
}

#[test]
fn characters_round_trip() {
    for text in ["", "abc", "héllo ✓"] {
        let chars = to_chars(text);
        assert_eq!(chars, text.chars().collect::<Vec<char>>());
        assert_eq!(to_string(&chars, 0, chars.len()), text);
    }
    let chars = to_chars("hello");
    assert_eq!(to_string(&chars, 1, 3), "el");
    assert_eq!(to_string(&chars, 2, 2), "");
}

#[test]
fn level_names_in_any_case() {
    assert_eq!(level_from_name("error"), LogLevel::Error);
    assert_eq!(level_from_name("WARN"), LogLevel::Warn);
    assert_eq!(level_from_name("Info"), LogLevel::Info);
    assert_eq!(level_from_name("dEbUg"), LogLevel::Debug);
    assert_eq!(level_from_name("Trace"), LogLevel::Trace);
}

#[test]
fn unrecognised_level_falls_back_to_info() {
    for name in ["", "verbose", "errors", "warning", "err", " trace", "débug"] {
        assert_eq!(level_from_name(name), LogLevel::Info);
    }
}
