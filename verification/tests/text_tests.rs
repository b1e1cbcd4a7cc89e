use repo_manager::digits::{decimal_string, parse_number};
use repo_manager::paths::{display_name, normal_components, parent_group_name};
use repo_manager::text::{
    chars_of, has_prefix, nonblank_lines, position_of_char, same_ignoring_ascii_case,
    split_ranges, str_contains, trimmed, whitespace,
};

fn chars(s: &str) -> Vec<char> {
    s.chars().collect()
}

#[test]
fn chars_of_keeps_every_character() {
    assert_eq!(chars_of("a\u{e9}\u{1F600}z"), vec!['a', '\u{e9}', '\u{1F600}', 'z']);
    assert_eq!(chars_of(""), Vec::<char>::new());
}

#[test]
fn whitespace_agrees_with_the_standard_library() {
    let mut code: u32 = 0;
    while code <= 0x3100 {
        if let Some(c) = char::from_u32(code) {
            assert_eq!(whitespace(c), c.is_whitespace(), "code {:x}", code);
        }
        code += 1;
    }
}

#[test]
fn trimmed_cuts_both_ends() {
    assert_eq!(trimmed(" \t main \r\n"), "main");
    assert_eq!(trimmed(" \n "), "");
    assert_eq!(trimmed("ab  cd"), "ab  cd");
    assert_eq!(trimmed(""), "");
    for s in ["\u{a0}x\u{2003}", "\u{feff}x", " \u{85}y\u{3000} ", "\u{200b}z"] {
        assert_eq!(trimmed(s), s.trim(), "sample {:?}", s);
    }
}

#[test]
fn position_of_char_gives_first_position_or_end() {
    assert_eq!(position_of_char("3\t5\t7", '\t'), 1);
    assert_eq!(position_of_char("\u{e9}\u{e9}/x", '/'), 2);
    assert_eq!(position_of_char("abc", '/'), 3);
    assert_eq!(position_of_char("", '/'), 0);
}

#[test]
fn split_ranges_keeps_empty_pieces() {
    let v = chars("a//b/");
    assert_eq!(split_ranges(&v, '/'), vec![(0, 1), (2, 2), (3, 4), (5, 5)]);
    let none = chars("");
    assert_eq!(split_ranges(&none, '/'), vec![(0, 0)]);
}

#[test]
fn nonblank_lines_trims_and_drops_blank_lines() {
    assert_eq!(
        nonblank_lines("  origin \r\n\n\tupstream\n   \n"),
        vec!["origin".to_string(), "upstream".to_string()]
    );
    assert_eq!(nonblank_lines(""), Vec::<String>::new());
    assert_eq!(nonblank_lines("one"), vec!["one".to_string()]);
}

#[test]
fn nonblank_lines_agrees_with_lines_trim_filter() {
    let samples = ["a\nb", "a\r\nb\r\n", "\n\n", " x \n\r\n y", "a\rb\nc", "tail\n"];
    for s in samples {
        let expected: Vec<String> = s
            .lines()
            .map(|l| l.trim().to_string())
            .filter(|l| !l.is_empty())
            .collect();
        assert_eq!(nonblank_lines(s), expected, "sample {:?}", s);
    }
}

#[test]
fn prefix_and_substring_search() {
    assert!(has_prefix(&chars("remotes/origin/main"), &chars("remotes/")));
    assert!(!has_prefix(&chars("remote"), &chars("remotes/")));
    assert!(has_prefix(&chars("x"), &chars("")));
    assert!(str_contains("fatal: Connection refused by host", "Connection refused"));
    assert!(!str_contains("fatal: connection refused", "Connection refused"));
    assert!(str_contains("abc", ""));
    assert!(!str_contains("ab", "abc"));
    assert!(str_contains("aab", "ab"));
}

#[test]
fn ascii_case_is_ignored_only_for_ascii_letters() {
    assert!(same_ignoring_ascii_case(&chars("Node_Modules"), &chars("node_modules")));
    assert!(same_ignoring_ascii_case(&chars("TARGET"), &chars("target")));
    assert!(!same_ignoring_ascii_case(&chars("targets"), &chars("target")));
    assert!(!same_ignoring_ascii_case(&chars("\u{c9}"), &chars("\u{e9}")));
    assert!(!same_ignoring_ascii_case(&chars("@"), &chars("`")));
    assert!(!same_ignoring_ascii_case(&chars("["), &chars("{")));
}

#[test]
fn parse_number_reads_what_the_standard_library_reads() {
    let samples = [
        "0", "7", "42", "+5", "007", "", "+", "-1", "1 ", " 1", "12a", "++1",
        "18446744073709551615", "18446744073709551616", "99999999999999999999999",
    ];
    for s in samples {
        assert_eq!(parse_number(s), s.parse::<usize>().ok(), "sample {:?}", s);
    }
}

#[test]
fn decimal_string_writes_numbers() {
    assert_eq!(decimal_string(0), "0");
    assert_eq!(decimal_string(9), "9");
    assert_eq!(decimal_string(10), "10");
    assert_eq!(decimal_string(1000), "1000");
    assert_eq!(decimal_string(u64::MAX), "18446744073709551615");
}

#[test]
fn decimal_string_round_trips_through_parse() {
    for n in [0u64, 1, 9, 10, 99, 100, 12345, 4000000000] {
        let text = decimal_string(n);
        assert_eq!(parse_number(&text), Some(n as usize));
    }
}

#[test]
fn display_name_is_the_last_segment() {
    assert_eq!(display_name("/home/user/project"), "project");
    assert_eq!(display_name("/home/user/project/"), "project");
    assert_eq!(display_name("project"), "project");
    assert_eq!(display_name("a/b/."), "b");
    assert_eq!(display_name("a/b/.."), "");
    assert_eq!(display_name("/"), "");
    assert_eq!(display_name(""), "");
    assert_eq!(display_name("."), "");
}

#[test]
fn display_name_agrees_with_path_file_name() {
    let samples = ["/a/b", "a", "a/", "a//b", "a/./b", "a/b/.", "a/..", "/", "", ".", "./a", "../a"];
    for s in samples {
        let expected = std::path::Path::new(s)
            .file_name()
            .unwrap_or_default()
            .to_string_lossy()
            .to_string();
        assert_eq!(display_name(s), expected, "sample {:?}", s);
    }
}

#[test]
fn normal_components_skip_root_dot_and_dot_dot() {
    assert_eq!(
        normal_components("/home/./user/../project"),
        vec!["home".to_string(), "user".to_string(), "project".to_string()]
    );
    assert_eq!(normal_components("/"), Vec::<String>::new());
    assert_eq!(normal_components("a//b"), vec!["a".to_string(), "b".to_string()]);
}

#[test]
fn parent_group_name_agrees_with_path_parent() {
    let samples = [
        "/a/b", "a/b", "a", "/a", "a/", "a//b/", "a/./b", "a/b/..", "a/../b", "../b", "/", "",
        "x/y/z",
    ];
    for s in samples {
        let expected = std::path::Path::new(s)
            .parent()
            .and_then(|p| p.file_name())
            .map(|n| n.to_string_lossy().to_string());
        assert_eq!(parent_group_name(s), expected, "sample {:?}", s);
    }
    assert_eq!(parent_group_name("/home/user/project"), Some("user".to_string()));
}
