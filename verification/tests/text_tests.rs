use repo_sync::git::parse_remote;
use repo_sync::text::{chars_contain, chars_of, lines, str_contains, text_between};

fn listed_as_white_space(c: char) -> bool {
    matches!(
        c as u32,
        0x0009..=0x000D
            | 0x0020
            | 0x0085
            | 0x00A0
            | 0x1680
            | 0x2000..=0x200A
            | 0x2028
            | 0x2029
            | 0x202F
            | 0x205F
            | 0x3000
    )
}

fn std_lines(text: &str) -> Vec<String> {
    text.lines().map(|line| line.to_string()).collect()
}

#[test]
fn lines_split_at_line_feeds() {
    assert_eq!(lines("a\nb\n"), vec!["a".to_string(), "b".to_string()]);
}

#[test]
fn lines_of_empty_text_are_none() {
    assert_eq!(lines(""), Vec::<String>::new());
}

#[test]
fn lines_keep_empty_lines_between_line_feeds() {
    assert_eq!(
        lines("a\n\nb"),
        vec!["a".to_string(), String::new(), "b".to_string()]
    );
    assert_eq!(lines("\n"), vec![String::new()]);
    assert_eq!(lines("\n\n"), vec![String::new(), String::new()]);
}

#[test]
fn lines_drop_carriage_return_before_line_feed_only() {
    assert_eq!(lines("a\r\nb"), vec!["a".to_string(), "b".to_string()]);
    assert_eq!(lines("a\r"), vec!["a\r".to_string()]);
    assert_eq!(lines("a\r\r\n"), vec!["a\r".to_string()]);
    assert_eq!(lines("a\rb\n"), vec!["a\rb".to_string()]);
    assert_eq!(lines("\r\n"), vec![String::new()]);
}

#[test]
fn lines_last_line_needs_no_line_feed() {
    assert_eq!(lines("one\ntwo"), lines("one\ntwo\n"));
    assert_eq!(lines("one\ntwo"), vec!["one".to_string(), "two".to_string()]);
}

#[test]
fn lines_agree_with_std_on_samples() {
    let samples = [
        "",
        "\n",
        "\r",
        "\r\n",
        "\n\r",
        "a",
        "a\n",
        "a\r\n",
        "a\n\r\nb\r",
        "\n\na\n\n",
        "origin\thttps://example.com/x (fetch)\norigin\thttps://example.com/x (push)\n",
        "gr\u{fc}n\n\u{3000}wide\r\n",
        "\r\r\n\r\n\r",
    ];
    for sample in samples {
        assert_eq!(lines(sample), std_lines(sample), "sample {:?}", sample);
    }
}

#[test]
fn contains_finds_inner_run() {
    assert!(str_contains("prefix-foo-suffix", "foo"));
    assert!(!str_contains("prefix-fo-suffix", "foo"));
}

#[test]
fn contains_empty_needle_is_everywhere() {
    assert!(str_contains("abc", ""));
    assert!(str_contains("", ""));
}

#[test]
fn contains_needs_room() {
    assert!(!str_contains("", "a"));
    assert!(!str_contains("ab", "abc"));
    assert!(str_contains("abc", "abc"));
}

#[test]
fn contains_finds_run_at_either_end() {
    assert!(str_contains("abcd", "ab"));
    assert!(str_contains("abcd", "cd"));
    assert!(!str_contains("abcd", "ac"));
    assert!(str_contains("aab", "ab"));
}

#[test]
fn contains_agrees_with_std_on_samples() {
    let hays = ["", "a", "ab", "aab", "abab", "zed-temp", "'zed-temp'", "gr\u{fc}n"];
    let needles = ["", "a", "b", "ab", "ba", "zed", "temp", "\u{fc}", "abc"];
    for hay in hays {
        for needle in needles {
            assert_eq!(
                str_contains(hay, needle),
                hay.contains(needle),
                "{:?} in {:?}",
                needle,
                hay
            );
        }
    }
}

#[test]
fn chars_of_gives_every_character() {
    assert_eq!(chars_of("a\u{fc}\u{3000}"), vec!['a', '\u{fc}', '\u{3000}']);
    assert_eq!(chars_of(""), Vec::<char>::new());
}

#[test]
fn chars_contain_works_on_characters() {
    assert!(chars_contain(&vec!['a', 'b', 'c'], &vec!['b', 'c']));
    assert!(!chars_contain(&vec!['a', 'b', 'c'], &vec!['c', 'b']));
}

#[test]
fn text_between_takes_the_range() {
    let chars = vec!['a', '\u{fc}', 'c', 'd'];
    assert_eq!(text_between(&chars, 1, 3), "\u{fc}c".to_string());
    assert_eq!(text_between(&chars, 2, 2), String::new());
    assert_eq!(text_between(&chars, 0, 4), "a\u{fc}cd".to_string());
}

#[test]
fn white_space_is_the_listed_characters_and_no_others() {
    let mut count = 0;
    for code in 0..=0x10FFFFu32 {
        if let Some(c) = char::from_u32(code) {
            assert_eq!(c.is_whitespace(), listed_as_white_space(c), "U+{:04X}", code);
            if listed_as_white_space(c) {
                count += 1;
            }
        }
    }
    assert_eq!(count, 25);
}

#[test]
fn tokens_end_at_the_listed_characters_and_no_others() {
    let mut line = String::new();
    for code in 0..=0x10FFFFu32 {
        if let Some(c) = char::from_u32(code) {
            line.clear();
            line.push('a');
            line.push(c);
            line.push('b');
            let parsed = parse_remote(&line);
            if listed_as_white_space(c) {
                assert_eq!(parsed, Some(("a".to_string(), "b".to_string())), "U+{:04X}", code);
            } else {
                assert_eq!(parsed, None, "U+{:04X}", code);
            }
        }
    }
}
