use overbrowsered::numbers::{decimal, hexadecimal};
use overbrowsered::paths::file_name;
use overbrowsered::text::{
    chars_of, contains, dedup, is_some_text, join, lines, same, strip_prefix, trim,
    trim_end_matches, white_space,
};
use std::path::Path;

/// All strings over `alphabet` with at most `length` characters.
fn words(alphabet: &[char], length: usize) -> Vec<String> {
    let mut all = vec![String::new()];
    let mut last = vec![String::new()];
    for _ in 0..length {
        let mut next = Vec::new();
        for word in &last {
            for c in alphabet {
                next.push(format!("{word}{c}"));
            }
        }
        all.extend(next.iter().cloned());
        last = next;
    }
    all
}

#[test]
fn white_space_is_the_unicode_property() {
    for c in '\0'..=char::MAX {
        assert_eq!(white_space(c), c.is_whitespace(), "{:?}", c);
    }
}

#[test]
fn trim_takes_white_space_off_both_ends() {
    assert_eq!(trim("  firefox\n"), "firefox");
    assert_eq!(trim("\u{3000}a b\u{a0}"), "a b");
    assert_eq!(trim(" \t\r\n"), "");
    for word in words(&[' ', '\n', 'a', '\u{85}', 'é'], 5) {
        assert_eq!(trim(&word), word.trim());
        assert_eq!(trim(trim(&word)), trim(&word));
    }
}

#[test]
fn trim_end_matches_takes_every_suffix_off() {
    assert_eq!(trim_end_matches("firefox.desktop", ".desktop"), "firefox");
    assert_eq!(trim_end_matches("a.desktop.desktop", ".desktop"), "a");
    assert_eq!(trim_end_matches("desktop", ".desktop"), "desktop");
    for word in words(&['a', 'b', 'é'], 6) {
        assert_eq!(trim_end_matches(&word, "ab"), word.trim_end_matches("ab"));
        assert_eq!(trim_end_matches(&word, "éé"), word.trim_end_matches("éé"));
        assert_eq!(trim_end_matches(&word, ""), word.trim_end_matches(""));
    }
}

#[test]
fn strip_prefix_gives_the_rest() {
    assert_eq!(strip_prefix("name=org.mozilla.firefox", "name="), Some("org.mozilla.firefox"));
    assert_eq!(strip_prefix("name", "name="), None);
    assert_eq!(strip_prefix("runtime=name=", "name="), None);
    for word in words(&['a', 'b', 'é'], 4) {
        assert_eq!(strip_prefix(&word, "aé"), word.strip_prefix("aé"));
        assert_eq!(strip_prefix(&word, ""), word.strip_prefix(""));
    }
}

#[test]
fn lines_end_at_line_feeds() {
    assert_eq!(lines("a\r\nb\n\nc"), vec!["a", "b", "", "c"]);
    for word in words(&['\r', '\n', 'x'], 7) {
        let expected: Vec<&str> = word.lines().collect();
        assert_eq!(lines(&word), expected);
    }
}

#[test]
fn join_and_dedup_match_the_standard_library() {
    let parts: Vec<String> = ["x", "x", "y", "", "", "x"].iter().map(|s| s.to_string()).collect();
    assert_eq!(join(&parts, "\n\n"), parts.join("\n\n"));
    assert_eq!(join(&Vec::new(), "-"), "");
    let mut expected = parts.clone();
    expected.dedup();
    assert_eq!(dedup(&parts), expected);
    assert_eq!(expected, vec!["x", "y", "", "x"]);
}

#[test]
fn strings_are_compared_by_their_characters() {
    assert!(same("é", "é"));
    assert!(!same("a", "A"));
    assert!(is_some_text(&Some("a".to_string()), "a"));
    assert!(!is_some_text(&None, ""));
    assert!(contains(&vec!["a".to_string(), "b".to_string()], "b"));
    assert!(!contains(&vec!["a".to_string()], ""));
    assert_eq!(chars_of("aé☹"), vec!['a', 'é', '☹']);
}

#[test]
fn numbers_are_written_out() {
    for n in [0, 7, 9, 10, 99, 100, 4_294_967_295] {
        assert_eq!(decimal(n), n.to_string());
        assert_eq!(format!("0x{}", hexadecimal(n, 8)), format!("{:#010x}", n));
    }
    assert_eq!(hexadecimal(0xdeadbeef, 8), "deadbeef");
    assert_eq!(hexadecimal(0xabc, 2), "bc");
}

#[test]
fn file_name_is_the_last_component() {
    for word in words(&['/', '.', 'a', 'é'], 6) {
        let expected = Path::new(&word).file_name().map(|name| name.to_str().unwrap());
        let chars: Vec<char> = word.chars().collect();
        let name: Option<String> =
            file_name(&chars).map(|(start, end)| chars[start..end].iter().collect());
        assert_eq!(name.as_deref(), expected, "{:?}", word);
        let bytes = word.as_bytes().to_vec();
        let name = file_name(&bytes).map(|(start, end)| bytes[start..end].to_vec());
        assert_eq!(name.as_deref(), expected.map(str::as_bytes), "{:?}", word);
    }
}
