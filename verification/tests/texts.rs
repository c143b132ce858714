use shard::paths::{append_to_file_name, join_path};
use shard::text::{
    contains_text, decimal_text, join_texts, pad_right, parse_text, repeat_char, split_text,
    split_words, starts_with, strip_text, trim_text, two_digits_text,
};
use shard::utils::filename_from_url;

#[test]
fn extracts_filename() {
    assert_eq!(filename_from_url("https://example.com/file.zip"), "file.zip");
    assert_eq!(filename_from_url("https://example.com/"), "downloaded_file");
}

#[test]
fn filename_edge_cases() {
    assert_eq!(filename_from_url(""), "downloaded_file");
    assert_eq!(filename_from_url("plain"), "plain");
    assert_eq!(filename_from_url("/"), "downloaded_file");
    assert_eq!(filename_from_url("https://example.com/a/b?x=1"), "b?x=1");
    assert_eq!(filename_from_url("https://example.com/größe.zip"), "größe.zip");
}

#[test]
fn filename_never_holds_a_slash() {
    for url in ["a/b/c", "https://h/x/", "//", "x"] {
        assert!(!filename_from_url(url).contains('/'));
    }
}

#[test]
fn white_space_is_that_of_std() {
    for code in 0..0x11_0000u32 {
        if let Some(c) = char::from_u32(code) {
            let held = trim_text(&c.to_string()).is_empty();
            assert_eq!(held, c.is_whitespace(), "{code:x}");
        }
    }
}

#[test]
fn trimming_is_that_of_std() {
    for s in ["", " ", " a ", "\ta\u{a0}b\n", "a", "\u{3000}x\u{2028}"] {
        assert_eq!(trim_text(s), s.trim());
        let words: Vec<&str> = s.split_whitespace().collect();
        assert_eq!(split_words(s), words);
    }
    assert_eq!(split_words("  a  b c "), vec!["a", "b", "c"]);
    assert_eq!(strip_text("\"\"x\"y\"", &vec!['"']), "x\"y");
}

#[test]
fn searching_is_that_of_std() {
    for (s, p) in [("", ""), ("abc", ""), ("abc", "bc"), ("abc", "abcd"), ("aab", "ab"), ("x", "y")] {
        assert_eq!(contains_text(s, p), s.contains(p));
        assert_eq!(starts_with(s, p), s.starts_with(p));
    }
}

#[test]
fn splitting_is_that_of_std() {
    for s in ["", "a", "a-b", "-a-", "2024-01-02 03:04:05", "--"] {
        let pieces: Vec<&str> = s.split([' ', '-', ':']).collect();
        assert_eq!(split_text(s, &vec![' ', '-', ':']), pieces);
    }
}

#[test]
fn numbers_are_those_of_std() {
    for n in [0u64, 9, 10, 12345, u64::MAX] {
        assert_eq!(decimal_text(n), n.to_string());
        assert_eq!(parse_text(&n.to_string(), u64::MAX), Some(n));
    }
    for s in ["", "+", "+5", "007", "-1", "1 ", "18446744073709551616", "99999999999999999999999", "x"] {
        assert_eq!(parse_text(s, u64::MAX), s.parse::<u64>().ok(), "{s}");
    }
    for s in ["255", "256", "+0", ""] {
        assert_eq!(parse_text(s, 255).map(|n| n as u8), s.parse::<u8>().ok(), "{s}");
    }
    assert_eq!(two_digits_text(7), "07");
    assert_eq!(two_digits_text(123), "123");
}

#[test]
fn padding_and_joining() {
    assert_eq!(pad_right("ab", 5), format!("{:<5}", "ab"));
    assert_eq!(pad_right("abcdef", 5), format!("{:<5}", "abcdef"));
    assert_eq!(pad_right("ü…", 4), format!("{:<4}", "ü…"));
    assert_eq!(repeat_char('─', 3), "───");
    let parts = vec!["a".to_string(), "b".to_string(), "c".to_string()];
    assert_eq!(join_texts(&parts, " OR "), parts.join(" OR "));
    assert_eq!(join_texts(&Vec::new(), "x"), "");
}

#[test]
fn joined_paths_are_those_of_std() {
    for base in ["", "/", "a", "a/", "/home/me", "/home/me/", "."] {
        for path in ["", "x", "/x", "x/y", "./x", ".config/shard/config.toml"] {
            let expected = std::path::Path::new(base).join(path);
            assert_eq!(join_path(base, path), expected.to_str().unwrap(), "{base:?} {path:?}");
        }
    }
}

#[test]
fn file_names_are_those_of_std() {
    let pieces = ["", "a", ".", "..", "b.zip"];
    let mut paths: Vec<String> = vec!["".to_string(), "/".to_string()];
    for x in pieces {
        for y in pieces {
            for z in pieces {
                paths.push(format!("{x}/{y}/{z}"));
                paths.push(format!("{x}{y}/{z}"));
                paths.push(format!("/{x}//{y}/{z}/"));
            }
        }
    }
    for p in &paths {
        let mut expected = std::path::PathBuf::from(p);
        let mut name = expected.file_name().unwrap_or_default().to_os_string();
        name.push(".part");
        expected.set_file_name(name);
        assert_eq!(append_to_file_name(p, ".part"), expected.to_str().unwrap(), "{p:?}");
    }
}
