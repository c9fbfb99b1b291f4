use rcli::text::decimal::parse_number;
use rcli::text::decimal::push_decimal;
use rcli::text::escape::encode_path;
use rcli::text::escape::escape_html;
use rcli::text::paths::chars_of;
use rcli::text::paths::join_paths;
use std::path::Path;

#[test]
fn escape_html_replaces_the_five_characters() {
    assert_eq!(escape_html("a<b>c&d\"e'f"), "a&lt;b&gt;c&amp;d&quot;e&#39;f");
}

#[test]
fn escape_html_keeps_plain_and_foreign_text() {
    assert_eq!(escape_html("notes-2024_v1.txt"), "notes-2024_v1.txt");
    assert_eq!(escape_html("读取目录"), "读取目录");
    assert_eq!(escape_html(""), "");
}

#[test]
fn escape_html_leaves_no_markup_character() {
    let escaped = escape_html("<li><a href=\"x\">'</a></li>");
    assert!(!escaped.contains('<'));
    assert!(!escaped.contains('>'));
    assert!(!escaped.contains('"'));
    assert!(!escaped.contains('\''));
}

#[test]
fn encode_path_keeps_unreserved_characters_and_separators() {
    assert_eq!(encode_path("sub/c.txt"), "sub/c.txt");
    assert_eq!(encode_path("A-Z_a-z.0~9/"), "A-Z_a-z.0~9/");
    assert_eq!(encode_path(""), "");
}

#[test]
fn encode_path_escapes_every_other_byte() {
    assert_eq!(encode_path("a b"), "a%20b");
    assert_eq!(encode_path("100%"), "100%25");
    assert_eq!(encode_path("q?x=1&y=2#z"), "q%3Fx%3D1%26y%3D2%23z");
    assert_eq!(encode_path("<\">'"), "%3C%22%3E%27");
    assert_eq!(encode_path("é"), "%C3%A9");
    assert_eq!(encode_path("读"), "%E8%AF%BB");
    assert_eq!(encode_path("\u{1F600}"), "%F0%9F%98%80");
    assert_eq!(encode_path("\n\u{7f}"), "%0A%7F");
}

#[test]
fn join_paths_follows_the_three_cases() {
    assert_eq!(join_paths(".", "a.txt"), "./a.txt");
    assert_eq!(join_paths("root/", "a.txt"), "root/a.txt");
    assert_eq!(join_paths("", "a.txt"), "a.txt");
    assert_eq!(join_paths("/srv/files", "/etc/passwd"), "/etc/passwd");
    assert_eq!(join_paths("/srv/files", "../secret"), "/srv/files/../secret");
    assert_eq!(join_paths(".", ""), "./");
    assert_eq!(join_paths("", ""), "");
}

#[test]
fn join_paths_agrees_with_the_standard_library() {
    let bases = ["", ".", "/", "a", "a/", "/srv/files", "./x/y", "读取"];
    let paths = ["", "b", "b/c", "/b", "..", "../b", "./b", "b/", "目录.txt"];
    for base in bases {
        for path in paths {
            let expected = Path::new(base).join(path);
            assert_eq!(join_paths(base, path), expected.to_str().unwrap(), "{base:?} {path:?}");
        }
    }
}

#[test]
fn join_paths_ends_with_the_adjoined_path() {
    let bases = ["", ".", "/srv", "a/"];
    let paths = ["", "x", "/x", "../x/y.txt"];
    for base in bases {
        for path in paths {
            assert!(join_paths(base, path).ends_with(path));
        }
    }
}

#[test]
fn join_paths_is_associative() {
    let parts = ["", ".", "/", "a", "a/", "/srv/www", "data", "sub/dir", "c.txt", "../x"];
    for base in parts {
        for path in parts {
            for name in parts {
                assert_eq!(
                    join_paths(base, &join_paths(path, name)),
                    join_paths(&join_paths(base, path), name),
                    "{base:?} {path:?} {name:?}"
                );
            }
        }
    }
}

#[test]
fn chars_of_gives_every_character() {
    assert_eq!(chars_of("a读b"), vec!['a', '读', 'b']);
    assert_eq!(chars_of(""), Vec::<char>::new());
}

#[test]
fn push_decimal_writes_every_port() {
    for port in [0u16, 1, 9, 10, 80, 99, 100, 8080, 9999, 10000, 65535] {
        let mut text = String::from("port ");
        push_decimal(&mut text, port);
        assert_eq!(text, format!("port {}", port));
    }
}

#[test]
fn parse_number_reads_what_the_standard_library_reads() {
    let texts = [
        "", "0", "7", "12", "007", "+5", "+", "-5", "1 ", " 1", "1_0", "12a", "a12", "++1", "1+",
        "18446744073709551615", "18446744073709551616", "99999999999999999999999", "٣",
    ];
    for text in texts {
        let chars = chars_of(text);
        let expected = text.parse::<usize>().ok();
        assert_eq!(parse_number(&chars, chars.len()), expected, "{text:?}");
    }
}

#[test]
fn parse_number_reads_only_up_to_the_end_given() {
    let chars = chars_of("123x");
    assert_eq!(parse_number(&chars, 3), Some(123));
    assert_eq!(parse_number(&chars, 2), Some(12));
    assert_eq!(parse_number(&chars, 4), None);
    assert_eq!(parse_number(&chars, 0), None);
    assert_eq!(parse_number(&chars, 5), None);
}
