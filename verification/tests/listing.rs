use rcli::process::listing::address;
use rcli::process::listing::render_html;
use rcli::process::listing::FilePath;

const HEAD: &str = "\n    <!DOCTYPE html>\n    <html lang=\"en\">\n    <head>\n        <meta charset=\"UTF-8\">\n        <meta name=\"viewport\" content=\"width=device-width, initial-scale=1.0\">\n        <title>File Server</title>\n    </head>\n    <body>\n        <ul>\n            ";
const TAIL: &str = "\n        </ul>\n    </body>\n    </html>\n    ";

#[test]
fn address_is_all_interfaces_and_the_port() {
    assert_eq!(address(8080), "0.0.0.0:8080");
    assert_eq!(address(0), "0.0.0.0:0");
    assert_eq!(address(65535), "0.0.0.0:65535");
}

#[test]
fn entry_links_back_to_the_server() {
    let entry = FilePath::new(8080, "sub", "c.txt");
    assert_eq!(entry.path(), "http://0.0.0.0:8080/sub/c.txt");
    assert_eq!(entry.name(), "c.txt");
}

#[test]
fn entry_link_asks_for_the_request_path_and_the_name() {
    let entry = FilePath::new(3000, "", "a.txt");
    assert_eq!(entry.path(), "http://0.0.0.0:3000/a.txt");
    let entry = FilePath::new(3000, "sub/", "a.txt");
    assert_eq!(entry.path(), "http://0.0.0.0:3000/sub/a.txt");
    let entry = FilePath::new(3000, "a/b", "c d.txt");
    assert_eq!(entry.path(), "http://0.0.0.0:3000/a/b/c%20d.txt");
    let entry = FilePath::new(3000, "./sub", "a.txt");
    assert_eq!(entry.path(), "http://0.0.0.0:3000/./sub/a.txt");
}

#[test]
fn entry_link_is_valid_whatever_the_name_holds() {
    let entry = FilePath::new(8080, "", "my \"best\" <notes> & more.txt");
    assert_eq!(
        entry.path(),
        "http://0.0.0.0:8080/my%20%22best%22%20%3Cnotes%3E%20%26%20more.txt"
    );
    assert_eq!(entry.name(), "my \"best\" <notes> & more.txt");
    for c in entry.path().chars() {
        assert!(c.is_ascii_alphanumeric() || "-._~/:%".contains(c), "{c:?}");
    }
}

#[test]
fn entry_renders_as_one_list_item() {
    let entry = FilePath::new(8080, "", "a.txt");
    assert_eq!(
        entry.to_string(),
        "<li><a href=\"http://0.0.0.0:8080/a.txt\" target=\"_blank\">a.txt</a></li>"
    );
}

#[test]
fn entry_escapes_its_name() {
    let entry = FilePath::new(8080, "", "<li>&.txt");
    assert_eq!(
        entry.to_string(),
        "<li><a href=\"http://0.0.0.0:8080/%3Cli%3E%26.txt\" target=\"_blank\">&lt;li&gt;&amp;.txt</a></li>"
    );
}

#[test]
fn empty_listing_is_the_template_around_an_empty_list() {
    assert_eq!(render_html(Vec::new()), format!("{HEAD}{TAIL}"));
}

#[test]
fn listing_holds_the_entries_in_their_order_one_per_line() {
    let paths = vec![FilePath::new(8080, "", "b.txt"), FilePath::new(8080, "", "a.txt")];
    let expected = format!(
        "{HEAD}<li><a href=\"http://0.0.0.0:8080/b.txt\" target=\"_blank\">b.txt</a></li>\n<li><a href=\"http://0.0.0.0:8080/a.txt\" target=\"_blank\">a.txt</a></li>{TAIL}"
    );
    assert_eq!(render_html(paths), expected);
}

#[test]
fn listing_keeps_entries_that_are_equal() {
    let paths = vec![
        FilePath::new(8080, "", "a.txt"),
        FilePath::new(8080, "", "a.txt"),
        FilePath::new(8080, "", "a.txt"),
    ];
    let page = render_html(paths);
    assert_eq!(page.matches("<li>").count(), 3);
    assert_eq!(page.matches("</li>").count(), 3);
}

#[test]
fn listing_has_one_item_per_entry_whatever_the_names_hold() {
    let names = ["<li>", "</li><li>", "a\"><li>", "'<li>'", "<ul>", "plain", "&lt;li&gt;"];
    let paths: Vec<FilePath> = names.iter().map(|name| FilePath::new(8080, "", name)).collect();
    let page = render_html(paths);
    assert_eq!(page.matches("<li>").count(), names.len());
    assert_eq!(page.matches("</li>").count(), names.len());
    assert_eq!(page.matches("<ul>").count(), 1);
    assert_eq!(page.matches("</ul>").count(), 1);
    assert_eq!(page.matches("<a ").count(), names.len());
    assert_eq!(page.matches("</a>").count(), names.len());
}

#[test]
fn rendering_twice_gives_the_same_page() {
    let first = render_html(vec![FilePath::new(80, "x", "a"), FilePath::new(80, "x", "b")]);
    let second = render_html(vec![FilePath::new(80, "x", "a"), FilePath::new(80, "x", "b")]);
    assert_eq!(first, second);
}

/// Reads a page as a browser's tokenizer does, and says whether every tag and
/// every quoted attribute value in it is closed, with no stray bracket.
fn is_well_bracketed(page: &str) -> bool {
    let mut place = 0;
    for c in page.chars() {
        place = match (place, c) {
            (0, '<') => 1,
            (0, '>') => return false,
            (1, '>') => 0,
            (1, '"') => 2,
            (1, '<') => return false,
            (2, '"') => 1,
            (2, '<') | (2, '>') => return false,
            (place, _) => place,
        };
    }
    place == 0
}

#[test]
fn listing_is_well_bracketed_whatever_the_names_hold() {
    let names = ["plain.txt", "<", ">", "\"", "'", "<a href=\"x\">", "\"><script>", "a\" b=\"c"];
    let paths: Vec<FilePath> = names.iter().map(|name| FilePath::new(8080, "d\"<>", name)).collect();
    let page = render_html(paths);
    assert!(is_well_bracketed(&page));
    assert!(is_well_bracketed(&render_html(Vec::new())));
    assert!(!is_well_bracketed("<li><a href=\"\"><script>\">x</a></li>"));
}
