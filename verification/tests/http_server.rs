use rcli::process::http_server::entries_for;
use rcli::process::http_server::plan;
use rcli::text::paths::join_paths;
use rcli::utils::root_for;
use rcli::file_handler;
use rcli::respond;
use rcli::verify_path;
use rcli::HttpServeState;
use rcli::ResolvedTarget;
use rcli::Response;
use rcli::Step;

/// What a test lets the file system hold.
enum Node {
    File(String),
    Directory(Vec<String>),
    Unreadable(String),
}

/// Handles one request as a server does, against the nodes given.
fn handle(state: &HttpServeState, request: &str, nodes: &[(&str, Node)]) -> Response {
    let target = join_paths(&state.path, request);
    let node = nodes.iter().find(|(path, _)| *path == target).map(|(_, node)| node);
    let exists = node.is_some();
    let is_dir = matches!(node, Some(Node::Directory(_)));
    match plan(state, request, exists, is_dir) {
        Step::Respond(response) => response,
        Step::ListDirectory(path) => {
            assert_eq!(path, target);
            match node {
                Some(Node::Directory(names)) => {
                    respond(state, request, ResolvedTarget::Directory(names.clone()))
                }
                _ => unreachable!(),
            }
        }
        Step::ReadFile(path) => {
            assert_eq!(path, target);
            match node {
                Some(Node::File(content)) => {
                    respond(state, request, ResolvedTarget::File(content.clone()))
                }
                Some(Node::Unreadable(cause)) => {
                    respond(state, request, ResolvedTarget::ReadError(cause.clone()))
                }
                _ => unreachable!(),
            }
        }
    }
}

/// The path that a link asks the server for, as the HTTP layer hands it on.
fn request_of(link: &str) -> String {
    let path = link.strip_prefix("http://0.0.0.0:8080/").unwrap();
    let bytes = path.as_bytes();
    let mut decoded = Vec::new();
    let mut i = 0;
    while i < bytes.len() {
        if bytes[i] == b'%' {
            let hex = std::str::from_utf8(&bytes[i + 1..i + 3]).unwrap();
            decoded.push(u8::from_str_radix(hex, 16).unwrap());
            i += 3;
        } else {
            decoded.push(bytes[i]);
            i += 1;
        }
    }
    String::from_utf8(decoded).unwrap()
}

fn state(path: &str) -> HttpServeState {
    HttpServeState { path: path.to_string(), port: 8080 }
}

fn names(list: &[&str]) -> Vec<String> {
    list.iter().map(|name| name.to_string()).collect()
}

#[test]
fn serves_the_files_of_the_root_and_lists_them() {
    let nodes = [
        ("./", Node::Directory(names(&["a.txt", "b.txt"]))),
        ("./a.txt", Node::File("hello".to_string())),
        ("./b.txt", Node::File("world".to_string())),
    ];
    let state = state(".");
    let file = handle(&state, "a.txt", &nodes);
    assert_eq!(file.status(), 200);
    assert_eq!(file.payload(), "hello");
    assert!(!file.is_html());
    let root = handle(&state, "", &nodes);
    assert_eq!(root.status(), 200);
    assert!(root.is_html());
    assert!(root
        .payload()
        .contains("<li><a href=\"http://0.0.0.0:8080/a.txt\" target=\"_blank\">a.txt</a></li>"));
    assert!(root
        .payload()
        .contains("<li><a href=\"http://0.0.0.0:8080/b.txt\" target=\"_blank\">b.txt</a></li>"));
    assert_eq!(root.payload().matches("<li>").count(), 2);
}

#[test]
fn answers_a_missing_file_with_not_found() {
    let state = state("/srv/files");
    let response = handle(&state, "missing.txt", &[]);
    assert_eq!(response.status(), 404);
    assert!(!response.is_html());
    assert_eq!(response.payload(), "/srv/files/missing.txt not found");
    assert!(response.payload().ends_with("/missing.txt not found"));
}

#[test]
fn lists_a_subdirectory_and_serves_its_file() {
    let nodes = [
        ("./", Node::Directory(names(&["sub"]))),
        ("./sub", Node::Directory(names(&["c.txt"]))),
        ("./sub/c.txt", Node::File("content of c".to_string())),
    ];
    let state = state(".");
    let listing = handle(&state, "sub", &nodes);
    assert_eq!(listing.status(), 200);
    assert!(listing.is_html());
    assert_eq!(listing.payload().matches("<li>").count(), 1);
    assert!(listing
        .payload()
        .contains("<li><a href=\"http://0.0.0.0:8080/sub/c.txt\" target=\"_blank\">c.txt</a></li>"));
    let file = handle(&state, "sub/c.txt", &nodes);
    assert_eq!(file.status(), 200);
    assert_eq!(file.payload(), "content of c");
}

#[test]
fn links_hold_no_part_of_the_served_directory() {
    for root in [".", "data", "/srv/www", "./", "", "a/b/"] {
        let listing =
            respond(&state(root), "sub", ResolvedTarget::Directory(names(&["c.txt"])));
        assert_eq!(listing.status(), 200);
        assert!(listing
            .payload()
            .contains("<li><a href=\"http://0.0.0.0:8080/sub/c.txt\" target=\"_blank\">c.txt</a></li>"));
        let listing = respond(&state(root), "", ResolvedTarget::Directory(names(&["c.txt"])));
        assert!(listing
            .payload()
            .contains("<li><a href=\"http://0.0.0.0:8080/c.txt\" target=\"_blank\">c.txt</a></li>"));
    }
}

#[test]
fn following_a_link_leads_to_the_child() {
    for root in [".", "data", "/srv/www", "", "a/b/"] {
        for request in ["", "sub", "sub/", "a b/ü", "x/../y"] {
            for name in ["c.txt", "d e.txt", "100%.txt", "读取.txt", "<li>"] {
                let state = state(root);
                let directory = join_paths(root, request);
                let child = join_paths(&directory, name);
                let nodes = [
                    (directory.as_str(), Node::Directory(names(&[name]))),
                    (child.as_str(), Node::File("the child".to_string())),
                ];
                let entries = entries_for(8080, request, &names(&[name]));
                let next = request_of(entries[0].path());
                assert_eq!(next, join_paths(request, name));
                assert_eq!(join_paths(root, &next), child);
                let listing = handle(&state, request, &nodes);
                assert!(listing.payload().contains(&format!("href=\"{}\"", entries[0].path())));
                let response = handle(&state, &next, &nodes);
                assert_eq!(response.status(), 200, "{root:?} {request:?} {name:?}");
                assert_eq!(response.payload(), "the child");
            }
        }
    }
}

#[test]
fn file_content_is_passed_on_unchanged() {
    let state = state(".");
    for content in ["", "hello", "<li>not a list</li>", "line\r\nline\n", "读取目录失败 & more"] {
        let response = respond(&state, "x", ResolvedTarget::File(content.to_string()));
        assert_eq!(response.status(), 200);
        assert!(!response.is_html());
        assert_eq!(response.payload(), content);
    }
}

#[test]
fn failed_read_is_a_server_error_with_the_cause() {
    let state = state(".");
    let cause = "stream did not contain valid UTF-8";
    let response = respond(&state, "x", ResolvedTarget::ReadError(cause.to_string()));
    assert_eq!(response.status(), 500);
    assert!(!response.is_html());
    assert_eq!(response.payload(), cause);
    let nodes = [("./x.bin", Node::Unreadable(cause.to_string()))];
    let response = handle(&state, "x.bin", &nodes);
    assert_eq!(response.status(), 500);
    assert_eq!(response.payload(), cause);
}

#[test]
fn directory_listing_has_one_item_per_child() {
    let state = state("/srv");
    for count in [0usize, 1, 2, 17] {
        let children: Vec<String> = (0..count).map(|i| format!("file <{i}>.txt")).collect();
        let response = respond(&state, "d", ResolvedTarget::Directory(children));
        assert_eq!(response.status(), 200);
        assert!(response.is_html());
        assert_eq!(response.payload().matches("<li>").count(), count);
        assert_eq!(response.payload().matches("</li>").count(), count);
    }
}

#[test]
fn missing_target_names_the_request() {
    for root in ["", ".", "/srv/files", "files/"] {
        for request in ["missing.txt", "a/b/c", "../up", "/etc/passwd", ""] {
            let response = handle(&state(root), request, &[]);
            assert_eq!(response.status(), 404);
            assert!(response.payload().contains(request));
            assert_eq!(response.payload(), format!("{} not found", join_paths(root, request)));
            let response = respond(&state(root), request, ResolvedTarget::NotFound);
            assert_eq!(response.payload(), format!("{} not found", join_paths(root, request)));
        }
    }
}

#[test]
fn same_request_gives_the_same_response() {
    let nodes = [
        ("./", Node::Directory(names(&["a.txt", "d"]))),
        ("./a.txt", Node::File("hello".to_string())),
        ("./d", Node::Directory(Vec::new())),
        ("./bad", Node::Unreadable("permission denied".to_string())),
    ];
    let state = state(".");
    for request in ["", "a.txt", "d", "bad", "nothing"] {
        let first = handle(&state, request, &nodes);
        let second = handle(&state, request, &nodes);
        assert_eq!(first.status(), second.status());
        assert_eq!(first.is_html(), second.is_html());
        assert_eq!(first.payload(), second.payload());
    }
}

#[test]
fn dot_segments_are_not_rejected() {
    let nodes = [("./../outside.txt", Node::File("outside".to_string()))];
    let response = handle(&state("."), "../outside.txt", &nodes);
    assert_eq!(response.status(), 200);
    assert_eq!(response.payload(), "outside");
}

#[test]
fn plan_has_one_step_for_each_answer() {
    let state = state("/srv");
    match plan(&state, "x", false, false) {
        Step::Respond(response) => {
            assert_eq!(response.status(), 404);
            assert_eq!(response.payload(), "/srv/x not found");
        }
        _ => panic!("a missing target is answered at once"),
    }
    match plan(&state, "x", false, true) {
        Step::Respond(response) => assert_eq!(response.status(), 404),
        _ => panic!("a missing target is answered at once"),
    }
    match plan(&state, "x", true, true) {
        Step::ListDirectory(path) => assert_eq!(path, "/srv/x"),
        _ => panic!("a directory is to be enumerated"),
    }
    match plan(&state, "x", true, false) {
        Step::ReadFile(path) => assert_eq!(path, "/srv/x"),
        _ => panic!("a file is to be read"),
    }
}

#[test]
fn entries_for_builds_one_entry_per_name() {
    let entries = entries_for(8080, "sub", &names(&["c.txt", "d e"]));
    assert_eq!(entries.len(), 2);
    assert_eq!(entries[0].name(), "c.txt");
    assert_eq!(entries[0].path(), "http://0.0.0.0:8080/sub/c.txt");
    assert_eq!(entries[1].name(), "d e");
    assert_eq!(entries[1].path(), "http://0.0.0.0:8080/sub/d%20e");
}

#[test]
fn file_handler_asks_the_file_system() {
    let root = state("/");
    match file_handler(&root, "dev") {
        Step::ListDirectory(path) => assert_eq!(path, "/dev"),
        _ => panic!("/dev is a directory"),
    }
    match file_handler(&root, "dev/null") {
        Step::ReadFile(path) => assert_eq!(path, "/dev/null"),
        _ => panic!("/dev/null is no directory"),
    }
    match file_handler(&root, "no-such-entry-for-this-test") {
        Step::Respond(response) => {
            assert_eq!(response.status(), 404);
            assert_eq!(response.payload(), "/no-such-entry-for-this-test not found");
        }
        _ => panic!("nothing stands there"),
    }
}

#[test]
fn verify_path_accepts_directories_only() {
    assert_eq!(verify_path("/"), Ok("/".to_string()));
    assert_eq!(verify_path("/dev"), Ok("/dev".to_string()));
    assert_eq!(verify_path("."), Ok(".".to_string()));
    assert_eq!(verify_path("/dev/null"), Err("Path does not exist"));
    assert_eq!(verify_path("/no-such-entry-for-this-test"), Err("Path does not exist"));
    assert_eq!(verify_path(""), Err("Path does not exist"));
}

#[test]
fn root_for_accepts_an_existing_directory_only() {
    assert_eq!(root_for("x", true, true), Ok("x".to_string()));
    assert_eq!(root_for("x", true, false), Err("Path does not exist"));
    assert_eq!(root_for("x", false, true), Err("Path does not exist"));
    assert_eq!(root_for("x", false, false), Err("Path does not exist"));
}
