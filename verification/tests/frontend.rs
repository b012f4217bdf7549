use tauri_shell::frontend::{answer, content_type_for, request_path, route, Route};

fn path(uri: &str) -> Option<String> {
    request_path(uri)
}

fn some(text: &str) -> Option<String> {
    Some(text.to_string())
}

#[test]
fn the_path_of_a_request() {
    assert_eq!(path("app://localhost/index.html?winId=1"), some("index.html"));
    assert_eq!(path("app://localhost/assets/app.js"), some("assets/app.js"));
    assert_eq!(path("app://localhost/a/b/c.css#top"), some("a/b/c.css"));
    assert_eq!(path("my+app://host:80/x"), some("x"));
}

#[test]
fn an_empty_path_asks_for_the_index() {
    assert_eq!(path("app://localhost/"), some("index.html"));
    assert_eq!(path("app://localhost"), some("index.html"));
    assert_eq!(path("app://localhost/?a=b"), some("index.html"));
    assert_eq!(path("app://localhost/#here"), some("index.html"));
    assert_eq!(path("://"), some("index.html"));
}

#[test]
fn traversal_is_refused() {
    assert_eq!(path("app://localhost/.."), None);
    assert_eq!(path("app://localhost/../secret"), None);
    assert_eq!(path("app://localhost/a/../b"), None);
    assert_eq!(path("app://localhost/a/.."), None);
    assert_eq!(path("app://localhost/./a"), None);
    assert_eq!(path("app://localhost/a/."), None);
    assert_eq!(path("app://localhost/a/..?x"), None);
}

#[test]
fn a_leading_slash_is_refused() {
    assert_eq!(path("app://localhost//etc/passwd"), None);
    assert_eq!(path("app://localhost//a//b"), None);
    assert_eq!(path("app://localhost//"), None);
    assert_eq!(path("app://localhost///?x"), None);
}

#[test]
fn dots_inside_a_name_are_no_traversal() {
    assert_eq!(path("app://localhost/..."), some("..."));
    assert_eq!(path("app://localhost/a..b/.c"), some("a..b/.c"));
    assert_eq!(path("app://localhost/a?b=../.."), some("a"));
    assert_eq!(path("app://localhost/%2e%2e/a"), some("%2e%2e/a"));
}

#[test]
fn a_request_without_a_scheme_is_refused() {
    assert_eq!(path("index.html"), None);
    assert_eq!(path(""), None);
    assert_eq!(path("app:/localhost/a"), None);
}

#[test]
fn the_first_mark_and_the_first_slash_count() {
    assert_eq!(path("app://localhost/a://b/c"), some("a://b/c"));
    assert_eq!(path("app://localhost/a//b"), some("a//b"));
    assert_eq!(path("app://localhost?x=/y"), some("y"));
    assert_eq!(path("app://localhost/täst/日本.html"), some("täst/日本.html"));
}

#[test]
fn a_granted_path_is_granted_again() {
    let first = path("app://localhost/a/b.html?q#f").unwrap();
    assert_eq!(path(&format!("app://localhost/{first}")), Some(first));
}

#[test]
fn media_types() {
    for (name, kind) in [
        ("index.html", "text/html"),
        ("a/b.js", "text/javascript"),
        ("a.mjs", "text/javascript"),
        ("a.css", "text/css"),
        ("a.json", "application/json"),
        ("a.svg", "image/svg+xml"),
        ("a.png", "image/png"),
        ("a.jpg", "image/jpeg"),
        ("a.jpeg", "image/jpeg"),
        ("a.webp", "image/webp"),
        ("a.woff2", "font/woff2"),
        ("a.woff", "font/woff"),
        ("a.wasm", "application/wasm"),
        ("a.js.map", "application/json"),
        ("a.txt", "application/octet-stream"),
        ("a.HTML", "application/octet-stream"),
        ("a.", "application/octet-stream"),
        ("html", "application/octet-stream"),
        ("", "application/octet-stream"),
        (".html", "text/html"),
        ("a.html/b", "application/octet-stream"),
        ("a.b.html", "text/html"),
    ] {
        assert_eq!(content_type_for(name), kind);
    }
}

#[test]
fn a_refused_request_is_forbidden() {
    match route("app://localhost/../x") {
        Route::Refuse { response, report } => {
            assert_eq!(response.status, 403);
            assert_eq!(response.content_type, None);
            assert!(response.body.is_empty());
            assert_eq!(report, "[shell] refused traversal in app://localhost/../x");
        }
        Route::Read { .. } => panic!("granted"),
    }
}

#[test]
fn a_granted_request_is_read() {
    match route("app://localhost/a.css?v=1") {
        Route::Read { path } => assert_eq!(path, "a.css"),
        Route::Refuse { .. } => panic!("refused"),
    }
}

#[test]
fn a_file_is_answered_with_its_bytes_and_type() {
    let (response, report) = answer("a/b.svg", Ok(vec![1, 2, 3]));
    assert_eq!(response.status, 200);
    assert_eq!(response.content_type, Some("image/svg+xml"));
    assert_eq!(response.body, vec![1, 2, 3]);
    assert_eq!(report, None);
}

#[test]
fn a_missing_file_is_not_found() {
    let (response, report) = answer("a.html", Err("No such file".to_string()));
    assert_eq!(response.status, 404);
    assert_eq!(response.content_type, None);
    assert!(response.body.is_empty());
    assert_eq!(report, Some("[shell] 404 a.html: No such file".to_string()));
}
