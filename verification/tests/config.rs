use tauri_shell::config::{app_name, frontend_dir, page_url, scheme, serving_line};
use tauri_shell::frontend::request_path;

fn taken(configured: &str) {
    assert_eq!(scheme(Some(configured)), (configured.trim().to_string(), None));
}

fn refused(configured: &str) {
    let report = format!(
        "[shell] ignoring unusable TAURI_SHELL_SCHEME '{}'; using 'app'",
        configured.trim()
    );
    assert_eq!(scheme(Some(configured)), ("app".to_string(), Some(report)));
}

#[test]
fn the_default_scheme_is_app() {
    assert_eq!(scheme(None), ("app".to_string(), None));
    assert_eq!(scheme(Some("")), ("app".to_string(), None));
    assert_eq!(scheme(Some(" \t\r\n\u{a0}\u{3000}\u{2028}")), ("app".to_string(), None));
}

#[test]
fn legal_schemes_are_taken() {
    for text in ["app", "a", "My-App", "x+y.z-0", "  spaced\n", "\u{85}\u{2003}wide\u{205f}"] {
        taken(text);
    }
}

#[test]
fn illegal_schemes_are_refused_with_a_report() {
    for text in ["1app", "my app", "app:", "app/", "http://x", "-a", "äpp", "app\u{200b}", "a_b"] {
        refused(text);
    }
}

#[test]
fn what_counts_as_whitespace() {
    for code in 0..0x3100u32 {
        if let Some(c) = char::from_u32(code) {
            let text = format!("{c}abc{c}");
            let expected = text.trim() == "abc"
                || c.is_ascii_alphabetic();
            assert_eq!(scheme(Some(&text)).0 != "app", expected);
        }
    }
}

#[test]
fn the_scheme_in_force_is_stable() {
    for text in ["app", " My-App ", "no good", "1"] {
        let (first, _) = scheme(Some(text));
        assert_eq!(scheme(Some(&first)), (first.clone(), None));
        assert!(!first.contains(':') && !first.contains('/'));
    }
}

#[test]
fn page_addresses() {
    assert_eq!(page_url("app", "index.html?winId=1"), "app://localhost/index.html?winId=1");
    assert_eq!(page_url("x", ""), "x://localhost/");
}

#[test]
fn a_page_address_asks_for_its_file() {
    let address = page_url("my+app", "a/b.html?x=://y/..");
    assert_eq!(request_path(&address), Some("a/b.html".to_string()));
    assert_eq!(request_path(&page_url("app", "a/../b")), None);
    assert_eq!(request_path(&page_url("app", "")), Some("index.html".to_string()));
}

#[test]
fn configured_values_win_over_defaults() {
    assert_eq!(frontend_dir(None), "dist/renderer");
    assert_eq!(frontend_dir(Some("x/y".to_string())), "x/y");
    assert_eq!(frontend_dir(Some(String::new())), "");
    assert_eq!(app_name(None), "Tauri Shell");
    assert_eq!(app_name(Some("Copse".to_string())), "Copse");
}

#[test]
fn the_startup_line() {
    assert_eq!(serving_line("app", "dist"), "[shell] serving app://localhost/ from dist");
}
