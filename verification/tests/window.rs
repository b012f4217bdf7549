use tauri_shell::color::Color;
use tauri_shell::frontend::request_path;
use tauri_shell::window::{
    action_failed_line, create_failed_line, create_window, event_name, operate_window,
    tell_sidecar, window_event_line, window_label, window_plan, Extent, Operation, WindowCommand,
    WindowEvent, WindowRequest,
};

fn request(url: &str) -> WindowRequest<f64> {
    WindowRequest {
        win_id: 7,
        url: url.to_string(),
        width: None,
        height: None,
        min_width: None,
        min_height: None,
        title: None,
        show: None,
        background_color: None,
    }
}

#[test]
fn labels() {
    assert_eq!(window_label(0), "win-0");
    assert_eq!(window_label(1), "win-1");
    assert_eq!(window_label(1200), "win-1200");
    assert_eq!(window_label(u64::MAX), "win-18446744073709551615");
    assert_ne!(window_label(1), window_label(11));
}

#[test]
fn events_are_named() {
    assert_eq!(event_name(&WindowEvent::CloseRequested), Some("close-requested"));
    assert_eq!(event_name(&WindowEvent::Destroyed), Some("closed"));
    assert_eq!(event_name(&WindowEvent::Focused(true)), Some("focus"));
    assert_eq!(event_name(&WindowEvent::Focused(false)), Some("blur"));
    assert_eq!(event_name(&WindowEvent::Other), None);
}

#[test]
fn event_names_are_distinct() {
    let told = [
        WindowEvent::CloseRequested,
        WindowEvent::Destroyed,
        WindowEvent::Focused(true),
        WindowEvent::Focused(false),
    ];
    for i in 0..told.len() {
        for j in 0..i {
            assert_ne!(event_name(&told[i]), event_name(&told[j]));
        }
    }
}

#[test]
fn events_are_told_in_one_line() {
    let line = window_event_line(1, "focus");
    assert_eq!(line, "{\"op\":\"window-event\",\"winId\":1,\"event\":\"focus\"}\n");
    assert_eq!(tell_sidecar(1, &WindowEvent::Focused(true)), Some(line.clone()));
    assert_eq!(line.matches('\n').count(), 1);
    assert_eq!(tell_sidecar(1, &WindowEvent::Other), None);
}

#[test]
fn event_lines_are_json() {
    let line = tell_sidecar(42, &WindowEvent::Destroyed).unwrap();
    let value: serde_json::Value = serde_json::from_str(&line).unwrap();
    assert_eq!(value["op"], "window-event");
    assert_eq!(value["winId"], 42);
    assert_eq!(value["event"], "closed");
}

#[test]
fn event_lines_are_distinct() {
    assert_ne!(window_event_line(1, "blur"), window_event_line(11, "blur"));
    assert_ne!(window_event_line(1, "blur"), window_event_line(1, "focus"));
}

#[test]
fn defaults_of_a_window() {
    let plan = match create_window("app", request("index.html?winId=7")) {
        Ok(plan) => plan,
        Err(report) => panic!("{}", report),
    };
    assert_eq!(plan.label, "win-7");
    assert_eq!(plan.url, "app://localhost/index.html?winId=7");
    assert_eq!(plan.title, "App");
    assert!(matches!(plan.width, Extent::Pixels(1200)));
    assert!(matches!(plan.height, Extent::Pixels(800)));
    assert!(plan.visible);
    assert_eq!(plan.background, None);
    assert_eq!(plan.min_size, None);
}

#[test]
fn what_is_asked_for_is_planned() {
    let asked = WindowRequest {
        width: Some(640.5),
        height: Some(480.0),
        min_width: Some(320.0),
        min_height: Some(240.0),
        title: Some("Mail".to_string()),
        show: Some(false),
        background_color: Some("#1e1e1e".to_string()),
        ..request("a")
    };
    let plan = create_window("app", asked).ok().unwrap();
    assert_eq!(plan.title, "Mail");
    assert!(matches!(plan.width, Extent::Asked(w) if w == 640.5));
    assert!(matches!(plan.height, Extent::Asked(h) if h == 480.0));
    assert!(plan.visible);
    assert_eq!(plan.background, Some(Color(30, 30, 30, 255)));
    assert_eq!(plan.min_size, Some((320.0, 240.0)));
}

#[test]
fn a_least_size_needs_both_lengths() {
    let wide = WindowRequest { min_width: Some(1.0), ..request("a") };
    assert_eq!(create_window("app", wide).ok().unwrap().min_size, None);
    let high = WindowRequest { min_height: Some(1.0), ..request("a") };
    assert_eq!(create_window("app", high).ok().unwrap().min_size, None);
}

#[test]
fn a_malformed_color_leaves_the_default() {
    let asked = WindowRequest { background_color: Some("red".to_string()), ..request("a") };
    assert_eq!(create_window("app", asked).ok().unwrap().background, None);
}

#[test]
fn addresses_are_parsed() {
    let url = |scheme: &str, url: &str| create_window(scheme, request(url)).ok().unwrap().url;
    assert_eq!(url("App", "a b.html"), "app://localhost/a%20b.html");
    assert_eq!(url("app", "a/../b"), "app://localhost/b");
    assert_eq!(url("app", "x\n  "), "app://localhost/x");
}

#[test]
fn windows_open_on_the_shells_own_origin() {
    for scheme in ["app", "My+App", "http", "x-1.y"] {
        for url in ["", "/", "//evil/x", "../../..", "@h/", "http://h/", "\\\\h\\x", ":80/", "?q", "#f", "..", "a/../..//"] {
            let plan = create_window(scheme, request(url)).ok().unwrap();
            let origin = format!("{}://localhost/", scheme.to_lowercase());
            assert!(plan.url.starts_with(&origin), "{} {} {}", scheme, url, plan.url);
        }
    }
}

#[test]
fn plain_urls_are_kept_as_they_are() {
    let urls = [
        "", "index.html", "index.html?winId=1", "a//b/", "/a", "//", "...", ".a/b..", "C:/x",
        "a?", "a#", "a?#", "?x", "#y", "a?b?c#d#e?f", "a?u=ws://127.0.0.1:80/%2e%2E/..#%zz%",
        "-._~!$&()*+,;=:@", "a:b@c/d;e=f,g", "x?-._~!$&()*+,;=:@/%", "x#-._~!$&()*+,;=:@/?%",
    ];
    for scheme in ["app", "My+App", "http", "WSS", "x-1.y"] {
        for url in urls {
            let plan = create_window(scheme, request(url)).ok().unwrap();
            assert_eq!(plan.url, format!("{}://localhost/{}", scheme.to_lowercase(), url));
            assert_eq!(request_path(&plan.url), request_path(&format!("x://y/{url}")));
        }
    }
}

#[test]
fn every_plain_character_stands_for_itself() {
    let plain = "abcdefghijklmnopqrstuvwxyzABCDEFGHIJKLMNOPQRSTUVWXYZ0123456789-._~!$&()*+,;=:@/?#";
    for scheme in ["app", "https"] {
        for c in plain.chars() {
            for url in [format!("a{c}b"), format!("{c}b"), format!("?a{c}"), format!("#{c}b")] {
                let plan = create_window(scheme, request(&url)).ok().unwrap();
                assert_eq!(plan.url, format!("{scheme}://localhost/{url}"));
            }
        }
    }
}

#[test]
fn an_address_that_is_no_url_is_reported() {
    assert_eq!(
        create_window("", request("a")).err(),
        Some("[shell] window 7 has an unusable url 'a': relative URL without a base".to_string())
    );
}

#[test]
fn plans_follow_the_parsed_address() {
    let plan = window_plan(request("a"), Ok("x://y/z".to_string())).ok().unwrap();
    assert_eq!(plan.url, "x://y/z");
    assert_eq!(
        window_plan(request("a?b"), Err("empty host".to_string())).err(),
        Some("[shell] window 7 has an unusable url 'a?b': empty host".to_string())
    );
}

#[test]
fn actions_on_an_open_window() {
    for (name, expected) in [
        ("show", WindowCommand::Show),
        ("hide", WindowCommand::Hide),
        ("focus", WindowCommand::SetFocus),
        ("close", WindowCommand::Destroy),
        ("maximize", WindowCommand::Maximize),
        ("minimize", WindowCommand::Minimize),
    ] {
        assert!(matches!(operate_window(true, name), Operation::Perform(c) if c == expected));
    }
}

#[test]
fn an_unknown_action_is_reported() {
    for name in ["", "Show", "show ", "restore"] {
        match operate_window(true, name) {
            Operation::Report(report) => {
                assert_eq!(report, format!("[shell] unknown window action '{name}'"));
            }
            _ => panic!("taken"),
        }
    }
}

#[test]
fn nothing_happens_to_a_window_that_is_not_open() {
    assert!(matches!(operate_window(false, "show"), Operation::Skip));
    assert!(matches!(operate_window(false, "restore"), Operation::Skip));
}

#[test]
fn failures_are_reported() {
    assert_eq!(create_failed_line(3, "no"), "[shell] failed to create window 3: no");
    assert_eq!(action_failed_line("hide", "no"), "[shell] window action 'hide' failed: no");
}
