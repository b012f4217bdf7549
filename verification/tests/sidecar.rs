use tauri_shell::sidecar::{
    build_root, handle_sidecar_message, line_content, missing_entry_message, on_reading, read_line, reading_of,
    sidecar_entry, sidecar_launch, EntryStep, LineAction, Next, Reading, Shell, SidecarMessage, Task, DEFAULT_ENTRY,
    FIRST_WINDOW_GRACE_SECS, PREFIX,
};
use tauri_shell::window::WindowRequest;

fn create(win_id: u64) -> SidecarMessage<f64> {
    SidecarMessage::CreateWindow(WindowRequest {
        win_id,
        url: "index.html".to_string(),
        width: Some(1.5),
        height: None,
        min_width: None,
        min_height: None,
        title: None,
        show: None,
        background_color: None,
    })
}

fn action(win_id: u64, action: &str) -> SidecarMessage<f64> {
    SidecarMessage::Window { win_id, action: action.to_string() }
}

fn payload(line: &str) -> Option<String> {
    match read_line(line) {
        LineAction::Decode(payload) => Some(payload),
        LineAction::Print(text) => {
            assert_eq!(text, format!("[sidecar] {line}"));
            None
        }
    }
}

#[test]
fn constants() {
    assert_eq!(PREFIX, "@tauri-shell ");
    assert_eq!(FIRST_WINDOW_GRACE_SECS, 15);
    assert_eq!(DEFAULT_ENTRY, "../dist/sidecar/index.js");
}

#[test]
fn protocol_lines_carry_their_payload() {
    assert_eq!(payload("@tauri-shell {}"), Some("{}".to_string()));
    assert_eq!(payload("@tauri-shell "), Some(String::new()));
    assert_eq!(
        payload("@tauri-shell @tauri-shell é"),
        Some("@tauri-shell é".to_string())
    );
}

#[test]
fn other_lines_are_logging() {
    for line in ["", "hello", "@tauri-shell", " @tauri-shell {}", "@tauri-shell\t{}", "@TAURI-SHELL {}"] {
        assert_eq!(payload(line), None);
    }
}

#[test]
fn line_breaks_are_taken_off() {
    let content = |bytes: &[u8]| line_content(bytes.to_vec());
    assert_eq!(content(b"abc\n"), b"abc".to_vec());
    assert_eq!(content(b"abc\r\n"), b"abc".to_vec());
    assert_eq!(content(b"abc"), b"abc".to_vec());
    assert_eq!(content(b"abc\r"), b"abc\r".to_vec());
    assert_eq!(content(b"a\r\r\n"), b"a\r".to_vec());
    assert_eq!(content(b"\n"), Vec::<u8>::new());
    assert_eq!(content(b"\r\n"), Vec::<u8>::new());
    assert_eq!(content(b""), Vec::<u8>::new());
}

#[test]
fn utf8_lines_are_text() {
    assert!(matches!(reading_of(b"abc\r\n".to_vec()), Reading::Text(t) if t == "abc"));
    assert!(matches!(reading_of("é日😀\n".as_bytes().to_vec()), Reading::Text(t) if t == "é日😀"));
    assert!(matches!(reading_of(b"\n".to_vec()), Reading::Text(t) if t.is_empty()));
}

#[test]
fn other_bytes_are_no_text_and_are_shown() {
    assert!(matches!(reading_of(b"a\xffb\n".to_vec()), Reading::NotText(t) if t == "a\u{fffd}b"));
    // An overlong form, a surrogate, and a sequence that breaks off.
    assert!(matches!(reading_of(b"\xc0\xaf".to_vec()), Reading::NotText(_)));
    assert!(matches!(reading_of(b"\xed\xa0\x80".to_vec()), Reading::NotText(_)));
    assert!(matches!(reading_of(b"x\xe6\x97\n".to_vec()), Reading::NotText(t) if t == "x\u{fffd}"));
}

#[test]
fn each_written_line_has_one_effect_in_order() {
    let (effects, _) = run(vec![
        reading_of(b"hi\r\n".to_vec()),
        reading_of(b"@tauri-shell new\n".to_vec()),
        reading_of(b"@tauri-shell \xff\n".to_vec()),
        reading_of(b"@tauri-shell x".to_vec()),
        Reading::Closed,
    ]);
    assert_eq!(
        effects,
        vec![
            "[sidecar] hi",
            "create 1",
            "[sidecar] @tauri-shell \u{fffd}",
            "[shell] bad sidecar message: no: x",
            "[shell] sidecar exited; shutting down",
        ]
    );
}

#[test]
fn a_line_that_is_no_text_is_logging() {
    match on_reading(Reading::NotText("@tauri-shell \u{fffd}".to_string())) {
        Next::Act(LineAction::Print(text)) => {
            assert_eq!(text, "[sidecar] @tauri-shell \u{fffd}");
        }
        _ => panic!("not passed on"),
    }
}

/// What the readings bring about, where only the payload `new` asks for a window and only
/// `show` for an action.
fn run(readings: Vec<Reading>) -> (Vec<String>, Shell) {
    let mut shell = Shell::new();
    let mut effects = Vec::new();
    for reading in readings {
        match on_reading(reading) {
            Next::Act(LineAction::Print(text)) => effects.push(text),
            Next::Act(LineAction::Decode(payload)) => {
                let decoded = match payload.as_str() {
                    "new" => Ok(create(1)),
                    "show" => Ok(action(1, "show")),
                    _ => Err("no".to_string()),
                };
                effects.push(match shell.on_message(&payload, decoded) {
                    Task::CreateWindow(request) => format!("create {}", request.win_id),
                    Task::OperateWindow { label, action } => format!("{action} {label}"),
                    Task::Report(report) => report,
                });
            }
            Next::Finish => {
                effects.push(shell.on_stdout_closed().report);
                break;
            }
        }
    }
    (effects, shell)
}

#[test]
fn each_line_has_one_effect_in_order() {
    let text = |line: &str| Reading::Text(line.to_string());
    let (effects, shell) = run(vec![
        text("hello"),
        text("@tauri-shell new"),
        Reading::NotText("?".to_string()),
        text("@tauri-shell show"),
        text("@tauri-shell x"),
        Reading::Closed,
        text("late"),
    ]);
    assert_eq!(
        effects,
        vec![
            "[sidecar] hello",
            "create 1",
            "[sidecar] ?",
            "show win-1",
            "[shell] bad sidecar message: no: x",
            "[shell] sidecar exited; shutting down",
        ]
    );
    assert_eq!(shell, Shell { asked_for_a_window: true, sidecar_alive: false });
}

#[test]
fn messages_become_tasks() {
    assert!(matches!(
        handle_sidecar_message(create(4)),
        Task::CreateWindow(r) if r.win_id == 4 && r.url == "index.html" && r.width == Some(1.5)
    ));
    assert!(matches!(
        handle_sidecar_message(action(4, "show")),
        Task::OperateWindow { label, action } if label == "win-4" && action == "show"
    ));
}

#[test]
fn a_bad_message_is_reported() {
    let mut shell = Shell::new();
    let task = shell.on_message::<f64>("{", Err("EOF".to_string()));
    assert!(matches!(task, Task::Report(r) if r == "[shell] bad sidecar message: EOF: {"));
    assert_eq!(shell, Shell::new());
}

#[test]
fn silence_is_reported_until_a_window_is_asked_for() {
    let report = "[shell] the sidecar has not asked for a window in 15s. It may not \
                  have recognised this shell: it looks for TAURI_SHELL=1 in its \
                  environment and for protocol lines prefixed '@tauri-shell '.";
    let mut shell = Shell::new();
    assert_eq!(shell.on_grace_elapsed(), Some(report.to_string()));
    let _ = shell.on_message("p", Ok(action(1, "show")));
    assert_eq!(shell.on_grace_elapsed(), Some(report.to_string()));
    let _ = shell.on_message("p", Ok(create(1)));
    assert_eq!(shell.on_grace_elapsed(), None);
    let _ = shell.on_message::<f64>("p", Err("e".to_string()));
    assert_eq!(shell.on_grace_elapsed(), None);
}

#[test]
fn only_the_end_of_the_sidecar_ends_the_shell() {
    let mut shell = Shell::new();
    assert!(shell.prevents_exit());
    let _ = shell.on_message("p", Ok(create(1)));
    let _ = shell.on_message("p", Ok(action(1, "close")));
    assert!(shell.prevents_exit());
    let shut_down = shell.on_stdout_closed();
    assert_eq!(shut_down.report, "[shell] sidecar exited; shutting down");
    assert_eq!(shut_down.code, 0);
    assert!(!shell.prevents_exit());
    let _ = shell.on_message("p", Ok(create(2)));
    assert!(!shell.prevents_exit());
}

#[test]
fn how_the_sidecar_is_launched() {
    let launch = sidecar_launch(None, "index.js");
    assert_eq!(launch.program, "node");
    assert_eq!(launch.entry, "index.js");
    assert_eq!(launch.variable, "TAURI_SHELL");
    assert_eq!(launch.value, "1");
    assert_eq!(sidecar_launch(Some("/usr/bin/node".to_string()), "x").program, "/usr/bin/node");
}

#[test]
fn the_build_is_three_levels_up() {
    let ancestors: Vec<&str> = vec!["/r/target/release/shell", "/r/target/release", "/r/target", "/r", "/"];
    assert_eq!(build_root(&ancestors), Some(&"/r"));
    assert_eq!(build_root(&vec!["/a/b", "/a", "/"]), None);
}

fn search(explicit: Option<&'static str>, from_exe: Option<&'static str>, present: &[&str]) -> Result<&'static str, Vec<&'static str>> {
    let mut step = sidecar_entry(explicit, "cwd", from_exe);
    loop {
        step = match step {
            EntryStep::Use(path) => return Ok(path),
            EntryStep::Probe(search) => {
                let found = present.contains(search.candidate());
                search.answer(found)
            }
            EntryStep::Missing(tried) => return Err(tried),
        };
    }
}

#[test]
fn an_explicit_entry_wins() {
    assert_eq!(search(Some("x"), Some("exe"), &["cwd", "exe"]), Ok("x"));
    assert_eq!(search(Some("x"), None, &[]), Ok("x"));
}

#[test]
fn the_first_entry_that_exists_is_used() {
    assert_eq!(search(None, Some("exe"), &["cwd", "exe"]), Ok("cwd"));
    assert_eq!(search(None, Some("exe"), &["exe"]), Ok("exe"));
    assert_eq!(search(None, None, &["cwd"]), Ok("cwd"));
}

#[test]
fn without_an_entry_the_candidates_are_named() {
    assert_eq!(search(None, Some("exe"), &[]), Err(vec!["cwd", "exe"]));
    assert_eq!(search(None, None, &["exe"]), Err(vec!["cwd"]));
    assert_eq!(
        missing_entry_message(&vec!["a".to_string(), "b".to_string()]),
        "no dist/sidecar/index.js (tried a, b) — run `pnpm build && pnpm build:tauri`, \
         or point TAURI_SHELL_SIDECAR_ENTRY at it"
    );
    assert_eq!(
        missing_entry_message(&vec!["a".to_string()]),
        "no dist/sidecar/index.js (tried a) — run `pnpm build && pnpm build:tauri`, \
         or point TAURI_SHELL_SIDECAR_ENTRY at it"
    );
}
