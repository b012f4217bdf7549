//! What a caller sees: laws that speak of the results of calls, and of how the results of
//! several calls go together.

use vstd::prelude::*;
use vstd::utf8::{encode_utf8, valid_utf8};

use crate::address::parsed_url;
use crate::color::{hex_color, parse_hex_color, Color};
use crate::config::{app_name, frontend_dir, is_white_space, page_url, scheme, serving_line};
use crate::frontend::{
    answer, content_type, content_type_for, request_path, route, Response, Route,
};
use crate::sidecar::{
    build_root, handle_sidecar_message, line_content, lossy_text, missing_entry_message, on_reading,
    read_line, reading_of, sidecar_entry, sidecar_launch, EntrySearch, EntryStep, Launch, LineAction, Next,
    Reading, Shell, ShutDown, SidecarMessage, Task,
};
use crate::text::{decimal, joined};
use crate::window::{
    action_failed_line, create_failed_line, create_window, event_name, operate_window,
    tell_sidecar, window_event_line, window_label, window_plan, Extent, Operation, WindowCommand,
    WindowEvent, WindowPlan, WindowRequest,
};

verus! {

/// A request is granted the very path that it holds between the host and its query or
/// fragment, however long, unless that path is empty, starts with a slash, or has a `.` or `..`
/// segment. An empty path is granted `index.html`; the others are refused.
pub proof fn law_request_path_gives_the_path(
    uri: &str,
    before: Seq<char>,
    host: Seq<char>,
    path: Seq<char>,
    tail: Seq<char>,
    granted: Option<String>,
)
    requires
        uri@ == before + "://"@ + host + "/"@ + path + tail,
        forall|i: int|
            0 <= i && i + 3 <= before.len() ==> #[trigger] before.subrange(i, i + 3) != "://"@,
        !host.contains('/'),
        !path.contains('?'),
        !path.contains('#'),
        tail.len() == 0 || tail[0] == '?' || tail[0] == '#',
        call_ensures(request_path, (uri,), granted),
    ensures
        path.len() == 0 ==> (granted matches Some(file) && file@ == "index.html"@),
        path.len() > 0 && path[0] == '/' ==> granted is None,
        path.len() > 0 && path[0] != '/' ==> if exists|i: int, j: int|
            0 <= i <= j <= path.len() && (i == 0 || path[i - 1] == '/') && (j == path.len()
                || path[j] == '/') && (#[trigger] path.subrange(i, j) == "."@ || path.subrange(i, j)
                == ".."@) {
            granted is None
        } else {
            granted matches Some(file) && file@ == path
        },
{
    crate::laws::law_every_request_asks_for_its_path(before, host, path, tail);
}

/// A request that ends with its host is granted `index.html`, and one without `://` is refused.
pub proof fn law_request_path_without_a_path(
    bare: &str,
    before: Seq<char>,
    host: Seq<char>,
    other: &str,
    granted: Option<String>,
    refused: Option<String>,
)
    requires
        bare@ == before + "://"@ + host,
        forall|i: int|
            0 <= i && i + 3 <= before.len() ==> #[trigger] before.subrange(i, i + 3) != "://"@,
        !host.contains('/'),
        forall|i: int|
            0 <= i && i + 3 <= other@.len() ==> #[trigger] other@.subrange(i, i + 3) != "://"@,
        call_ensures(request_path, (bare,), granted),
        call_ensures(request_path, (other,), refused),
    ensures
        granted matches Some(file) && file@ == "index.html"@,
        refused is None,
{
    let none = Seq::<char>::empty();
    crate::laws::law_every_request_asks_for_its_path(before, host, none, none);
    crate::laws::law_a_request_without_a_scheme_is_refused(other@);
}

/// A request is read exactly where it is granted a path, and at that path; otherwise it is
/// forbidden, without a body.
pub proof fn law_what_is_granted_is_read(uri: &str, granted: Option<String>, taken: Route)
    requires
        call_ensures(request_path, (uri,), granted),
        call_ensures(route, (uri,), taken),
    ensures
        match granted {
            Some(file) => taken matches Route::Read { path } && path@ == file@,
            None => taken matches Route::Refuse { response, report } && response.status == 403
                && response.content_type is None && response.body@.len() == 0 && report@
                == "[shell] refused traversal in "@ + uri@,
        },
{
}

/// A file that is read is answered with all of its bytes and the media type of its path; one
/// that is not read is not found, without a body.
pub proof fn law_an_answer_holds_the_file(
    path: &str,
    read: Result<Vec<u8>, String>,
    kind: &'static str,
    given: (Response, Option<String>),
)
    requires
        call_ensures(content_type_for, (path,), kind),
        call_ensures(answer, (path, read), given),
    ensures
        kind@ == content_type(path@),
        match read {
            Ok(bytes) => {
                &&& given.0.status == 200
                &&& given.0.body@ == bytes@
                &&& given.0.content_type matches Some(served) && served@ == kind@
                &&& given.1 is None
            },
            Err(error) => {
                &&& given.0.status == 404
                &&& given.0.body@.len() == 0
                &&& given.0.content_type is None
                &&& given.1 matches Some(report) && report@ == "[shell] 404 "@ + path@ + ": "@
                    + error@
            },
        },
{
}

/// A colour that is written with two digits of either case for each channel is read as those
/// channels, and as opaque.
pub proof fn law_colors_are_read_as_written(
    value: &str,
    r: u8,
    g: u8,
    b: u8,
    digits: Seq<char>,
    color: Option<Color>,
)
    requires
        value@ == seq!['#'] + digits,
        digits.len() == 6,
        ({
            let small = "0123456789abcdef"@;
            let large = "0123456789ABCDEF"@;
            &&& digits[0] == small[r as int / 16] || digits[0] == large[r as int / 16]
            &&& digits[1] == small[r as int % 16] || digits[1] == large[r as int % 16]
            &&& digits[2] == small[g as int / 16] || digits[2] == large[g as int / 16]
            &&& digits[3] == small[g as int % 16] || digits[3] == large[g as int % 16]
            &&& digits[4] == small[b as int / 16] || digits[4] == large[b as int / 16]
            &&& digits[5] == small[b as int % 16] || digits[5] == large[b as int % 16]
        }),
        call_ensures(parse_hex_color, (value,), color),
    ensures
        color == Some(Color(r, g, b, 255)),
{
    crate::laws::law_a_written_color_reads_back(r, g, b, digits);
}

/// The short form of a colour is read as the long form that has each digit twice.
pub proof fn law_short_and_long_forms_are_read_alike(
    short: &str,
    long: &str,
    x: char,
    y: char,
    z: char,
    from_short: Option<Color>,
    from_long: Option<Color>,
)
    requires
        short@ == seq!['#', x, y, z],
        long@ == seq!['#', x, x, y, y, z, z],
        call_ensures(parse_hex_color, (short,), from_short),
        call_ensures(parse_hex_color, (long,), from_long),
    ensures
        from_short == from_long,
{
    crate::color::law_short_form_doubles_digits(x, y, z);
}

/// A value is read as a colour exactly if it is a hash sign and three or six hexadecimal digits.
pub proof fn law_nothing_else_is_a_color(value: &str, color: Option<Color>)
    requires
        call_ensures(parse_hex_color, (value,), color),
    ensures
        color is Some <==> {
            &&& value@.len() == 4 || value@.len() == 7
            &&& value@[0] == '#'
            &&& forall|i: int|
                1 <= i < value@.len() ==> ("0123456789abcdef"@.contains(#[trigger] value@[i])
                    || "0123456789ABCDEF"@.contains(value@[i]))
        },
{
    crate::laws::law_anything_else_is_no_color(value@);
}

/// The scheme is what is configured, without the whitespace around it, exactly where that is
/// legal; otherwise it is `app`. What is neither legal nor empty is reported, and nothing else.
pub proof fn law_the_scheme_is_what_is_configured(
    configured: &str,
    before: Seq<char>,
    text: Seq<char>,
    after: Seq<char>,
    chosen: (String, Option<String>),
)
    requires
        configured@ == before + text + after,
        forall|i: int| 0 <= i < before.len() ==> is_white_space(#[trigger] before[i]),
        forall|i: int| 0 <= i < after.len() ==> is_white_space(#[trigger] after[i]),
        text.len() > 0 ==> !is_white_space(text[0]) && !is_white_space(text.last()),
        call_ensures(scheme, (Some(configured),), chosen),
    ensures
        if text.len() > 0 && ('a' <= text[0] <= 'z' || 'A' <= text[0] <= 'Z') && forall|i: int|
            0 <= i < text.len() ==> ('a' <= #[trigger] text[i] <= 'z' || 'A' <= text[i] <= 'Z'
                || '0' <= text[i] <= '9' || text[i] == '+' || text[i] == '-' || text[i] == '.') {
            chosen.0@ == text && chosen.1 is None
        } else if text.len() == 0 {
            chosen.0@ == "app"@ && chosen.1 is None
        } else {
            chosen.0@ == "app"@ && (chosen.1 matches Some(report) && report@
                == "[shell] ignoring unusable TAURI_SHELL_SCHEME '"@ + text + "'; using 'app'"@)
        },
{
    crate::laws::law_trimming_takes_away_what_surrounds(before, text, after);
    crate::laws::law_a_legal_scheme_is_taken_and_no_other(before, text, after);
    if crate::config::legal_scheme(text) {
        assert forall|i: int| 0 <= i < text.len() implies ('a' <= #[trigger] text[i] <= 'z' || 'A'
            <= text[i] <= 'Z' || '0' <= text[i] <= '9' || text[i] == '+' || text[i] == '-'
            || text[i] == '.') by {
            assert(crate::config::is_scheme_char(text[i]));
        }
    }
}

/// What is configured is taken as it is, whatever it holds; what is not has its default.
pub proof fn law_configured_values_are_taken(
    configured: Option<String>,
    dir: String,
    name: String,
    unset: (String, Option<String>),
)
    requires
        call_ensures(frontend_dir, (configured,), dir),
        call_ensures(app_name, (configured,), name),
        call_ensures(scheme, (None::<&str>,), unset),
    ensures
        configured matches Some(text) ==> dir@ == text@ && name@ == text@,
        configured is None ==> dir@ == "dist/renderer"@ && name@ == "Tauri Shell"@,
        unset.0@ == "app"@ && unset.1 is None,
{
}

/// The address of a page, and the line that says what is served, hold what they are given.
pub proof fn law_addresses_hold_what_they_are_given(
    under: &str,
    url: &str,
    dir: &str,
    address: String,
    line: String,
)
    requires
        call_ensures(page_url, (under, url), address),
        call_ensures(serving_line, (under, dir), line),
    ensures
        address@ == under@ + "://localhost/"@ + url@,
        line@ == "[shell] serving "@ + under@ + "://localhost/ from "@ + dir@,
{
}

/// The label of a window holds its number, and two windows have the same label only if they
/// are the same window.
pub proof fn law_labels_tell_windows_apart(a: u64, b: u64, label_a: String, label_b: String)
    requires
        call_ensures(window_label, (a,), label_a),
        call_ensures(window_label, (b,), label_b),
    ensures
        label_a@ == "win-"@ + decimal(a as nat),
        label_a@ == label_b@ <==> a == b,
{
    if label_a@ == label_b@ {
        crate::window::law_labels_are_distinct(a, b);
    }
}

/// The sidecar is told of each event by its name, in a line that holds the window's number and
/// that name as they are.
pub proof fn law_the_sidecar_is_told_by_name(
    win_id: u64,
    event: WindowEvent,
    name: &str,
    line: String,
    called: Option<&'static str>,
    told: Option<String>,
)
    requires
        call_ensures(window_event_line, (win_id, name), line),
        call_ensures(event_name, (&event,), called),
        call_ensures(tell_sidecar, (win_id, &event), told),
    ensures
        line@ == "{\"op\":\"window-event\",\"winId\":"@ + decimal(win_id as nat)
            + ",\"event\":\""@ + name@ + "\"}\n"@,
        called matches Some(c) ==> c@ == name@ ==> (told matches Some(t) && t@ == line@),
        called is None <==> told is None,
        match event {
            WindowEvent::CloseRequested => called matches Some(c) && c@ == "close-requested"@,
            WindowEvent::Destroyed => called matches Some(c) && c@ == "closed"@,
            WindowEvent::Focused(focused) => called matches Some(c) && c@ == (if focused {
                "focus"@
            } else {
                "blur"@
            }),
            WindowEvent::Other => called is None,
        },
{
}

/// A window that is opened is what was asked for, each part for itself and with its own
/// default, at the address that was parsed; and one that is not is reported.
pub proof fn law_a_window_opens_as_it_was_asked_for<N>(
    request: WindowRequest<N>,
    parsed: Result<String, String>,
    opened: Result<WindowPlan<N>, String>,
)
    requires
        call_ensures(window_plan::<N>, (request, parsed), opened),
    ensures
        parsed matches Err(error) ==> (opened matches Err(report) && report@ == "[shell] window "@
            + decimal(request.win_id as nat) + " has an unusable url '"@ + request.url@ + "': "@
            + error@),
        parsed matches Ok(address) ==> (opened matches Ok(plan) && {
            &&& plan.label@ == "win-"@ + decimal(request.win_id as nat)
            &&& plan.url@ == address@
            &&& forall|w: N| request.width == Some(w) ==> plan.width == Extent::Asked(w)
            &&& request.width is None ==> plan.width == Extent::<N>::Pixels(1200)
            &&& forall|h: N| request.height == Some(h) ==> plan.height == Extent::Asked(h)
            &&& request.height is None ==> plan.height == Extent::<N>::Pixels(800)
            &&& forall|t: String| request.title == Some(t) ==> plan.title@ == #[trigger] t@
            &&& request.title is None ==> plan.title@ == "App"@
            &&& forall|w: N, h: N|
                request.min_width == Some(w) && request.min_height == Some(h) ==> plan.min_size
                    == Some((w, h))
            &&& request.min_width is None || request.min_height is None ==> plan.min_size is None
            &&& forall|v: String|
                request.background_color == Some(v) ==> plan.background == hex_color(
                    #[trigger] v@,
                )
            &&& request.background_color is None ==> plan.background is None
            &&& plan.visible
        }),
{
}

/// A request opens the window that is planned for it at the address that the url crate makes of
/// the scheme, `://localhost/` and the request's own url, and it is reported where the crate
/// makes none.
pub proof fn law_a_window_opens_where_it_was_asked_to<N>(
    under: &str,
    request: WindowRequest<N>,
    parsed: Result<String, String>,
    planned: Result<WindowPlan<N>, String>,
    opened: Result<WindowPlan<N>, String>,
)
    requires
        match parsed_url(under@ + "://localhost/"@ + request.url@) {
            Ok(address) => parsed matches Ok(text) && text@ == address,
            Err(error) => parsed matches Err(text) && text@ == error,
        },
        call_ensures(window_plan::<N>, (request, parsed), planned),
        call_ensures(create_window::<N>, (under, request), opened),
    ensures
        match planned {
            Ok(plan) => opened matches Ok(same) && {
                &&& same.label@ == plan.label@
                &&& same.url@ == plan.url@
                &&& same.title@ == plan.title@
                &&& same.width == plan.width
                &&& same.height == plan.height
                &&& same.min_size == plan.min_size
                &&& same.background == plan.background
                &&& same.visible == plan.visible
            },
            Err(report) => opened matches Err(same) && same@ == report@,
        },
{
}

/// Two requests that differ only in one length, or in whether to show the window, open the same
/// window but for that length.
pub proof fn law_other_parts_do_not_matter<N>(
    under: &str,
    request: WindowRequest<N>,
    width: Option<N>,
    show: Option<bool>,
    first: Result<WindowPlan<N>, String>,
    second: Result<WindowPlan<N>, String>,
)
    requires
        call_ensures(create_window::<N>, (under, request), first),
        call_ensures(create_window::<N>, (under, WindowRequest { width, show, ..request }), second),
    ensures
        first is Ok <==> second is Ok,
        first matches Ok(a) ==> second matches Ok(b) ==> {
            &&& a.label@ == b.label@
            &&& a.url@ == b.url@
            &&& a.title@ == b.title@
            &&& a.height == b.height
            &&& a.min_size == b.min_size
            &&& a.background == b.background
            &&& a.visible && b.visible
            &&& forall|w: N| width == Some(w) ==> b.width == Extent::Asked(w)
            &&& width is None ==> b.width == Extent::<N>::Pixels(1200)
        },
{
}

/// An action that the sidecar sends for a window is applied to that window, as it was sent:
/// each of the six names performs its own command, and any other text is reported. Nothing
/// happens to a window that is not open.
pub proof fn law_an_action_is_performed_as_sent<N>(
    win_id: u64,
    action: String,
    task: Task<N>,
    open: bool,
    sent: &str,
    operation: Operation,
)
    requires
        call_ensures(
            handle_sidecar_message::<N>,
            (SidecarMessage::Window { win_id, action },),
            task,
        ),
        call_ensures(operate_window, (open, sent), operation),
    ensures
        task matches Task::OperateWindow { label, action: carried } && label@ == "win-"@ + decimal(
            win_id as nat,
        ) && carried@ == action@,
        !open ==> operation is Skip,
        open && sent@ == action@ ==> {
            &&& action@ == "show"@ ==> operation == Operation::Perform(WindowCommand::Show)
            &&& action@ == "hide"@ ==> operation == Operation::Perform(WindowCommand::Hide)
            &&& action@ == "focus"@ ==> operation == Operation::Perform(WindowCommand::SetFocus)
            &&& action@ == "close"@ ==> operation == Operation::Perform(WindowCommand::Destroy)
            &&& action@ == "maximize"@ ==> operation == Operation::Perform(WindowCommand::Maximize)
            &&& action@ == "minimize"@ ==> operation == Operation::Perform(WindowCommand::Minimize)
            &&& action@ != "show"@ && action@ != "hide"@ && action@ != "focus"@ && action@
                != "close"@ && action@ != "maximize"@ && action@ != "minimize"@ ==> (operation
                matches Operation::Report(report) && report@ == "[shell] unknown window action '"@
                + action@ + "'"@)
        },
{
}

/// A request for a window is handed on as it was sent.
pub proof fn law_a_request_is_handed_on<N>(request: WindowRequest<N>, task: Task<N>)
    requires
        call_ensures(
            handle_sidecar_message::<N>,
            (SidecarMessage::CreateWindow(request),),
            task,
        ),
    ensures
        task == Task::CreateWindow(request),
{
}

/// A failure is reported with what failed and why.
pub proof fn law_failures_are_reported_whole(
    win_id: u64,
    action: &str,
    error: &str,
    create: String,
    apply: String,
)
    requires
        call_ensures(create_failed_line, (win_id, error), create),
        call_ensures(action_failed_line, (action, error), apply),
    ensures
        create@ == "[shell] failed to create window "@ + decimal(win_id as nat) + ": "@ + error@,
        apply@ == "[shell] window action '"@ + action@ + "' failed: "@ + error@,
{
}

/// A line loses its line break and nothing else.
pub proof fn law_a_line_keeps_its_content(raw: Vec<u8>, content: Vec<u8>, line: Seq<u8>)
    requires
        call_ensures(line_content, (raw,), content),
    ensures
        raw@ == line && (line.len() == 0 || line.last() != 10) ==> content@ == line,
        raw@ == line.push(10) && (line.len() == 0 || line.last() != 13) ==> content@ == line,
        raw@ == line + seq![13u8, 10u8] ==> content@ == line,
{
    crate::laws::law_only_the_line_break_is_taken_off(line);
}

/// What the sidecar writes after the prefix is what is decoded, and what it writes without the
/// prefix is what is printed: all of it, whatever its length.
pub proof fn law_a_written_line_is_acted_on(
    raw: Vec<u8>,
    text: Seq<char>,
    reading: Reading,
    next: Next,
)
    requires
        call_ensures(reading_of, (raw,), reading),
        call_ensures(on_reading, (reading,), next),
    ensures
        ({
            let line = encode_utf8("@tauri-shell "@ + text);
            ||| raw@ == line && line.last() != 10
            ||| raw@ == line.push(10) && line.last() != 13
            ||| raw@ == line + seq![13u8, 10u8]
        }) ==> (next matches Next::Act(action) && action matches LineAction::Decode(payload)
            && payload@ == text),
        !"@tauri-shell "@.is_prefix_of(text) && ({
            let line = encode_utf8(text);
            ||| raw@ == line && (line.len() == 0 || line.last() != 10)
            ||| raw@ == line.push(10) && (line.len() == 0 || line.last() != 13)
            ||| raw@ == line + seq![13u8, 10u8]
        }) ==> (next matches Next::Act(action) && action matches LineAction::Print(shown) && shown@
            == "[sidecar] "@ + text),
{
    let mark = "@tauri-shell "@;
    crate::laws::law_a_written_text_is_read(mark + text);
    crate::laws::law_a_written_text_is_read(text);
    crate::laws::law_what_is_done_about_a_reading(text);
}

/// A line that is no UTF-8 is shown as the lossy reading of its content, without its line break.
pub proof fn law_a_line_that_is_no_text_is_shown(
    raw: Vec<u8>,
    line: Seq<u8>,
    reading: Reading,
    next: Next,
)
    requires
        !valid_utf8(line),
        ({
            ||| raw@ == line && line.last() != 10
            ||| raw@ == line.push(10) && line.last() != 13
            ||| raw@ == line + seq![13u8, 10u8]
        }),
        call_ensures(reading_of, (raw,), reading),
        call_ensures(on_reading, (reading,), next),
    ensures
        next matches Next::Act(action) && action matches LineAction::Print(shown) && shown@
            == "[sidecar] "@ + lossy_text(line),
{
    crate::laws::law_only_the_line_break_is_taken_off(line);
    assert(line.len() > 0);
}

/// Output that is not text is printed, and only output that is closed ends the reading.
pub proof fn law_only_the_end_ends_the_reading(reading: Reading, next: Next)
    requires
        call_ensures(on_reading, (reading,), next),
    ensures
        next is Finish <==> reading is Closed,
        reading matches Reading::NotText(shown) ==> (next matches Next::Act(action) && action
            matches LineAction::Print(text) && text@ == "[sidecar] "@ + shown@),
{
}

/// A line of text is read alike by itself and as a reading.
pub proof fn law_a_line_is_read_alike(line: String, text: &str, action: LineAction, next: Next)
    requires
        text@ == line@,
        call_ensures(read_line, (text,), action),
        call_ensures(on_reading, (Reading::Text(line),), next),
    ensures
        match action {
            LineAction::Decode(payload) => line@ == "@tauri-shell "@ + payload@ && (next
                matches Next::Act(done) && done matches LineAction::Decode(same) && same@
                == payload@),
            LineAction::Print(shown) => !"@tauri-shell "@.is_prefix_of(line@) && shown@
                == "[sidecar] "@ + line@ && (next matches Next::Act(done) && done
                matches LineAction::Print(same) && same@ == shown@),
        },
{
    let mark = "@tauri-shell "@;
    if let LineAction::Decode(payload) = action {
        assert(mark =~= (mark + payload@).subrange(0, mark.len() as int));
    }
}

/// The shell complains of silence exactly where no window was asked for, and turns requests to
/// end down exactly while the sidecar is alive; a shell that was just started does both.
pub proof fn law_what_the_shell_says(
    shell: Shell,
    fresh: Shell,
    report: Option<String>,
    prevented: bool,
)
    requires
        call_ensures(Shell::new, (), fresh),
        call_ensures(Shell::on_grace_elapsed, (&shell,), report),
        call_ensures(Shell::prevents_exit, (&shell,), prevented),
    ensures
        !fresh.asked_for_a_window && fresh.sidecar_alive,
        report is None <==> shell.asked_for_a_window,
        report matches Some(text) ==> text@
            == "[shell] the sidecar has not asked for a window in 15s. It may not have recognised this shell: it looks for TAURI_SHELL=1 in its environment and for protocol lines prefixed '@tauri-shell '."@,
        prevented == shell.sidecar_alive,
{
}

/// A message is carried out as it was decoded. A request for a window ends the complaint of
/// silence for good; nothing else does, and no message lets the shell end.
pub proof fn law_a_message_takes_effect<N>(
    shell: &mut Shell,
    payload: &str,
    decoded: Result<SidecarMessage<N>, String>,
    task: Task<N>,
    after: Shell,
    report: Option<String>,
    prevented: bool,
)
    requires
        call_ensures(Shell::on_message::<N>, (shell, payload, decoded), task),
        after == *final(shell),
        call_ensures(Shell::on_grace_elapsed, (&after,), report),
        call_ensures(Shell::prevents_exit, (&after,), prevented),
    ensures
        report is None <==> old(shell).asked_for_a_window || (decoded matches Ok(message) && message
            is CreateWindow),
        prevented == old(shell).sidecar_alive,
        match decoded {
            Ok(SidecarMessage::CreateWindow(request)) => task == Task::CreateWindow(request),
            Ok(SidecarMessage::Window { win_id, action }) => task matches Task::OperateWindow {
                label,
                action: carried,
            } && label@ == "win-"@ + decimal(win_id as nat) && carried@ == action@,
            Err(error) => task matches Task::Report(text) && text@
                == "[shell] bad sidecar message: "@ + error@ + ": "@ + payload@,
        },
{
}

/// Once the sidecar's output is closed the shell ends, with success, and no longer turns
/// requests to end down; whether a window was asked for stays as it was.
pub proof fn law_the_end_of_the_output_ends_the_shell(
    shell: &mut Shell,
    shut_down: ShutDown,
    after: Shell,
    report: Option<String>,
    prevented: bool,
)
    requires
        call_ensures(Shell::on_stdout_closed, (shell,), shut_down),
        after == *final(shell),
        call_ensures(Shell::on_grace_elapsed, (&after,), report),
        call_ensures(Shell::prevents_exit, (&after,), prevented),
    ensures
        shut_down.code == 0,
        shut_down.report@ == "[shell] sidecar exited; shutting down"@,
        !prevented,
        report is None <==> old(shell).asked_for_a_window,
{
}

/// The sidecar is launched from its entry point, by the configured program or by `node`, and
/// finds `TAURI_SHELL=1` in its environment.
pub proof fn law_the_launch_is_as_configured<P>(
    node: Option<String>,
    entry: P,
    launch: Launch<P>,
)
    requires
        call_ensures(sidecar_launch::<P>, (node, entry), launch),
    ensures
        launch.entry == entry,
        launch.variable@ == "TAURI_SHELL"@ && launch.value@ == "1"@,
        node matches Some(program) ==> launch.program@ == program@,
        node is None ==> launch.program@ == "node"@,
{
}

/// The build is three levels above the executable.
pub proof fn law_the_build_is_three_levels_up<P>(ancestors: Vec<P>, root: Option<&P>)
    requires
        call_ensures(build_root::<P>, (&ancestors,), root),
    ensures
        ancestors@.len() > 3 ==> root == Some(&ancestors@[3]),
        ancestors@.len() <= 3 ==> root is None,
{
}

/// An explicit entry point is used as it is. Otherwise the search begins with the path from the
/// working directory.
pub proof fn law_the_search_begins<P>(
    explicit: Option<P>,
    from_cwd: P,
    from_exe: Option<P>,
    step: EntryStep<P>,
)
    requires
        call_ensures(sidecar_entry::<P>, (explicit, from_cwd, from_exe), step),
    ensures
        explicit matches Some(path) ==> step == EntryStep::Use(path),
        explicit is None ==> step is Probe,
{
}

/// The search, from beginning to end, where there is a path from the executable: the path from
/// the working directory is probed and used if it exists; else the path from the executable is
/// probed and used if it exists; else both are said to be missing, in that order.
pub proof fn law_the_search_tries_both_in_order<P>(
    from_cwd: P,
    from_exe: P,
    first: EntrySearch<P>,
    first_path: &P,
    first_exists: bool,
    after_first: EntryStep<P>,
    second: EntrySearch<P>,
    second_path: &P,
    second_exists: bool,
    after_second: EntryStep<P>,
)
    requires
        call_ensures(
            sidecar_entry::<P>,
            (None::<P>, from_cwd, Some(from_exe)),
            EntryStep::Probe(first),
        ),
        call_ensures(EntrySearch::<P>::candidate, (&first,), first_path),
        call_ensures(EntrySearch::<P>::answer, (first, first_exists), after_first),
        call_ensures(EntrySearch::<P>::candidate, (&second,), second_path),
        call_ensures(EntrySearch::<P>::answer, (second, second_exists), after_second),
    ensures
        *first_path == from_cwd,
        first_exists ==> after_first == EntryStep::Use(from_cwd),
        !first_exists ==> after_first is Probe,
        after_first == EntryStep::Probe(second) ==> {
            &&& *second_path == from_exe
            &&& second_exists ==> after_second == EntryStep::Use(from_exe)
            &&& !second_exists ==> (after_second matches EntryStep::Missing(tried) && tried@
                == seq![from_cwd, from_exe])
        },
{
}

/// The search where there is no path from the executable: only the path from the working
/// directory is probed.
pub proof fn law_the_search_tries_one<P>(
    from_cwd: P,
    search: EntrySearch<P>,
    path: &P,
    present: bool,
    after: EntryStep<P>,
)
    requires
        call_ensures(
            sidecar_entry::<P>,
            (None::<P>, from_cwd, None::<P>),
            EntryStep::Probe(search),
        ),
        call_ensures(EntrySearch::<P>::candidate, (&search,), path),
        call_ensures(EntrySearch::<P>::answer, (search, present), after),
    ensures
        *path == from_cwd,
        present ==> after == EntryStep::Use(from_cwd),
        !present ==> (after matches EntryStep::Missing(tried) && tried@ == seq![from_cwd]),
{
}

/// Where no entry point exists, every path that was tried is named, in order.
pub proof fn law_every_path_tried_is_named(tried: Vec<String>, message: String)
    requires
        call_ensures(missing_entry_message, (&tried,), message),
    ensures
        message@ == "no dist/sidecar/index.js (tried "@ + joined(
            tried@.map_values(|path: String| path@),
            ", "@,
        )
            + ") — run `pnpm build && pnpm build:tauri`, or point TAURI_SHELL_SIDECAR_ENTRY at it"@,
{
}

} // verus!
