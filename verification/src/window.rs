//! Windows: their labels, what the sidecar is told about them, how a requested window is
//! opened, and what can be done with an open one.

use vstd::prelude::*;

use crate::address::{
    is_page_address, is_plain, keeps_host, origin, page_part, parse_url, parsed_url, scheme_of,
};
use crate::color::{hex_color, parse_hex_color, Color};
use crate::config::{legal_scheme, page_url, page_url_text};
use crate::frontend::{requested, resource};
use crate::text::{concat4, decimal, decimal_text, first_of, is_digit, same_text};

verus! {

/// The label of the window with the given id.
pub open spec fn label(win_id: u64) -> Seq<char> {
    "win-"@ + decimal(win_id as nat)
}

/// The label under which the window with the given id is kept.
pub fn window_label(win_id: u64) -> (text: String)
    ensures
        text@ == label(win_id),
        text@ == "win-"@ + decimal(win_id as nat),
{
    let mut text = "win-".to_owned();
    text.append(decimal_text(win_id).as_str());
    text
}

/// Distinct windows have distinct labels.
pub proof fn law_labels_are_distinct(a: u64, b: u64)
    requires
        label(a) == label(b),
    ensures
        a == b,
{
    assert(label(a).skip("win-"@.len() as int) =~= decimal(a as nat));
    assert(label(b).skip("win-"@.len() as int) =~= decimal(b as nat));
    crate::text::lemma_decimal(a as nat);
    crate::text::lemma_decimal(b as nat);
}

/// What happens to a window.
pub enum WindowEvent {
    CloseRequested,
    Destroyed,
    Focused(bool),
    /// Anything that the sidecar is not told about.
    Other,
}

/// The name under which the sidecar is told of an event, if it is told at all.
pub open spec fn name_of_event(event: WindowEvent) -> Option<Seq<char>> {
    match event {
        WindowEvent::CloseRequested => Some("close-requested"@),
        WindowEvent::Destroyed => Some("closed"@),
        WindowEvent::Focused(true) => Some("focus"@),
        WindowEvent::Focused(false) => Some("blur"@),
        WindowEvent::Other => None,
    }
}

/// The line that tells the sidecar of an event, given the event's name.
pub open spec fn event_line(win_id: u64, event: Seq<char>) -> Seq<char> {
    "{\"op\":\"window-event\",\"winId\":"@ + decimal(win_id as nat) + ",\"event\":\""@ + event
        + "\"}\n"@
}

/// The name under which the sidecar is told of an event, if it is told at all.
pub fn event_name(event: &WindowEvent) -> (name: Option<&'static str>)
    ensures
        match name {
            Some(name) => name_of_event(*event) == Some(name@),
            None => name_of_event(*event) is None,
        },
        match event {
            WindowEvent::CloseRequested => name matches Some(n) && n@ == "close-requested"@,
            WindowEvent::Destroyed => name matches Some(n) && n@ == "closed"@,
            WindowEvent::Focused(true) => name matches Some(n) && n@ == "focus"@,
            WindowEvent::Focused(false) => name matches Some(n) && n@ == "blur"@,
            WindowEvent::Other => name is None,
        },
{
    match event {
        WindowEvent::CloseRequested => Some("close-requested"),
        WindowEvent::Destroyed => Some("closed"),
        WindowEvent::Focused(focused) => if *focused {
            Some("focus")
        } else {
            Some("blur")
        },
        WindowEvent::Other => None,
    }
}

/// The line that tells the sidecar that the event named `event` happened to a window.
pub fn window_event_line(win_id: u64, event: &str) -> (line: String)
    ensures
        line@ == event_line(win_id, event@),
        line@ == "{\"op\":\"window-event\",\"winId\":"@ + decimal(win_id as nat)
            + ",\"event\":\""@ + event@ + "\"}\n"@,
{
    let id = decimal_text(win_id);
    let mut line = concat4(
        "{\"op\":\"window-event\",\"winId\":",
        id.as_str(),
        ",\"event\":\"",
        event,
    );
    line.append("\"}\n");
    line
}

/// What the sidecar is sent when an event happens to a window: one line, or nothing.
pub fn tell_sidecar(win_id: u64, event: &WindowEvent) -> (line: Option<String>)
    ensures
        match line {
            Some(line) => name_of_event(*event) matches Some(name) && line@ == event_line(
                win_id,
                name,
            ),
            None => name_of_event(*event) is None,
        },
        match event {
            WindowEvent::CloseRequested => line matches Some(line) && line@
                == "{\"op\":\"window-event\",\"winId\":"@ + decimal(win_id as nat)
                + ",\"event\":\"close-requested\"}\n"@,
            WindowEvent::Destroyed => line matches Some(line) && line@
                == "{\"op\":\"window-event\",\"winId\":"@ + decimal(win_id as nat)
                + ",\"event\":\"closed\"}\n"@,
            WindowEvent::Focused(true) => line matches Some(line) && line@
                == "{\"op\":\"window-event\",\"winId\":"@ + decimal(win_id as nat)
                + ",\"event\":\"focus\"}\n"@,
            WindowEvent::Focused(false) => line matches Some(line) && line@
                == "{\"op\":\"window-event\",\"winId\":"@ + decimal(win_id as nat)
                + ",\"event\":\"blur\"}\n"@,
            WindowEvent::Other => line is None,
        },
{
    proof {
        crate::laws::law_the_sidecar_is_told_what_happened(win_id, *event);
    }
    match event_name(event) {
        Some(name) => Some(window_event_line(win_id, name)),
        None => None,
    }
}

/// The sidecar can tell the events that it is told of apart by their names.
pub proof fn law_event_names_are_distinct(a: WindowEvent, b: WindowEvent)
    requires
        name_of_event(a) is Some,
        name_of_event(a) == name_of_event(b),
    ensures
        a == b,
{
    reveal_strlit("close-requested");
    reveal_strlit("closed");
    reveal_strlit("focus");
    reveal_strlit("blur");
    assert("close-requested"@.len() == 15);
    assert("closed"@.len() == 6);
    assert("focus"@.len() == 5);
    assert("blur"@.len() == 4);
}

/// The line tells the window and the event apart from every other window and event.
pub proof fn law_event_lines_are_distinct(a: u64, event_a: Seq<char>, b: u64, event_b: Seq<char>)
    requires
        event_line(a, event_a) == event_line(b, event_b),
    ensures
        a == b,
        event_a == event_b,
{
    reveal_strlit("{\"op\":\"window-event\",\"winId\":");
    reveal_strlit(",\"event\":\"");
    reveal_strlit("\"}\n");
    let head = "{\"op\":\"window-event\",\"winId\":"@;
    let middle = ",\"event\":\""@;
    let x = event_line(a, event_a);
    let y = event_line(b, event_b);
    let da = decimal(a as nat);
    let db = decimal(b as nat);
    crate::text::lemma_decimal(a as nat);
    crate::text::lemma_decimal(b as nat);
    let h = head.len() as int;
    assert forall|i: int| 0 <= i < da.len() implies x[h + i] == da[i] by {}
    assert forall|i: int| 0 <= i < db.len() implies y[h + i] == db[i] by {}
    assert(x[h + da.len()] == middle[0]);
    assert(y[h + db.len()] == middle[0]);
    if da.len() < db.len() {
        assert(is_digit(db[da.len() as int]));
        assert(y[h + da.len()] == db[da.len() as int]);
    } else if db.len() < da.len() {
        assert(is_digit(da[db.len() as int]));
        assert(x[h + db.len()] == da[db.len() as int]);
    }
    assert(da.len() == db.len());
    assert(da =~= db) by {
        assert forall|i: int| 0 <= i < da.len() implies da[i] == db[i] by {
            assert(x[h + i] == da[i]);
            assert(y[h + i] == db[i]);
        }
    }
    let start = h + da.len() + middle.len();
    assert(x.len() == start + event_a.len() + 3);
    assert(y.len() == start + event_b.len() + 3);
    assert(event_a =~= event_b) by {
        assert forall|i: int| 0 <= i < event_a.len() implies event_a[i] == event_b[i] by {
            assert(x[start + i] == event_a[i]);
            assert(y[start + i] == event_b[i]);
        }
    }
}

/// What the sidecar is told is a single line: a line break ends it and stands nowhere else
/// in it.
pub proof fn law_event_is_told_in_one_line(win_id: u64, event: WindowEvent)
    requires
        name_of_event(event) is Some,
    ensures
        ({
            let line = event_line(win_id, name_of_event(event)->0);
            &&& line.len() > 0
            &&& line.last() == '\n'
            &&& !line.drop_last().contains('\n')
        }),
{
    reveal_strlit("{\"op\":\"window-event\",\"winId\":");
    reveal_strlit(",\"event\":\"");
    reveal_strlit("\"}\n");
    reveal_strlit("close-requested");
    reveal_strlit("closed");
    reveal_strlit("focus");
    reveal_strlit("blur");
    let name = name_of_event(event)->0;
    let line = event_line(win_id, name);
    let head = "{\"op\":\"window-event\",\"winId\":"@;
    let middle = ",\"event\":\""@;
    let d = decimal(win_id as nat);
    crate::text::lemma_decimal(win_id as nat);
    assert(forall|i: int| 0 <= i < head.len() ==> head[i] != '\n');
    assert(forall|i: int| 0 <= i < middle.len() ==> middle[i] != '\n');
    assert(forall|i: int| 0 <= i < name.len() ==> name[i] != '\n');
    assert forall|i: int| 0 <= i < line.len() - 1 implies line[i] != '\n' by {
        let p = head.len() as int;
        let q = p + d.len();
        let r = q + middle.len();
        let t = r + name.len();
        if i < p {
            assert(line[i] == head[i]);
        } else if i < q {
            assert(line[i] == d[i - p]);
            assert(is_digit(d[i - p]));
        } else if i < r {
            assert(line[i] == middle[i - q]);
        } else if i < t {
            assert(line[i] == name[i - r]);
        } else {
            assert(line[i] == "\"}\n"@[i - t]);
        }
    }
}

/// A window as the sidecar asks for it. `N` is the type of the lengths.
pub struct WindowRequest<N> {
    pub win_id: u64,
    pub url: String,
    pub width: Option<N>,
    pub height: Option<N>,
    pub min_width: Option<N>,
    pub min_height: Option<N>,
    pub title: Option<String>,
    pub show: Option<bool>,
    pub background_color: Option<String>,
}

/// A length of a window: the one that was asked for, or a number of logical pixels.
pub enum Extent<N> {
    Asked(N),
    Pixels(u32),
}

/// A window as it is opened.
pub struct WindowPlan<N> {
    pub label: String,
    pub url: String,
    pub title: String,
    pub width: Extent<N>,
    pub height: Extent<N>,
    pub visible: bool,
    pub background: Option<Color>,
    pub min_size: Option<(N, N)>,
}

/// The length that was asked for, or else the given number of pixels.
pub open spec fn extent_or<N>(asked: Option<N>, pixels: u32) -> Extent<N> {
    match asked {
        Some(length) => Extent::Asked(length),
        None => Extent::Pixels(pixels),
    }
}

/// Whether `plan` opens what `request` asks for, at the parsed address `address`.
///
/// The window is born visible whatever the request says of showing it, and a least size
/// is set only where both of its lengths are given.
pub open spec fn plans<N>(plan: WindowPlan<N>, request: WindowRequest<N>, address: Seq<char>) -> bool {
    &&& plan.label@ == label(request.win_id)
    &&& plan.url@ == address
    &&& plan.title@ == (match request.title {
        Some(title) => title@,
        None => "App"@,
    })
    &&& plan.width == extent_or(request.width, 1200)
    &&& plan.height == extent_or(request.height, 800)
    &&& plan.visible
    &&& plan.background == (match request.background_color {
        Some(value) => hex_color(value@),
        None => None,
    })
    &&& plan.min_size == (match (request.min_width, request.min_height) {
        (Some(width), Some(height)) => Some((width, height)),
        _ => None,
    })
}

/// The report for the log where the address of a window cannot be parsed.
pub open spec fn unusable_url_report(win_id: u64, url: Seq<char>, error: Seq<char>) -> Seq<char> {
    "[shell] window "@ + decimal(win_id as nat) + " has an unusable url '"@ + url + "': "@ + error
}

fn extent<N>(asked: Option<N>, pixels: u32) -> (length: Extent<N>)
    ensures
        length == extent_or(asked, pixels),
{
    match asked {
        Some(length) => Extent::Asked(length),
        None => Extent::Pixels(pixels),
    }
}

/// How a requested window is opened, once its address has been parsed: at the URL in
/// `parsed`, or not at all, with a report for the log.
pub fn window_plan<N>(request: WindowRequest<N>, parsed: Result<String, String>) -> (plan: Result<
    WindowPlan<N>,
    String,
>)
    ensures
        match parsed {
            Ok(address) => plan matches Ok(plan) && plans(plan, request, address@),
            Err(error) => plan matches Err(report) && report@ == unusable_url_report(
                request.win_id,
                request.url@,
                error@,
            ),
        },
        plan matches Ok(plan) ==> {
            &&& plan.label@ == "win-"@ + decimal(request.win_id as nat)
            &&& forall|w: N| request.width == Some(w) ==> plan.width == Extent::Asked(w)
            &&& request.width is None ==> plan.width == Extent::<N>::Pixels(1200)
            &&& forall|h: N| request.height == Some(h) ==> plan.height == Extent::Asked(h)
            &&& request.height is None ==> plan.height == Extent::<N>::Pixels(800)
            &&& plan.title@ == (match request.title {
                Some(title) => title@,
                None => "App"@,
            })
            &&& plan.min_size == (match (request.min_width, request.min_height) {
                (Some(width), Some(height)) => Some((width, height)),
                _ => None,
            })
            &&& plan.background == (match request.background_color {
                Some(value) => hex_color(value@),
                None => None,
            })
            &&& plan.visible
        },
        plan matches Err(report) ==> parsed matches Err(error) && report@ == "[shell] window "@
            + decimal(request.win_id as nat) + " has an unusable url '"@ + request.url@ + "': "@
            + error@,
{
    let url = match parsed {
        Ok(url) => url,
        Err(error) => {
            let id = decimal_text(request.win_id);
            let mut report = concat4(
                "[shell] window ",
                id.as_str(),
                " has an unusable url '",
                request.url.as_str(),
            );
            report.append("': ");
            report.append(error.as_str());
            return Err(report);
        },
    };
    let title = match request.title {
        Some(title) => title,
        None => "App".to_owned(),
    };
    let background = match &request.background_color {
        Some(value) => parse_hex_color(value.as_str()),
        None => None,
    };
    let min_size = match (request.min_width, request.min_height) {
        (Some(width), Some(height)) => Some((width, height)),
        _ => None,
    };
    Ok(
        WindowPlan {
            label: window_label(request.win_id),
            url,
            title,
            width: extent(request.width, 1200),
            height: extent(request.height, 800),
            visible: true,
            background,
            min_size,
        },
    )
}

/// The parts of a page address under a legal scheme.
proof fn lemma_page_address(scheme: Seq<char>, url: Seq<char>)
    requires
        legal_scheme(scheme),
    ensures
        ({
            let text = page_url_text(scheme, url);
            &&& scheme_of(text) == scheme
            &&& page_part(text) == url
            &&& is_page_address(text) == keeps_host(scheme)
        }),
{
    reveal_strlit("://localhost/");
    let text = page_url_text(scheme, url);
    let k = scheme.len() as int;
    assert forall|i: int| 0 <= i < k implies text[i] != ':' by {
        assert(text[i] == scheme[i]);
        assert(crate::config::is_scheme_char(scheme[i]));
    }
    assert(text[k] == "://localhost/"@[0]);
    crate::text::lemma_first_of_is(text, ':', ':', k);
    assert(scheme_of(text) =~= scheme);
    assert("://localhost/"@ =~= text.skip(k).subrange(0, "://localhost/"@.len() as int));
    assert(page_part(text) =~= url);
}

/// The address of a page on the shell's own origin asks for the file that `url` names.
pub proof fn law_opened_page_asks_for_its_file(scheme: Seq<char>, url: Seq<char>)
    requires
        legal_scheme(scheme),
    ensures
        requested(origin(scheme) + url) == resource(url),
{
    crate::address::lemma_lower_is_legal(scheme);
    let small = crate::address::lower(scheme);
    crate::config::law_page_address_asks_for_its_file(small, url);
    assert(origin(scheme) + url =~= page_url_text(small, url));
}

/// How a window that the sidecar asks for is opened, where the frontend is served under
/// `scheme`: its address is `<scheme>://localhost/<url>`, parsed. Where that is no URL,
/// the window is not opened, and a report for the log says so.
///
/// Under a legal scheme other than `file`, every window opens on the shell's own origin,
/// whatever `url` the sidecar sends. Where `url` is plain, the window's address is that
/// origin and `url`, so that the window asks for the very file that `url` names.
pub fn create_window<N>(scheme: &str, request: WindowRequest<N>) -> (plan: Result<
    WindowPlan<N>,
    String,
>)
    ensures
        match parsed_url(page_url_text(scheme@, request.url@)) {
            Ok(address) => plan matches Ok(plan) && plans(plan, request, address),
            Err(error) => plan matches Err(report) && report@ == unusable_url_report(
                request.win_id,
                request.url@,
                error,
            ),
        },
        plan matches Ok(plan) ==> {
            &&& parsed_url(scheme@ + "://localhost/"@ + request.url@) == Ok::<Seq<char>, Seq<char>>(
                plan.url@,
            )
            &&& plan.label@ == "win-"@ + decimal(request.win_id as nat)
            &&& forall|w: N| request.width == Some(w) ==> plan.width == Extent::Asked(w)
            &&& request.width is None ==> plan.width == Extent::<N>::Pixels(1200)
            &&& forall|h: N| request.height == Some(h) ==> plan.height == Extent::Asked(h)
            &&& request.height is None ==> plan.height == Extent::<N>::Pixels(800)
            &&& plan.title@ == (match request.title {
                Some(title) => title@,
                None => "App"@,
            })
            &&& plan.min_size == (match (request.min_width, request.min_height) {
                (Some(width), Some(height)) => Some((width, height)),
                _ => None,
            })
            &&& plan.background == (match request.background_color {
                Some(value) => hex_color(value@),
                None => None,
            })
            &&& plan.visible
        },
        plan matches Err(report) ==> parsed_url(scheme@ + "://localhost/"@ + request.url@)
            matches Err(error) && report@ == "[shell] window "@ + decimal(request.win_id as nat)
            + " has an unusable url '"@ + request.url@ + "': "@ + error,
        plan matches Ok(plan) ==> keeps_host(scheme@) ==> origin(scheme@).is_prefix_of(plan.url@),
        plan matches Ok(plan) ==> keeps_host(scheme@) && is_plain(request.url@) ==> {
            &&& plan.url@ == origin(scheme@) + request.url@
            &&& requested(plan.url@) == resource(request.url@)
        },
{
    let address = page_url(scheme, request.url.as_str());
    let parsed = parse_url(address.as_str());
    proof {
        if legal_scheme(scheme@) {
            lemma_page_address(scheme@, request.url@);
            law_opened_page_asks_for_its_file(scheme@, request.url@);
        }
    }
    window_plan(request, parsed)
}

/// The report for the log where the engine fails to open a window.
pub fn create_failed_line(win_id: u64, error: &str) -> (line: String)
    ensures
        line@ == "[shell] failed to create window "@ + decimal(win_id as nat) + ": "@ + error@,
{
    let id = decimal_text(win_id);
    concat4("[shell] failed to create window ", id.as_str(), ": ", error)
}

/// What can be done with an open window.
#[derive(Clone, Copy, Debug, PartialEq, Eq, Structural)]
pub enum WindowCommand {
    Show,
    Hide,
    SetFocus,
    Destroy,
    Maximize,
    Minimize,
}

/// The command that the sidecar calls by the name `action`.
pub open spec fn command_named(action: Seq<char>) -> Option<WindowCommand> {
    if action == "show"@ {
        Some(WindowCommand::Show)
    } else if action == "hide"@ {
        Some(WindowCommand::Hide)
    } else if action == "focus"@ {
        Some(WindowCommand::SetFocus)
    } else if action == "close"@ {
        Some(WindowCommand::Destroy)
    } else if action == "maximize"@ {
        Some(WindowCommand::Maximize)
    } else if action == "minimize"@ {
        Some(WindowCommand::Minimize)
    } else {
        None
    }
}

/// What becomes of an action on a window.
pub enum Operation {
    /// There is no such window: nothing happens.
    Skip,
    /// Carry the command out.
    Perform(WindowCommand),
    /// The action has no meaning: write the report to the log.
    Report(String),
}

/// What becomes of `action` on a window that is open, or is not.
pub fn operate_window(open: bool, action: &str) -> (operation: Operation)
    ensures
        match operation {
            Operation::Skip => !open,
            Operation::Perform(command) => open && command_named(action@) == Some(command),
            Operation::Report(report) => {
                &&& open
                &&& command_named(action@) is None
                &&& report@ == "[shell] unknown window action '"@ + action@ + "'"@
            },
        },
        open && action@ == "show"@ ==> operation == Operation::Perform(WindowCommand::Show),
        open && action@ == "hide"@ ==> operation == Operation::Perform(WindowCommand::Hide),
        open && action@ == "focus"@ ==> operation == Operation::Perform(WindowCommand::SetFocus),
        open && action@ == "close"@ ==> operation == Operation::Perform(WindowCommand::Destroy),
        open && action@ == "maximize"@ ==> operation == Operation::Perform(WindowCommand::Maximize),
        open && action@ == "minimize"@ ==> operation == Operation::Perform(WindowCommand::Minimize),
        operation is Report <==> open && action@ != "show"@ && action@ != "hide"@ && action@
            != "focus"@ && action@ != "close"@ && action@ != "maximize"@ && action@ != "minimize"@,
{
    proof {
        crate::laws::law_the_six_names_have_their_commands(action@);
    }
    if !open {
        return Operation::Skip;
    }
    if same_text(action, "show") {
        Operation::Perform(WindowCommand::Show)
    } else if same_text(action, "hide") {
        Operation::Perform(WindowCommand::Hide)
    } else if same_text(action, "focus") {
        Operation::Perform(WindowCommand::SetFocus)
    } else if same_text(action, "close") {
        Operation::Perform(WindowCommand::Destroy)
    } else if same_text(action, "maximize") {
        Operation::Perform(WindowCommand::Maximize)
    } else if same_text(action, "minimize") {
        Operation::Perform(WindowCommand::Minimize)
    } else {
        let mut report = "[shell] unknown window action '".to_owned();
        report.append(action);
        report.append("'");
        Operation::Report(report)
    }
}

/// The report for the log where the engine fails to carry an action out.
pub fn action_failed_line(action: &str, error: &str) -> (line: String)
    ensures
        line@ == "[shell] window action '"@ + action@ + "' failed: "@ + error@,
{
    concat4("[shell] window action '", action, "' failed: ", error)
}

/// Each command has one name only.
pub proof fn law_commands_have_one_name(a: Seq<char>, b: Seq<char>)
    requires
        command_named(a) is Some,
        command_named(a) == command_named(b),
    ensures
        a == b,
{
}

/// Whether a request asks to show the window at once changes nothing about how it is opened.
pub proof fn law_window_is_born_visible<N>(
    plan: WindowPlan<N>,
    request: WindowRequest<N>,
    address: Seq<char>,
    show: Option<bool>,
)
    ensures
        plans(plan, request, address) ==> plan.visible,
        plans(plan, request, address) == plans(plan, WindowRequest { show, ..request }, address),
{
}

} // verus!
