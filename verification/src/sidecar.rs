//! The sidecar: how it is found and launched, the lines it writes, and what the shell
//! remembers of it.

use vstd::prelude::*;
use vstd::utf8::{decode_utf8, valid_utf8};

use crate::text::{concat4, decimal, decimal_text, joined, same_text};
use crate::window::{label, window_label, WindowRequest};

verus! {

/// What marks a protocol line on the sidecar's standard output.
pub const PREFIX: &'static str = "@tauri-shell ";

/// How many seconds the sidecar has to ask for its first window before the log says that
/// it has not.
pub const FIRST_WINDOW_GRACE_SECS: u64 = 15;

/// The sidecar's entry point, relative to the directory it is looked for in.
pub const DEFAULT_ENTRY: &'static str = "../dist/sidecar/index.js";

/// What to do with a line that the sidecar wrote.
pub enum LineAction {
    /// Decode the payload of a protocol line.
    Decode(String),
    /// Pass the line on as logging.
    Print(String),
}

/// What comes from the sidecar's standard output.
pub enum Reading {
    /// A line of text.
    Text(String),
    /// A line that is no text, as it is to be shown.
    NotText(String),
    /// Nothing more: the output is closed.
    Closed,
}

/// What to do about a reading.
pub enum Next {
    /// Do this, and read on.
    Act(LineAction),
    /// Stop reading.
    Finish,
}

/// A reading, as a value of its texts.
pub enum Input {
    Text(Seq<char>),
    NotText(Seq<char>),
    Closed,
}

/// What to do about a reading, as a value of its texts.
pub enum Turn {
    Decode(Seq<char>),
    Print(Seq<char>),
    Finish,
}

impl View for LineAction {
    type V = Turn;

    open spec fn view(&self) -> Turn {
        match self {
            LineAction::Decode(payload) => Turn::Decode(payload@),
            LineAction::Print(text) => Turn::Print(text@),
        }
    }
}

impl View for Reading {
    type V = Input;

    open spec fn view(&self) -> Input {
        match self {
            Reading::Text(line) => Input::Text(line@),
            Reading::NotText(shown) => Input::NotText(shown@),
            Reading::Closed => Input::Closed,
        }
    }
}

impl View for Next {
    type V = Turn;

    open spec fn view(&self) -> Turn {
        match self {
            Next::Act(action) => action@,
            Next::Finish => Turn::Finish,
        }
    }
}

/// What to do with a line of text: after the prefix stands the payload of a protocol line,
/// and everything without the prefix is logging.
pub open spec fn line_turn(line: Seq<char>) -> Turn {
    if PREFIX@.is_prefix_of(line) {
        Turn::Decode(line.skip(PREFIX@.len() as int))
    } else {
        Turn::Print("[sidecar] "@ + line)
    }
}

/// What to do about a reading. A line that is no text has no payload and is logging; only the
/// end of the output ends the reading.
pub open spec fn turn(input: Input) -> Turn {
    match input {
        Input::Text(line) => line_turn(line),
        Input::NotText(shown) => Turn::Print("[sidecar] "@ + shown),
        Input::Closed => Turn::Finish,
    }
}

/// A line without its line break, which is a line feed or a carriage return and a line feed.
pub open spec fn without_break(bytes: Seq<u8>) -> Seq<u8> {
    if bytes.len() > 0 && bytes.last() == 10 {
        let rest = bytes.drop_last();
        if rest.len() > 0 && rest.last() == 13 {
            rest.drop_last()
        } else {
            rest
        }
    } else {
        bytes
    }
}

/// A line as it was read, without its line break. The last line may have none.
pub fn line_content(bytes: Vec<u8>) -> (content: Vec<u8>)
    ensures
        content@ == without_break(bytes@),
        bytes@ == content@ || bytes@ == content@.push(10) || bytes@ == content@ + seq![13u8, 10u8],
{
    let ghost whole = bytes@;
    let mut content = bytes;
    if content.len() > 0 && content[content.len() - 1] == 10 {
        let _ = content.pop();
        if content.len() > 0 && content[content.len() - 1] == 13 {
            let _ = content.pop();
            assert(whole =~= content@ + seq![13u8, 10u8]);
        } else {
            assert(whole =~= content@.push(10));
        }
    }
    content
}

/// What `String::from_utf8_lossy` makes of bytes: text with a replacement character where they
/// are not UTF-8.
pub uninterp spec fn lossy_text(bytes: Seq<u8>) -> Seq<char>;

/// A line as it was read: text where its content is UTF-8, and otherwise no text, shown with
/// replacement characters.
pub open spec fn input_of(raw: Seq<u8>) -> Input {
    let content = without_break(raw);
    if valid_utf8(content) {
        Input::Text(decode_utf8(content))
    } else {
        Input::NotText(lossy_text(content))
    }
}

/// `std::str::from_utf8` on `bytes`: the text that they encode where they are UTF-8, and
/// nothing where they are not.
#[verifier::external_body]
fn utf8_text(bytes: &Vec<u8>) -> (text: Option<String>)
    ensures
        match text {
            Some(text) => valid_utf8(bytes@) && text@ == decode_utf8(bytes@),
            None => !valid_utf8(bytes@),
        },
{
    match std::str::from_utf8(bytes) {
        Ok(text) => Some(text.to_owned()),
        Err(_) => None,
    }
}

/// `String::from_utf8_lossy` on `bytes`. The result is named, and nothing more is claimed of
/// it.
#[verifier::external_body]
fn shown_text(bytes: &Vec<u8>) -> (text: String)
    ensures
        text@ == lossy_text(bytes@),
{
    String::from_utf8_lossy(bytes).into_owned()
}

/// The reading that a line is, as it was read, with its line break.
pub fn reading_of(raw: Vec<u8>) -> (reading: Reading)
    ensures
        reading@ == input_of(raw@),
{
    let content = line_content(raw);
    match utf8_text(&content) {
        Some(line) => Reading::Text(line),
        None => Reading::NotText(shown_text(&content)),
    }
}

/// What to do with a line of the sidecar's standard output.
pub fn read_line(line: &str) -> (action: LineAction)
    ensures
        action@ == line_turn(line@),
        match action {
            LineAction::Decode(payload) => line@ == "@tauri-shell "@ + payload@,
            LineAction::Print(text) => {
                &&& !"@tauri-shell "@.is_prefix_of(line@)
                &&& text@ == "[sidecar] "@ + line@
            },
        },
{
    let width = PREFIX.unicode_len();
    let length = line.unicode_len();
    if width <= length && same_text(line.substring_char(0, width), PREFIX) {
        let payload = line.substring_char(width, length);
        assert(payload@ =~= line@.skip(width as int));
        assert(line@ =~= PREFIX@ + payload@) by {
            assert(line@ =~= line@.subrange(0, width as int) + payload@);
        }
        LineAction::Decode(payload.to_owned())
    } else {
        let mut text = "[sidecar] ".to_owned();
        text.append(line);
        LineAction::Print(text)
    }
}

/// What to do about what comes from the sidecar's standard output.
pub fn on_reading(reading: Reading) -> (next: Next)
    ensures
        next@ == turn(reading@),
        match reading {
            Reading::Text(line) => match next {
                Next::Act(LineAction::Decode(payload)) => line@ == "@tauri-shell "@ + payload@,
                Next::Act(LineAction::Print(text)) => {
                    &&& !"@tauri-shell "@.is_prefix_of(line@)
                    &&& text@ == "[sidecar] "@ + line@
                },
                Next::Finish => false,
            },
            Reading::NotText(shown) => next matches Next::Act(action) && action
                matches LineAction::Print(text) && text@ == "[sidecar] "@ + shown@,
            Reading::Closed => next is Finish,
        },
{
    match reading {
        Reading::Text(line) => Next::Act(read_line(line.as_str())),
        Reading::NotText(shown) => {
            let mut text = "[sidecar] ".to_owned();
            text.append(shown.as_str());
            Next::Act(LineAction::Print(text))
        },
        Reading::Closed => Next::Finish,
    }
}

/// A protocol line carries its payload whole, and no other line is one.
pub proof fn law_framing_is_exact(line: Seq<char>, payload: Seq<char>)
    ensures
        PREFIX@.is_prefix_of(PREFIX@ + payload),
        (PREFIX@ + payload).skip(PREFIX@.len() as int) == payload,
        line_turn(PREFIX@ + payload) == Turn::Decode(payload),
        PREFIX@.is_prefix_of(line) ==> line == PREFIX@ + line.skip(PREFIX@.len() as int),
{
    let whole = PREFIX@ + payload;
    assert(PREFIX@ =~= whole.subrange(0, PREFIX@.len() as int));
    assert(whole.skip(PREFIX@.len() as int) =~= payload);
    if PREFIX@.is_prefix_of(line) {
        assert(line =~= line.subrange(0, PREFIX@.len() as int) + line.skip(PREFIX@.len() as int));
    }
}

/// What the sidecar asks of the shell. `N` is the type of the lengths.
pub enum SidecarMessage<N> {
    CreateWindow(WindowRequest<N>),
    Window { win_id: u64, action: String },
}

/// What to do about a message.
pub enum Task<N> {
    /// Open a window, on the main thread.
    CreateWindow(WindowRequest<N>),
    /// Apply the action to the window with this label, on the main thread.
    OperateWindow { label: String, action: String },
    /// Write the report to the log.
    Report(String),
}

/// What a reading brings about.
pub enum Effect<N> {
    /// The text is written to standard output.
    Print(Seq<char>),
    /// The message is handled.
    Handle(SidecarMessage<N>),
    /// The text is written to the log.
    Report(Seq<char>),
    /// The shell ends.
    ShutDown,
}

/// What the payload of a protocol line brings about, given what it was decoded to.
pub open spec fn payload_effect<N>(
    payload: Seq<char>,
    decoded: Result<SidecarMessage<N>, String>,
) -> Effect<N> {
    match decoded {
        Ok(message) => Effect::Handle(message),
        Err(error) => Effect::Report(
            "[shell] bad sidecar message: "@ + error@ + ": "@ + payload,
        ),
    }
}

/// Whether `task` is how the effect of a payload is carried out.
pub open spec fn carries_out<N>(task: Task<N>, effect: Effect<N>) -> bool {
    match effect {
        Effect::Handle(SidecarMessage::CreateWindow(request)) => task == Task::CreateWindow(
            request,
        ),
        Effect::Handle(SidecarMessage::Window { win_id, action }) => task
            matches Task::OperateWindow { label: name, action: asked } && name@ == label(win_id)
            && asked@ == action@,
        Effect::Report(text) => task matches Task::Report(report) && report@ == text,
        _ => false,
    }
}

/// What to do about a message.
pub fn handle_sidecar_message<N>(message: SidecarMessage<N>) -> (task: Task<N>)
    ensures
        carries_out(task, Effect::Handle(message)),
        match message {
            SidecarMessage::CreateWindow(request) => task == Task::CreateWindow(request),
            SidecarMessage::Window { win_id, action } => task matches Task::OperateWindow {
                label: name,
                action: sent,
            } && name@ == "win-"@ + decimal(win_id as nat) && sent@ == action@,
        },
{
    match message {
        SidecarMessage::CreateWindow(request) => Task::CreateWindow(request),
        SidecarMessage::Window { win_id, action } => Task::OperateWindow {
            label: window_label(win_id),
            action,
        },
    }
}

/// What can happen while the shell runs.
#[derive(Clone, Copy, Debug, PartialEq, Eq, Structural)]
pub enum Occurrence {
    /// A line that is no protocol line.
    Logging,
    /// A protocol line whose payload is no message.
    BadMessage,
    /// The sidecar asks for a window.
    CreateWindow,
    /// The sidecar asks for an action on a window.
    WindowAction,
    /// The sidecar's standard output is closed.
    StdoutClosed,
    /// The time for the first window is over.
    GraceElapsed,
    /// The last window is closed, or the shell is asked to end.
    ExitRequested,
}

/// What the shell remembers of the sidecar.
#[derive(Clone, Copy, Debug, PartialEq, Eq, Structural)]
pub struct Shell {
    pub asked_for_a_window: bool,
    pub sidecar_alive: bool,
}

/// What the shell does when the sidecar is gone.
pub struct ShutDown {
    pub report: String,
    pub code: i32,
}

/// What kind of occurrence an effect is to the shell.
pub open spec fn occurrence_of<N>(effect: Effect<N>) -> Occurrence {
    match effect {
        Effect::Print(_) => Occurrence::Logging,
        Effect::Handle(SidecarMessage::CreateWindow(_)) => Occurrence::CreateWindow,
        Effect::Handle(SidecarMessage::Window { .. }) => Occurrence::WindowAction,
        Effect::Report(_) => Occurrence::BadMessage,
        Effect::ShutDown => Occurrence::StdoutClosed,
    }
}

/// The report for the log where the sidecar has not asked for a window in time.
pub open spec fn silence_report() -> Seq<char> {
    "[shell] the sidecar has not asked for a window in "@ + decimal(FIRST_WINDOW_GRACE_SECS as nat)
        + "s. It may not have recognised this shell: it looks for TAURI_SHELL=1 in its environment and for protocol lines prefixed '"@
        + PREFIX@ + "'."@
}

/// The report of silence, written out.
proof fn lemma_silence_report()
    ensures
        silence_report()
            == "[shell] the sidecar has not asked for a window in 15s. It may not have recognised this shell: it looks for TAURI_SHELL=1 in its environment and for protocol lines prefixed '@tauri-shell '."@,
{
    reveal_strlit("[shell] the sidecar has not asked for a window in ");
    reveal_strlit(
        "s. It may not have recognised this shell: it looks for TAURI_SHELL=1 in its environment and for protocol lines prefixed '",
    );
    reveal_strlit("@tauri-shell ");
    reveal_strlit("'.");
    reveal_strlit(
        "[shell] the sidecar has not asked for a window in 15s. It may not have recognised this shell: it looks for TAURI_SHELL=1 in its environment and for protocol lines prefixed '@tauri-shell '.",
    );
    reveal_with_fuel(decimal, 2);
    assert(decimal(15) =~= seq!['1', '5']);
    assert(silence_report()
        =~= "[shell] the sidecar has not asked for a window in 15s. It may not have recognised this shell: it looks for TAURI_SHELL=1 in its environment and for protocol lines prefixed '@tauri-shell '."@);
}

impl Shell {
    /// A shell whose sidecar has just been launched.
    pub open spec fn launched() -> Shell {
        Shell { asked_for_a_window: false, sidecar_alive: true }
    }

    /// What the shell remembers after an occurrence.
    pub open spec fn after(self, occurrence: Occurrence) -> Shell {
        match occurrence {
            Occurrence::CreateWindow => Shell { asked_for_a_window: true, ..self },
            Occurrence::StdoutClosed => Shell { sidecar_alive: false, ..self },
            _ => self,
        }
    }

    /// What the shell remembers after a run of occurrences.
    pub open spec fn after_all(self, run: Seq<Occurrence>) -> Shell
        decreases run.len(),
    {
        if run.len() == 0 {
            self
        } else {
            self.after_all(run.drop_last()).after(run.last())
        }
    }

    /// A shell whose sidecar has just been launched.
    pub fn new() -> (shell: Shell)
        ensures
            shell == Shell::launched(),
            !shell.asked_for_a_window,
            shell.sidecar_alive,
    {
        Shell { asked_for_a_window: false, sidecar_alive: true }
    }

    /// Takes in what the payload of a protocol line was decoded to, and says what to do
    /// about it. Where it was no message, the log gets the error and the payload.
    pub fn on_message<N>(
        &mut self,
        payload: &str,
        decoded: Result<SidecarMessage<N>, String>,
    ) -> (task: Task<N>)
        ensures
            *final(self) == old(self).after(occurrence_of(payload_effect(payload@, decoded))),
            carries_out(task, payload_effect(payload@, decoded)),
            final(self).asked_for_a_window == (old(self).asked_for_a_window || (decoded
                matches Ok(message) && message is CreateWindow)),
            final(self).sidecar_alive == old(self).sidecar_alive,
            match decoded {
                Ok(SidecarMessage::CreateWindow(request)) => task == Task::CreateWindow(request),
                Ok(SidecarMessage::Window { win_id, action }) => task matches Task::OperateWindow {
                    label: name,
                    action: sent,
                } && name@ == "win-"@ + decimal(win_id as nat) && sent@ == action@,
                Err(error) => task matches Task::Report(report) && report@
                    == "[shell] bad sidecar message: "@ + error@ + ": "@ + payload@,
            },
    {
        match decoded {
            Ok(message) => {
                if let SidecarMessage::CreateWindow(_) = &message {
                    self.asked_for_a_window = true;
                }
                handle_sidecar_message(message)
            },
            Err(error) => Task::Report(
                concat4("[shell] bad sidecar message: ", error.as_str(), ": ", payload),
            ),
        }
    }

    /// Takes in that the sidecar's standard output is closed: the application is gone, and
    /// the shell ends.
    pub fn on_stdout_closed(&mut self) -> (shut_down: ShutDown)
        ensures
            *final(self) == old(self).after(Occurrence::StdoutClosed),
            !final(self).sidecar_alive,
            final(self).asked_for_a_window == old(self).asked_for_a_window,
            shut_down.report@ == "[shell] sidecar exited; shutting down"@,
            shut_down.code == 0,
    {
        self.sidecar_alive = false;
        ShutDown { report: "[shell] sidecar exited; shutting down".to_owned(), code: 0 }
    }

    /// What the log gets when the time for the first window is over: nothing, where a
    /// window has been asked for.
    pub fn on_grace_elapsed(&self) -> (report: Option<String>)
        ensures
            match report {
                Some(report) => !self.asked_for_a_window && report@ == silence_report(),
                None => self.asked_for_a_window,
            },
            report matches Some(report) ==> report@
                == "[shell] the sidecar has not asked for a window in 15s. It may not have recognised this shell: it looks for TAURI_SHELL=1 in its environment and for protocol lines prefixed '@tauri-shell '."@,
    {
        if self.asked_for_a_window {
            return None;
        }
        let seconds = decimal_text(FIRST_WINDOW_GRACE_SECS);
        let mut report = concat4(
            "[shell] the sidecar has not asked for a window in ",
            seconds.as_str(),
            "s. It may not have recognised this shell: it looks for TAURI_SHELL=1 in its environment and for protocol lines prefixed '",
            PREFIX,
        );
        report.append("'.");
        proof {
            lemma_silence_report();
        }
        Some(report)
    }

    /// Whether a request to end is turned down: windows may all close while the sidecar
    /// works on, and only a sidecar that is gone ends the shell.
    pub fn prevents_exit(&self) -> (prevented: bool)
        ensures
            prevented == self.sidecar_alive,
    {
        self.sidecar_alive
    }
}

/// Whatever happened since the launch: the shell knows that a window was asked for exactly
/// if it was, and takes the sidecar for alive exactly until its output is closed. So the
/// log complains of silence only where no window was asked for, and requests to end are
/// turned down exactly as long as the output is open, however many windows have closed.
pub proof fn law_shell_remembers(run: Seq<Occurrence>)
    ensures
        Shell::launched().after_all(run).asked_for_a_window <==> run.contains(
            Occurrence::CreateWindow,
        ),
        Shell::launched().after_all(run).sidecar_alive <==> !run.contains(Occurrence::StdoutClosed),
    decreases run.len(),
{
    if run.len() > 0 {
        let before = run.drop_last();
        law_shell_remembers(before);
        assert forall|o: Occurrence| run.contains(o) <==> before.contains(o) || run.last() == o by {
            if run.contains(o) {
                let i = choose|i: int| 0 <= i < run.len() && run[i] == o;
                if i < before.len() {
                    assert(before[i] == o);
                }
            }
            if before.contains(o) {
                let i = choose|i: int| 0 <= i < before.len() && before[i] == o;
                assert(run[i] == o);
            }
            if run.last() == o {
                assert(run[run.len() - 1] == o);
            }
        }
    }
}

/// What is remembered is not forgotten: neither a request for a window nor the end of the
/// sidecar.
pub proof fn law_shell_never_forgets(shell: Shell, run: Seq<Occurrence>)
    ensures
        shell.asked_for_a_window ==> shell.after_all(run).asked_for_a_window,
        !shell.sidecar_alive ==> !shell.after_all(run).sidecar_alive,
    decreases run.len(),
{
    if run.len() > 0 {
        law_shell_never_forgets(shell, run.drop_last());
    }
}

/// What a reading brings about, where `decode` says what each payload is decoded to.
pub open spec fn effect<N>(
    input: Input,
    decode: spec_fn(Seq<char>) -> Result<SidecarMessage<N>, String>,
) -> Effect<N> {
    match turn(input) {
        Turn::Print(text) => Effect::Print(text),
        Turn::Decode(payload) => payload_effect(payload, decode(payload)),
        Turn::Finish => Effect::ShutDown,
    }
}

/// What a run of readings brings about, in order: reading goes on until it is finished.
pub open spec fn transcript<N>(
    inputs: Seq<Input>,
    decode: spec_fn(Seq<char>) -> Result<SidecarMessage<N>, String>,
) -> Seq<Effect<N>>
    decreases inputs.len(),
{
    if inputs.len() == 0 {
        Seq::empty()
    } else if turn(inputs[0]) is Finish {
        seq![effect(inputs[0], decode)]
    } else {
        seq![effect(inputs[0], decode)] + transcript(inputs.drop_first(), decode)
    }
}

/// Where the sidecar writes `lines` and then closes its output, each line has exactly one
/// effect, in order, and then the shell ends. A line of text without the prefix is passed on;
/// a protocol line whose payload is a message has that message handled; one whose payload is
/// none is reported. Nothing that might come after the end has an effect.
pub proof fn law_each_line_has_one_effect<N>(
    lines: Seq<Input>,
    rest: Seq<Input>,
    decode: spec_fn(Seq<char>) -> Result<SidecarMessage<N>, String>,
)
    requires
        forall|i: int| 0 <= i < lines.len() ==> !(#[trigger] lines[i] is Closed),
    ensures
        ({
            let run = transcript(lines + seq![Input::Closed] + rest, decode);
            &&& run.len() == lines.len() + 1
            &&& run.last() == Effect::<N>::ShutDown
            &&& forall|i: int|
                0 <= i < lines.len() ==> match #[trigger] lines[i] {
                    Input::Text(line) => if PREFIX@.is_prefix_of(line) {
                        let payload = line.skip(PREFIX@.len() as int);
                        match decode(payload) {
                            Ok(message) => run[i] == Effect::Handle(message),
                            Err(error) => run[i] == Effect::<N>::Report(
                                "[shell] bad sidecar message: "@ + error@ + ": "@ + payload,
                            ),
                        }
                    } else {
                        run[i] == Effect::<N>::Print("[sidecar] "@ + line)
                    },
                    Input::NotText(shown) => run[i] == Effect::<N>::Print("[sidecar] "@ + shown),
                    Input::Closed => false,
                }
        }),
    decreases lines.len(),
{
    let inputs = lines + seq![Input::Closed] + rest;
    let run = transcript(inputs, decode);
    if lines.len() == 0 {
        assert(inputs[0] == Input::Closed);
    } else {
        assert(inputs[0] == lines[0]);
        let later = lines.drop_first();
        assert forall|i: int| 0 <= i < later.len() implies !(#[trigger] later[i] is Closed) by {
            assert(later[i] == lines[i + 1]);
        }
        law_each_line_has_one_effect(later, rest, decode);
        assert(inputs.drop_first() =~= later + seq![Input::Closed] + rest);
        let tail = transcript(inputs.drop_first(), decode);
        assert(run == seq![effect(inputs[0], decode)] + tail);
        assert forall|i: int| 0 <= i < lines.len() implies run[i] == effect(
            #[trigger] lines[i],
            decode,
        ) by {
            if i > 0 {
                assert(later[i - 1] == lines[i]);
                assert(run[i] == tail[i - 1]);
            }
        }
    }
}

/// Where the sidecar writes the bytes of `lines` and then closes its output, each line has
/// exactly one effect, in order, and then the shell ends. A line that is UTF-8 without the
/// prefix is passed on, and so is a line that is not UTF-8; a protocol line whose payload is
/// a message has that message handled; one whose payload is none is reported.
pub proof fn law_each_written_line_has_one_effect<N>(
    lines: Seq<Seq<u8>>,
    decode: spec_fn(Seq<char>) -> Result<SidecarMessage<N>, String>,
)
    ensures
        ({
            let inputs = lines.map_values(|raw: Seq<u8>| input_of(raw));
            let run = transcript(inputs + seq![Input::Closed], decode);
            &&& run.len() == lines.len() + 1
            &&& run.last() == Effect::<N>::ShutDown
            &&& forall|i: int|
                0 <= i < lines.len() ==> {
                    let content = without_break(#[trigger] lines[i]);
                    let line = decode_utf8(content);
                    let payload = line.skip(PREFIX@.len() as int);
                    run[i] == if !valid_utf8(content) {
                        Effect::<N>::Print("[sidecar] "@ + lossy_text(content))
                    } else if !PREFIX@.is_prefix_of(line) {
                        Effect::<N>::Print("[sidecar] "@ + line)
                    } else {
                        match decode(payload) {
                            Ok(message) => Effect::Handle(message),
                            Err(error) => Effect::<N>::Report(
                                "[shell] bad sidecar message: "@ + error@ + ": "@ + payload,
                            ),
                        }
                    }
                }
        }),
{
    let inputs = lines.map_values(|raw: Seq<u8>| input_of(raw));
    let none = Seq::<Input>::empty();
    assert forall|i: int| 0 <= i < inputs.len() implies !(#[trigger] inputs[i] is Closed) by {
        assert(inputs[i] == input_of(lines[i]));
    }
    law_each_line_has_one_effect(inputs, none, decode);
    assert(inputs + seq![Input::Closed] + none =~= inputs + seq![Input::Closed]);
    let run = transcript(inputs + seq![Input::Closed], decode);
    assert forall|i: int| 0 <= i < lines.len() implies run[i] == effect(
        input_of(#[trigger] lines[i]),
        decode,
    ) by {
        assert(inputs[i] == input_of(lines[i]));
    }
}

/// What the shell remembers after a run of readings is what the run brought about: that a
/// window was asked for, exactly if a request for one was handled, and that the sidecar is
/// gone, exactly if the end of its output was read.
pub proof fn law_shell_remembers_the_lines<N>(
    inputs: Seq<Input>,
    decode: spec_fn(Seq<char>) -> Result<SidecarMessage<N>, String>,
)
    ensures
        ({
            let run = transcript(inputs, decode);
            let shell = Shell::launched().after_all(
                run.map_values(|effect: Effect<N>| occurrence_of(effect)),
            );
            &&& shell.asked_for_a_window <==> exists|i: int|
                0 <= i < run.len() && (#[trigger] run[i] matches Effect::Handle(message)
                    && message is CreateWindow)
            &&& shell.sidecar_alive <==> !exists|i: int|
                0 <= i < run.len() && (#[trigger] run[i]) is ShutDown
        }),
{
    let run = transcript(inputs, decode);
    let kinds = run.map_values(|effect: Effect<N>| occurrence_of(effect));
    law_shell_remembers(kinds);
    if kinds.contains(Occurrence::CreateWindow) {
        let i = choose|i: int| 0 <= i < kinds.len() && kinds[i] == Occurrence::CreateWindow;
        assert(occurrence_of(run[i]) == Occurrence::CreateWindow);
    }
    if kinds.contains(Occurrence::StdoutClosed) {
        let i = choose|i: int| 0 <= i < kinds.len() && kinds[i] == Occurrence::StdoutClosed;
        assert(occurrence_of(run[i]) == Occurrence::StdoutClosed);
    }
    assert forall|i: int| 0 <= i < run.len() implies kinds.contains(
        occurrence_of(#[trigger] run[i]),
    ) by {
        assert(kinds[i] == occurrence_of(run[i]));
    }
}

/// How the sidecar is launched. `P` is the type of paths.
pub struct Launch<P> {
    /// The program that runs the entry point.
    pub program: String,
    /// The program's only argument: the entry point.
    pub entry: P,
    /// The environment variable by which the sidecar knows this shell.
    pub variable: &'static str,
    /// What that variable holds.
    pub value: &'static str,
}

/// How the sidecar is launched from its entry point: with the configured node binary, or
/// `node`.
pub fn sidecar_launch<P>(node: Option<String>, entry: P) -> (launch: Launch<P>)
    ensures
        launch.program@ == (match node {
            Some(program) => program@,
            None => "node"@,
        }),
        launch.entry == entry,
        launch.variable@ == "TAURI_SHELL"@,
        launch.value@ == "1"@,
{
    let program = match node {
        Some(program) => program,
        None => "node".to_owned(),
    };
    Launch { program, entry, variable: "TAURI_SHELL", value: "1" }
}

/// The directory that holds the shell's build, three levels above its executable.
/// `ancestors` is the path of the executable, then its directory, and so on upwards.
pub fn build_root<P>(ancestors: &Vec<P>) -> (root: Option<&P>)
    ensures
        match root {
            Some(root) => ancestors@.len() > 3 && *root == ancestors@[3],
            None => ancestors@.len() <= 3,
        },
{
    if ancestors.len() > 3 {
        Some(&ancestors[3])
    } else {
        None
    }
}

/// A search for the sidecar's entry point. `P` is the type of paths.
pub struct EntrySearch<P> {
    candidates: Vec<P>,
    position: usize,
}

/// Where the search for the sidecar's entry point stands.
pub enum EntryStep<P> {
    /// This is the entry point.
    Use(P),
    /// See whether the search's current candidate exists.
    Probe(EntrySearch<P>),
    /// None of these candidates exists.
    Missing(Vec<P>),
}

impl<P> EntrySearch<P> {
    #[verifier::type_invariant]
    spec fn has_candidate(self) -> bool {
        self.position < self.candidates@.len()
    }

    /// The candidates, in the order in which they are tried.
    pub closed spec fn candidates(self) -> Seq<P> {
        self.candidates@
    }

    /// How many candidates have been tried.
    pub closed spec fn position(self) -> int {
        self.position as int
    }

    /// The path to probe.
    pub fn candidate(&self) -> (path: &P)
        ensures
            0 <= self.position() < self.candidates().len(),
            *path == self.candidates()[self.position()],
    {
        proof {
            use_type_invariant(self);
        }
        &self.candidates[self.position]
    }

    /// Goes on, knowing whether the current candidate exists: it is the entry point, or the
    /// next one is tried, or there is no next one.
    pub fn answer(self, exists: bool) -> (step: EntryStep<P>)
        ensures
            0 <= self.position() < self.candidates().len(),
            match step {
                EntryStep::Use(path) => exists && path == self.candidates()[self.position()],
                EntryStep::Probe(search) => {
                    &&& !exists
                    &&& search.candidates() == self.candidates()
                    &&& search.position() == self.position() + 1
                    &&& search.position() < self.candidates().len()
                },
                EntryStep::Missing(tried) => {
                    &&& !exists
                    &&& self.position() + 1 == self.candidates().len()
                    &&& tried@ == self.candidates()
                },
            },
            forall|present: spec_fn(P) -> bool|
                present(self.candidates()[self.position()]) == exists ==> #[trigger] settles_on(
                    self.candidates(),
                    self.position(),
                    present,
                ) == (match step {
                    EntryStep::Use(path) => Some(path),
                    EntryStep::Probe(search) => settles_on(
                        search.candidates(),
                        search.position(),
                        present,
                    ),
                    EntryStep::Missing(_) => None,
                }),
    {
        proof {
            use_type_invariant(&self);
        }
        reveal_with_fuel(settles_on, 2);
        let position = self.position;
        let mut candidates = self.candidates;
        if exists {
            return EntryStep::Use(candidates.remove(position));
        }
        let length = candidates.len();
        if position < length - 1 {
            EntryStep::Probe(EntrySearch { candidates, position: position + 1 })
        } else {
            EntryStep::Missing(candidates)
        }
    }
}

/// Begins to look for the sidecar's entry point. An explicit path is taken as it is.
/// Otherwise the path relative to the working directory is tried first, and then, where
/// there is one, the path relative to the executable.
pub fn sidecar_entry<P>(explicit: Option<P>, from_cwd: P, from_exe: Option<P>) -> (step: EntryStep<P>)
    ensures
        match explicit {
            Some(path) => step == EntryStep::Use(path),
            None => step matches EntryStep::Probe(search) && search.position() == 0
                && search.candidates() == (match from_exe {
                Some(path) => seq![from_cwd, path],
                None => seq![from_cwd],
            }),
        },
{
    match explicit {
        Some(path) => EntryStep::Use(path),
        None => {
            let mut candidates: Vec<P> = Vec::new();
            candidates.push(from_cwd);
            match from_exe {
                Some(path) => {
                    candidates.push(path);
                },
                None => {},
            }
            EntryStep::Probe(EntrySearch { candidates, position: 0 })
        },
    }
}

/// What the search ends with, from the candidate at `position` on, where `present` says
/// which paths exist: the path it settles on, or nothing.
pub open spec fn settles_on<P>(
    candidates: Seq<P>,
    position: int,
    present: spec_fn(P) -> bool,
) -> Option<P>
    decreases candidates.len() - position,
{
    if position >= candidates.len() {
        None
    } else if present(candidates[position]) {
        Some(candidates[position])
    } else {
        settles_on(candidates, position + 1, present)
    }
}

/// The search settles on the first candidate that exists, and on none only where none
/// exists.
pub proof fn law_first_existing_candidate_wins<P>(
    candidates: Seq<P>,
    position: int,
    present: spec_fn(P) -> bool,
)
    requires
        0 <= position <= candidates.len(),
    ensures
        match settles_on(candidates, position, present) {
            Some(path) => exists|i: int|
                position <= i < candidates.len() && #[trigger] candidates[i] == path && present(path)
                    && forall|j: int| position <= j < i ==> !present(#[trigger] candidates[j]),
            None => forall|j: int|
                position <= j < candidates.len() ==> !present(#[trigger] candidates[j]),
        },
    decreases candidates.len() - position,
{
    if position < candidates.len() {
        if present(candidates[position]) {
        } else {
            law_first_existing_candidate_wins(candidates, position + 1, present);
        }
    }
}

/// What is said where no candidate exists, given how the candidates are shown.
pub fn missing_entry_message(tried: &Vec<String>) -> (message: String)
    ensures
        message@ == "no dist/sidecar/index.js (tried "@ + joined(
            tried@.map_values(|path: String| path@),
            ", "@,
        )
            + ") — run `pnpm build && pnpm build:tauri`, or point TAURI_SHELL_SIDECAR_ENTRY at it"@,
{
    let mut list = String::new();
    let ghost texts = tried@.map_values(|path: String| path@);
    let length = tried.len();
    for i in 0..length
        invariant
            length == tried@.len(),
            texts == tried@.map_values(|path: String| path@),
            list@ == joined(texts.take(i as int), ", "@),
    {
        proof {
            let upto = texts.take(i + 1);
            assert(upto.drop_last() =~= texts.take(i as int));
            assert(upto.last() == tried@[i as int]@);
        }
        if i > 0 {
            list.append(", ");
        }
        list.append(tried[i].as_str());
        assert(list@ =~= joined(texts.take(i + 1), ", "@));
    }
    assert(texts.take(length as int) =~= texts);
    let mut message = "no dist/sidecar/index.js (tried ".to_owned();
    message.append(list.as_str());
    message.append(
        ") — run `pnpm build && pnpm build:tauri`, or point TAURI_SHELL_SIDECAR_ENTRY at it",
    );
    message
}

} // verus!
