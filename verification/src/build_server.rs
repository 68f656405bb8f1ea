//! The build server: how a `cargo run` is started for a command, and how the
//! lines that the child process prints become messages for the studio.
use crate::build_protocol::{
    BuildCmd, BuildCmdWrap,
    opt_msg_view, BuildCmdId, BuildMsg, BuildMsgBare, BuildMsgLevel, BuildMsgLocation,
    BuildMsgWrap, MsgView, Range,
};
use crate::rustc_json::{RustcCompilerMessage, RustcSpan};
use crate::text::{
    decimal, decimal_string, ends_with, ends_with_str, lemma_trim_idempotent, starts_with,
    starts_with_str, str_equal, trim, trim_str,
};
use vstd::prelude::*;

verus! {

/// Where the cleanup of cargo's standard error stands.
#[derive(Clone, Copy, Debug, PartialEq, Eq, Structural)]
pub enum StdErrState {
    First,
    Sync,
    Desync,
    Running,
}

/// What the loop that reads a child process does after a line.
#[derive(Clone, Copy, Debug, PartialEq, Eq, Structural)]
pub enum LoopControl {
    Continue,
    Stop,
    Kill,
}

/// One thing that a running child process reports. A line of standard output
/// comes with its reading as a compiler message, where it is one.
#[derive(Clone, Debug)]
pub enum ProcessEvent {
    StdOut { line: String, parsed: Option<RustcCompilerMessage> },
    StdErr(String),
    Term,
    Kill,
}

/// A bare message: its line is sent trimmed.
pub open spec fn bare_view(cmd_id: BuildCmdId, level: BuildMsgLevel, line: Seq<char>) -> (
    u64,
    MsgView,
) {
    (cmd_id.0, MsgView::Bare { level, line: trim(line) })
}

/// A message with a place in a file.
pub open spec fn location_view(
    cmd_id: BuildCmdId,
    level: BuildMsgLevel,
    file_name: Seq<char>,
    range: Range,
    msg: Seq<char>,
) -> (u64, MsgView) {
    (cmd_id.0, MsgView::Location { level, file_name, range, msg })
}

/// The message that `send_bare_msg` sends.
pub fn bare_msg(cmd_id: BuildCmdId, level: BuildMsgLevel, line: &str) -> (w: BuildMsgWrap)
    ensures
        w@ == bare_view(cmd_id, level, line@),
{
    let line = trim_str(line);
    cmd_id.wrap_msg(BuildMsg::Bare(BuildMsgBare { line, level }))
}

/// The message that `send_location_msg` sends.
pub fn location_msg(
    cmd_id: BuildCmdId,
    level: BuildMsgLevel,
    file_name: String,
    range: Range,
    msg: String,
) -> (w: BuildMsgWrap)
    ensures
        w@ == location_view(cmd_id, level, file_name@, range, msg@),
{
    cmd_id.wrap_msg(BuildMsg::Location(BuildMsgLocation { level, file_name, range, msg }))
}

/// The level that rustc's name for it stands for.
pub open spec fn level_from_name(name: Seq<char>) -> Option<BuildMsgLevel> {
    if name == "error"@ {
        Some(BuildMsgLevel::Error)
    } else if name == "warning"@ {
        Some(BuildMsgLevel::Warning)
    } else if name == "log"@ {
        Some(BuildMsgLevel::Log)
    } else if name == "failure-note"@ {
        Some(BuildMsgLevel::Error)
    } else if name == "panic"@ {
        Some(BuildMsgLevel::Panic)
    } else {
        None
    }
}

pub fn level_from_str(name: &str) -> (r: Option<BuildMsgLevel>)
    ensures
        r == level_from_name(name@),
{
    if str_equal(name, "error") {
        Some(BuildMsgLevel::Error)
    } else if str_equal(name, "warning") {
        Some(BuildMsgLevel::Warning)
    } else if str_equal(name, "log") {
        Some(BuildMsgLevel::Log)
    } else if str_equal(name, "failure-note") {
        Some(BuildMsgLevel::Error)
    } else if str_equal(name, "panic") {
        Some(BuildMsgLevel::Panic)
    } else {
        None
    }
}

/// The index of the first primary span, or the number of spans where none is.
pub open spec fn first_primary(spans: Seq<RustcSpan>) -> int
    decreases spans.len(),
{
    if spans.len() == 0 {
        0
    } else if spans[0].is_primary {
        0
    } else {
        1 + first_primary(spans.drop_first())
    }
}

/// rustc's closing summaries, which are not passed on.
pub open spec fn is_summary_line(message: Seq<char>) -> bool {
    let t = trim(message);
    ||| starts_with(t, "aborting due to "@)
    ||| starts_with(t, "For more information about this error"@)
    ||| ends_with(t, "warning emitted"@)
    ||| ends_with(t, "warnings emitted"@)
}

/// The message, if any, that a compiler message becomes.
pub open spec fn compiler_message_output(cmd_id: BuildCmdId, msg: RustcCompilerMessage) -> Option<
    (u64, MsgView),
> {
    match msg.message {
        None => None,
        Some(m) => match level_from_name(m.level@) {
            None => Some(
                bare_view(
                    cmd_id,
                    BuildMsgLevel::Error,
                    "process_compiler_message: unexpected level "@ + m.level@,
                ),
            ),
            Some(level) => {
                let k = first_primary(m.spans@);
                if k < m.spans@.len() {
                    Some(
                        location_view(
                            cmd_id,
                            level,
                            m.spans@[k].file_name@,
                            m.spans@[k].range,
                            m.message@,
                        ),
                    )
                } else if is_summary_line(m.message@) {
                    None
                } else {
                    Some(bare_view(cmd_id, BuildMsgLevel::Warning, m.message@))
                }
            },
        },
    }
}

proof fn lemma_first_primary_bounds(spans: Seq<RustcSpan>)
    ensures
        0 <= first_primary(spans) <= spans.len(),
        first_primary(spans) < spans.len() ==> spans[first_primary(spans)].is_primary,
        forall|j: int| 0 <= j < first_primary(spans) ==> !(#[trigger] spans[j]).is_primary,
    decreases spans.len(),
{
    if spans.len() > 0 && !spans[0].is_primary {
        let t = spans.drop_first();
        lemma_first_primary_bounds(t);
        assert forall|j: int| 0 <= j < first_primary(spans) implies !(
        #[trigger] spans[j]).is_primary by {
            if j > 0 {
                assert(spans[j] == t[j - 1]);
            }
        }
    }
}

fn find_first_primary(spans: &Vec<RustcSpan>) -> (k: usize)
    ensures
        k == first_primary(spans@),
{
    proof {
        lemma_first_primary_bounds(spans@);
    }
    let mut i: usize = 0;
    while i < spans.len()
        invariant
            i <= spans@.len(),
            i <= first_primary(spans@),
            0 <= first_primary(spans@) <= spans@.len(),
            first_primary(spans@) < spans@.len() ==> spans@[first_primary(spans@)].is_primary,
            forall|j: int| 0 <= j < first_primary(spans@) ==> !(#[trigger] spans@[j]).is_primary,
        decreases spans.len() - i,
    {
        if spans[i].is_primary {
            return i;
        }
        i = i + 1;
    }
    i
}

/// The message, if any, that `process_compiler_message` sends for `msg`.
pub fn compiler_message_to_msg(cmd_id: BuildCmdId, msg: &RustcCompilerMessage) -> (r: Option<
    BuildMsgWrap,
>)
    ensures
        opt_msg_view(r) == compiler_message_output(cmd_id, *msg),
{
    match &msg.message {
        None => None,
        Some(m) => {
            match level_from_str(m.level.as_str()) {
                None => {
                    let mut text = String::from_str("process_compiler_message: unexpected level ");
                    text.append(m.level.as_str());
                    Some(bare_msg(cmd_id, BuildMsgLevel::Error, text.as_str()))
                },
                Some(level) => {
                    let k = find_first_primary(&m.spans);
                    if k < m.spans.len() {
                        let span = &m.spans[k];
                        Some(
                            location_msg(
                                cmd_id,
                                level,
                                span.file_name.clone(),
                                span.range,
                                m.message.clone(),
                            ),
                        )
                    } else {
                        let t = trim_str(m.message.as_str());
                        let t = t.as_str();
                        if starts_with_str(t, "aborting due to ") || starts_with_str(
                            t,
                            "For more information about this error",
                        ) || ends_with_str(t, "warning emitted") || ends_with_str(
                            t,
                            "warnings emitted",
                        ) {
                            None
                        } else {
                            Some(bare_msg(cmd_id, BuildMsgLevel::Warning, m.message.as_str()))
                        }
                    }
                },
            }
        },
    }
}


/// What one line of cargo's standard error does: the next state, and the
/// level and text of the bare message it sends, if any.
pub open spec fn stderr_step(state: StdErrState, line: Seq<char>) -> (StdErrState, Option<
    (BuildMsgLevel, Seq<char>),
>) {
    let t = trim(line);
    match state {
        StdErrState::First => {
            if starts_with(t, "Compiling "@) {
                (StdErrState::First, Some((BuildMsgLevel::Wait, line)))
            } else if starts_with(t, "Finished "@) {
                (StdErrState::Running, None)
            } else if starts_with(t, "error: could not compile "@) {
                (StdErrState::First, Some((BuildMsgLevel::Log, line)))
            } else {
                (StdErrState::Desync, Some((BuildMsgLevel::Error, line)))
            }
        },
        StdErrState::Desync => (StdErrState::Desync, Some((BuildMsgLevel::Error, line))),
        StdErrState::Running => {
            if starts_with(t, "Running "@) {
                (StdErrState::Sync, Some((BuildMsgLevel::Wait, t)))
            } else {
                (StdErrState::Desync, Some((BuildMsgLevel::Error, line)))
            }
        },
        StdErrState::Sync => (StdErrState::Sync, None),
    }
}

/// The message, if any, that a line of standard output becomes.
pub open spec fn stdout_output(
    cmd_id: BuildCmdId,
    line: Seq<char>,
    parsed: Option<RustcCompilerMessage>,
) -> Option<(u64, MsgView)> {
    match parsed {
        None => Some(bare_view(cmd_id, BuildMsgLevel::Log, line)),
        Some(msg) => if msg.reason@ == "makepad-error-log"@ || msg.reason@ == "compiler-message"@ {
            compiler_message_output(cmd_id, msg)
        } else {
            None
        },
    }
}

/// One turn of the loop that reads a `cargo run`: the next state of the
/// standard-error cleanup, the message to send, and whether to go on.
pub open spec fn output_step(cmd_id: BuildCmdId, state: StdErrState, event: ProcessEvent) -> (
    StdErrState,
    Option<(u64, MsgView)>,
    LoopControl,
) {
    match event {
        ProcessEvent::StdOut { line, parsed } => (
            state,
            stdout_output(cmd_id, line@, parsed),
            LoopControl::Continue,
        ),
        ProcessEvent::StdErr(line) => {
            let (next, sent) = stderr_step(state, line@);
            (
                next,
                match sent {
                    Some((level, text)) => Some(bare_view(cmd_id, level, text)),
                    None => None,
                },
                LoopControl::Continue,
            )
        },
        ProcessEvent::Term => (
            state,
            Some(bare_view(cmd_id, BuildMsgLevel::Log, "process terminated"@)),
            LoopControl::Stop,
        ),
        ProcessEvent::Kill => (state, None, LoopControl::Kill),
    }
}

fn stderr_line_step(cmd_id: BuildCmdId, state: StdErrState, line: &str) -> (r: (
    StdErrState,
    Option<BuildMsgWrap>,
))
    ensures
        r.0 == stderr_step(state, line@).0,
        opt_msg_view(r.1) == match stderr_step(state, line@).1 {
            Some((level, text)) => Some(bare_view(cmd_id, level, text)),
            None => None,
        },
{
    match state {
        StdErrState::First => {
            let t = trim_str(line);
            if starts_with_str(t.as_str(), "Compiling ") {
                (StdErrState::First, Some(bare_msg(cmd_id, BuildMsgLevel::Wait, line)))
            } else if starts_with_str(t.as_str(), "Finished ") {
                (StdErrState::Running, None)
            } else if starts_with_str(t.as_str(), "error: could not compile ") {
                (StdErrState::First, Some(bare_msg(cmd_id, BuildMsgLevel::Log, line)))
            } else {
                (StdErrState::Desync, Some(bare_msg(cmd_id, BuildMsgLevel::Error, line)))
            }
        },
        StdErrState::Desync => (
            StdErrState::Desync,
            Some(bare_msg(cmd_id, BuildMsgLevel::Error, line)),
        ),
        StdErrState::Running => {
            let t = trim_str(line);
            if starts_with_str(t.as_str(), "Running ") {
                (StdErrState::Sync, Some(bare_msg(cmd_id, BuildMsgLevel::Wait, t.as_str())))
            } else {
                (StdErrState::Desync, Some(bare_msg(cmd_id, BuildMsgLevel::Error, line)))
            }
        },
        StdErrState::Sync => (StdErrState::Sync, None),
    }
}

/// The decisions of the loop that reads a `cargo run`, for one event.
pub fn cargo_output_step(cmd_id: BuildCmdId, state: StdErrState, event: &ProcessEvent) -> (r: (
    StdErrState,
    Option<BuildMsgWrap>,
    LoopControl,
))
    ensures
        (r.0, opt_msg_view(r.1), r.2) == output_step(cmd_id, state, *event),
{
    match event {
        ProcessEvent::StdOut { line, parsed } => {
            let msg = match parsed {
                None => Some(bare_msg(cmd_id, BuildMsgLevel::Log, line.as_str())),
                Some(m) => {
                    if str_equal(m.reason.as_str(), "makepad-error-log") || str_equal(
                        m.reason.as_str(),
                        "compiler-message",
                    ) {
                        compiler_message_to_msg(cmd_id, m)
                    } else {
                        None
                    }
                },
            };
            (state, msg, LoopControl::Continue)
        },
        ProcessEvent::StdErr(line) => {
            let (next, msg) = stderr_line_step(cmd_id, state, line.as_str());
            (next, msg, LoopControl::Continue)
        },
        ProcessEvent::Term => (
            state,
            Some(bare_msg(cmd_id, BuildMsgLevel::Log, "process terminated")),
            LoopControl::Stop,
        ),
        ProcessEvent::Kill => (state, None, LoopControl::Kill),
    }
}

/// The state of the standard-error cleanup after a run of events.
pub open spec fn state_after(cmd_id: BuildCmdId, state: StdErrState, events: Seq<ProcessEvent>) -> StdErrState
    decreases events.len(),
{
    if events.len() == 0 {
        state
    } else {
        state_after(cmd_id, output_step(cmd_id, state, events[0]).0, events.drop_first())
    }
}

/// Before cargo has finished building, only a line saying that the build of
/// a crate failed is passed on as a log line; a line that is not build
/// progress at all (not "Compiling ", "Finished " or "error: could not
/// compile ") means the cleanup has lost track: it goes to Desync and the
/// line is passed on, trimmed, as an error.
pub proof fn law_first_unknown_line_desyncs(cmd_id: BuildCmdId, line: String)
    requires
        !starts_with(trim(line@), "Compiling "@),
        !starts_with(trim(line@), "Finished "@),
        !starts_with(trim(line@), "error: could not compile "@),
    ensures
        output_step(cmd_id, StdErrState::First, ProcessEvent::StdErr(line)) == (
            StdErrState::Desync,
            Some((cmd_id.0, MsgView::Bare { level: BuildMsgLevel::Error, line: trim(line@) })),
            LoopControl::Continue,
        ),
{
    lemma_trim_idempotent(line@);
}

/// In state First, the line stays in First exactly when it is build progress
/// ("Compiling ...", sent as Wait) or a failed crate ("error: could not
/// compile ...", sent as Log); "Finished ..." moves on to Running.
pub proof fn law_first_state_lines(cmd_id: BuildCmdId, line: String)
    ensures
        ({
            let (next, msg, control) = output_step(cmd_id, StdErrState::First, ProcessEvent::StdErr(line));
            let t = trim(line@);
            &&& control == LoopControl::Continue
            &&& (next == StdErrState::First) <==> (starts_with(t, "Compiling "@) || (!starts_with(t, "Finished "@)
                && starts_with(t, "error: could not compile "@)))
            &&& (next == StdErrState::Running) <==> (!starts_with(t, "Compiling "@) && starts_with(t, "Finished "@))
            &&& (msg matches Some((_, MsgView::Bare { level: BuildMsgLevel::Log, .. })))
                ==> starts_with(t, "error: could not compile "@)
            &&& (msg matches Some((_, MsgView::Bare { level: BuildMsgLevel::Wait, .. })))
                ==> starts_with(t, "Compiling "@)
        }),
{
}

/// Once the cleanup has lost track of cargo's output, every further line of
/// standard error is passed on as an error and the loop goes on.
pub proof fn law_desync_passes_errors(cmd_id: BuildCmdId, line: String)
    ensures
        output_step(cmd_id, StdErrState::Desync, ProcessEvent::StdErr(line)) == (
            StdErrState::Desync,
            Some(bare_view(cmd_id, BuildMsgLevel::Error, line@)),
            LoopControl::Continue,
        ),
{
}

/// Once lost, the cleanup never finds cargo's output again, whatever follows.
pub proof fn law_desync_is_final(cmd_id: BuildCmdId, events: Seq<ProcessEvent>)
    ensures
        state_after(cmd_id, StdErrState::Desync, events) == StdErrState::Desync,
    decreases events.len(),
{
    if events.len() > 0 {
        law_desync_is_final(cmd_id, events.drop_first());
    }
}

/// Once the program runs, its standard error is not passed on.
pub proof fn law_sync_is_quiet(cmd_id: BuildCmdId, line: String)
    ensures
        output_step(cmd_id, StdErrState::Sync, ProcessEvent::StdErr(line)) == (
            StdErrState::Sync,
            None::<(u64, MsgView)>,
            LoopControl::Continue,
        ),
{
}

/// Standard output never moves the standard-error cleanup.
pub proof fn law_stdout_keeps_state(cmd_id: BuildCmdId, state: StdErrState, line: String, parsed: Option<RustcCompilerMessage>)
    ensures
        output_step(cmd_id, state, ProcessEvent::StdOut { line, parsed }).0 == state,
        output_step(cmd_id, state, ProcessEvent::StdOut { line, parsed }).2 == LoopControl::Continue,
{
}

/// Every bare message that the loop sends carries a trimmed line.
pub proof fn law_bare_lines_are_trimmed(cmd_id: BuildCmdId, state: StdErrState, event: ProcessEvent)
    ensures
        output_step(cmd_id, state, event).1 matches Some((_, MsgView::Bare { line, .. })) ==> trim(line) == line,
{
    match output_step(cmd_id, state, event).1 {
        Some((_, MsgView::Bare { level, line })) => {
            let s = choose|s: Seq<char>| trim(s) == line;
            assert(exists|s: Seq<char>| trim(s) == line) by {
                match event {
                    ProcessEvent::StdOut { line: l, parsed } => {
                        match parsed {
                            None => { assert(trim(l@) == line); },
                            Some(m) => {
                                match m.message {
                                    Some(mm) => {
                                        if level_from_name(mm.level@) is None {
                                            assert(trim("process_compiler_message: unexpected level "@ + mm.level@) == line);
                                        } else {
                                            assert(trim(mm.message@) == line);
                                        }
                                    },
                                    None => {},
                                }
                            },
                        }
                    },
                    ProcessEvent::StdErr(l) => {
                        let t = stderr_step(state, l@).1;
                        assert(trim(t.unwrap().1) == line);
                    },
                    ProcessEvent::Term => { assert(trim("process terminated"@) == line); },
                    ProcessEvent::Kill => {},
                }
            }
            lemma_trim_idempotent(s);
        },
        _ => {},
    }
}


/// A compiler message whose level rustc names "error" or "warning" and that
/// has a primary span is sent as a location message at the first primary
/// span: that span's file and range, the message's text, and the level. Only
/// a message without a primary span can be sent bare, and then at level
/// Warning.
pub proof fn law_primary_span_gives_location(cmd_id: BuildCmdId, msg: RustcCompilerMessage, k: int)
    requires
        msg.message is Some,
        msg.message->0.level@ == "error"@ || msg.message->0.level@ == "warning"@,
        0 <= k < msg.message->0.spans@.len(),
        msg.message->0.spans@[k].is_primary,
        forall|j: int| 0 <= j < k ==> !(#[trigger] msg.message->0.spans@[j]).is_primary,
    ensures
        compiler_message_output(cmd_id, msg) == Some(
            (
                cmd_id.0,
                MsgView::Location {
                    level: if msg.message->0.level@ == "error"@ {
                        BuildMsgLevel::Error
                    } else {
                        BuildMsgLevel::Warning
                    },
                    file_name: msg.message->0.spans@[k].file_name@,
                    range: msg.message->0.spans@[k].range,
                    msg: msg.message->0.message@,
                },
            ),
        ),
{
    let spans = msg.message->0.spans@;
    lemma_first_primary_bounds(spans);
    if first_primary(spans) < k {
        assert(!spans[first_primary(spans)].is_primary);
    }
    if first_primary(spans) > k {
        assert(!spans[k].is_primary);
    }
}

/// A compiler message is never passed on bare at a level other than
/// Warning, unless its level is one rustc does not use, which is reported as
/// an Error.
pub proof fn law_bare_compiler_messages(cmd_id: BuildCmdId, msg: RustcCompilerMessage)
    ensures
        compiler_message_output(cmd_id, msg) matches Some((_, MsgView::Bare { level, .. })) ==> (
        level == BuildMsgLevel::Warning || (level == BuildMsgLevel::Error && level_from_name(
            msg.message->0.level@,
        ) is None)),
        msg.message is None ==> compiler_message_output(cmd_id, msg) is None,
{
}

/// Whoever receives the messages of a build connection. The provided methods
/// build each message with the verified functions above and send it.
///
/// `accepts` is the sender's own account of the messages it is ready for.
/// Each provided method asks, in its `requires`, only that the sender accept
/// the one message that the method is meant to send, so that its body can
/// hand `send_message` that message and no other: a message with a primary
/// span goes out as a location message at that span, a summary goes out as
/// nothing, and so on, as `compiler_message_output` says.
pub trait MsgSender {
    closed spec fn accepts(&self, m: (u64, MsgView)) -> bool {
        true
    }

    fn send_message(&self, wrap: BuildMsgWrap)
        requires
            self.accepts(wrap@),
    ;

    fn send_bare_msg(&self, cmd_id: BuildCmdId, level: BuildMsgLevel, line: String)
        requires
            self.accepts(bare_view(cmd_id, level, line@)),
    {
        self.send_message(bare_msg(cmd_id, level, line.as_str()));
    }

    fn send_location_msg(
        &self,
        cmd_id: BuildCmdId,
        level: BuildMsgLevel,
        file_name: String,
        range: Range,
        msg: String,
    )
        requires
            self.accepts(location_view(cmd_id, level, file_name@, range, msg@)),
    {
        self.send_message(location_msg(cmd_id, level, file_name, range, msg));
    }

    fn process_compiler_message(&self, cmd_id: BuildCmdId, msg: RustcCompilerMessage)
        requires
            compiler_message_output(cmd_id, msg) matches Some(m) ==> self.accepts(m),
    {
        match compiler_message_to_msg(cmd_id, &msg) {
            Some(wrap) => self.send_message(wrap),
            None => {},
        }
    }
}

/// The arguments of the `cargo run` that builds and starts package `what`.
pub open spec fn cargo_run_args(what: Seq<char>, render_to: u64) -> Seq<Seq<char>> {
    seq![
        "run"@,
        "-p"@,
        what,
        "--message-format=json"@,
        "--features=nightly"@,
        "--"@,
        "--message-format=json"@,
        "--render-to="@ + decimal(render_to as nat),
    ]
}

pub fn cargo_run_arg_list(what: &str, render_to: u64) -> (r: Vec<String>)
    ensures
        r.deep_view() == cargo_run_args(what@, render_to),
{
    let mut args: Vec<String> = Vec::new();
    args.push(String::from_str("run"));
    args.push(String::from_str("-p"));
    args.push(String::from_str(what));
    args.push(String::from_str("--message-format=json"));
    args.push(String::from_str("--features=nightly"));
    args.push(String::from_str("--"));
    args.push(String::from_str("--message-format=json"));
    let mut render = String::from_str("--render-to=");
    let n = decimal_string(render_to);
    render.append(n.as_str());
    args.push(render);
    assert(args.deep_view() =~= cargo_run_args(what@, render_to));
    args
}

/// A running build, under the package it runs, with what reaches it.
pub struct ProcessEntry<T> {
    pub name: String,
    pub handle: T,
}

/// The running builds, one per package.
pub struct ProcessTable<T> {
    pub entries: Vec<ProcessEntry<T>>,
}

/// The runs seen as package names and handles.
pub open spec fn entries_view<T>(entries: Seq<ProcessEntry<T>>) -> Seq<(Seq<char>, T)> {
    entries.map_values(|e: ProcessEntry<T>| (e.name@, e.handle))
}

/// The index of the first run of package `what`, or the number of runs.
pub open spec fn name_index<T>(runs: Seq<(Seq<char>, T)>, what: Seq<char>) -> int
    decreases runs.len(),
{
    if runs.len() == 0 {
        0
    } else if runs[0].0 == what {
        0
    } else {
        1 + name_index(runs.drop_first(), what)
    }
}

/// No package runs twice.
pub open spec fn names_unique<T>(runs: Seq<(Seq<char>, T)>) -> bool {
    forall|i: int, j: int| 0 <= i < j < runs.len() ==> #[trigger] runs[i].0 != #[trigger] runs[j].0
}

proof fn lemma_name_index<T>(runs: Seq<(Seq<char>, T)>, what: Seq<char>)
    ensures
        0 <= name_index(runs, what) <= runs.len(),
        name_index(runs, what) < runs.len() ==> runs[name_index(runs, what)].0 == what,
        forall|j: int| 0 <= j < name_index(runs, what) ==> (#[trigger] runs[j]).0 != what,
    decreases runs.len(),
{
    if runs.len() > 0 && runs[0].0 != what {
        let t = runs.drop_first();
        lemma_name_index(t, what);
        assert forall|j: int| 0 <= j < name_index(runs, what) implies (#[trigger] runs[j]).0 != what by {
            if j > 0 {
                assert(runs[j] == t[j - 1]);
            }
        }
    }
}

impl<T> ProcessTable<T> {
    pub fn new() -> (t: ProcessTable<T>)
        ensures
            t.entries@.len() == 0,
    {
        ProcessTable { entries: Vec::new() }
    }

    fn find(&self, what: &str) -> (i: usize)
        ensures
            i == name_index(entries_view(self.entries@), what@),
    {
        let ghost runs = entries_view(self.entries@);
        proof {
            lemma_name_index(runs, what@);
        }
        let mut i: usize = 0;
        while i < self.entries.len()
            invariant
                runs == entries_view(self.entries@),
                runs.len() == self.entries@.len(),
                i <= name_index(runs, what@),
                0 <= name_index(runs, what@) <= runs.len(),
                name_index(runs, what@) < runs.len() ==> runs[name_index(runs, what@)].0 == what@,
                forall|j: int| 0 <= j < name_index(runs, what@) ==> (#[trigger] runs[j]).0 != what@,
            decreases self.entries.len() - i,
        {
            if str_equal(self.entries[i].name.as_str(), what) {
                assert(runs[i as int].0 == self.entries@[i as int].name@);
                return i;
            }
            assert(runs[i as int].0 == self.entries@[i as int].name@);
            i = i + 1;
        }
        i
    }

    /// The handle of the running build of package `what`, if there is one.
    pub fn get(&self, what: &str) -> (r: Option<&T>)
        ensures
            ({
                let i = name_index(entries_view(self.entries@), what@);
                if i < self.entries@.len() {
                    r == Some(&self.entries@[i].handle)
                } else {
                    r is None
                }
            }),
    {
        let i = self.find(what);
        if i < self.entries.len() {
            Some(&self.entries[i].handle)
        } else {
            None
        }
    }

    /// Records the build of package `what`: it takes the place of the run of
    /// the same package, whose handle is returned, or is added after the others.
    pub fn register(&mut self, what: String, handle: T) -> (r: Option<T>)
        ensures
            ({
                let old_runs = entries_view(old(self).entries@);
                let i = name_index(old_runs, what@);
                if i < old_runs.len() {
                    &&& entries_view(final(self).entries@) == old_runs.update(i, (what@, handle))
                    &&& r == Some(old(self).entries@[i].handle)
                } else {
                    &&& entries_view(final(self).entries@) == old_runs.push((what@, handle))
                    &&& r is None
                }
            }),
            names_unique(entries_view(old(self).entries@)) ==> names_unique(
                entries_view(final(self).entries@),
            ),
    {
        let ghost old_runs = entries_view(self.entries@);
        let ghost w = what@;
        proof {
            lemma_name_index(old_runs, w);
        }
        let i = self.find(what.as_str());
        if i < self.entries.len() {
            let ghost old_entries = self.entries@;
            let old_entry = self.entries.remove(i);
            self.entries.insert(i, ProcessEntry { name: what, handle });
            proof {
                let new_runs = entries_view(self.entries@);
                assert(self.entries@ =~= old_entries.update(i as int, ProcessEntry { name: self.entries@[i as int].name, handle }));
                assert(new_runs =~= old_runs.update(i as int, (w, handle)));
                if names_unique(old_runs) {
                    assert forall|a: int, b: int| 0 <= a < b < new_runs.len() implies #[trigger] new_runs[a].0 != #[trigger] new_runs[b].0 by {
                        if a == i {
                            assert(old_runs[b].0 != old_runs[a].0);
                        } else if b == i {
                            assert(old_runs[b].0 != old_runs[a].0);
                        } else {
                            assert(old_runs[b].0 != old_runs[a].0);
                        }
                    }
                }
            }
            Some(old_entry.handle)
        } else {
            self.entries.push(ProcessEntry { name: what, handle });
            proof {
                let new_runs = entries_view(self.entries@);
                assert(new_runs =~= old_runs.push((w, handle)));
                if names_unique(old_runs) {
                    assert forall|a: int, b: int| 0 <= a < b < new_runs.len() implies #[trigger] new_runs[a].0 != #[trigger] new_runs[b].0 by {
                        if b == old_runs.len() {
                            assert(new_runs[a] == old_runs[a]);
                        } else {
                            assert(new_runs[a] == old_runs[a]);
                            assert(new_runs[b] == old_runs[b]);
                        }
                    }
                }
            }
            None
        }
    }
}

/// A child process to start: the program, its arguments and its working
/// directory, and the package and command it is for.
pub struct CargoRun {
    pub cmd_id: BuildCmdId,
    pub what: String,
    pub program: String,
    pub args: Vec<String>,
    pub path: String,
}

/// The build server: it knows the directory in which builds run.
pub struct BuildServer {
    path: String,
}

impl BuildServer {
    pub closed spec fn path(&self) -> Seq<char> {
        self.path@
    }

    pub fn new(path: String) -> (s: BuildServer)
        ensures
            s.path() == path@,
    {
        BuildServer { path }
    }

    pub fn connect<S: MsgSender>(&mut self, msg_sender: S) -> (c: BuildConnection<S>)
        ensures
            c.path() == old(self).path(),
            c.msg_sender() == msg_sender,
            *final(self) == *old(self),
    {
        BuildConnection { path: self.path.clone(), msg_sender }
    }
}

/// A studio's connection to the build server.
pub struct BuildConnection<S> {
    path: String,
    msg_sender: S,
}

impl<S: MsgSender> BuildConnection<S> {
    pub closed spec fn path(&self) -> Seq<char> {
        self.path@
    }

    pub closed spec fn msg_sender(&self) -> S {
        self.msg_sender
    }

    /// The sender of this connection's messages.
    pub fn sender(&self) -> (s: &S)
        ensures
            *s == self.msg_sender(),
    {
        &self.msg_sender
    }

    /// What a command asks for: for `CargoRun`, the `cargo run` of the
    /// package, in the server's directory, whose output goes to the command.
    pub fn handle_cmd(&self, cmd_wrap: BuildCmdWrap) -> (r: CargoRun)
        ensures
            match cmd_wrap.cmd {
                BuildCmd::CargoRun { what, render_to } => {
                    &&& r.cmd_id == cmd_wrap.cmd_id
                    &&& r.what@ == what@
                    &&& r.program@ == "cargo"@
                    &&& r.args.deep_view() == cargo_run_args(what@, render_to)
                    &&& r.path@ == self.path()
                },
            },
    {
        match cmd_wrap.cmd {
            BuildCmd::CargoRun { what, render_to } => {
                let args = cargo_run_arg_list(what.as_str(), render_to);
                CargoRun {
                    cmd_id: cmd_wrap.cmd_id,
                    what,
                    program: String::from_str("cargo"),
                    args,
                    path: self.path.clone(),
                }
            },
        }
    }
}

} // verus!
