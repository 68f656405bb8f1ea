use makepad_logic::build_protocol::{
    BuildCmd, BuildCmdId, BuildCmdWrap, BuildMsg, BuildMsgLevel, BuildMsgWrap, Position, Range,
};
use makepad_logic::build_server::{
    bare_msg, cargo_output_step, cargo_run_arg_list, compiler_message_to_msg, level_from_str,
    BuildServer, LoopControl, MsgSender, ProcessEvent, StdErrState,
};
use makepad_logic::rustc_json::{RustcCompilerMessage, RustcMessage, RustcSpan};
use std::cell::RefCell;

fn range() -> Range {
    Range { start: Position { line: 2, column: 4 }, end: Position { line: 2, column: 9 } }
}

fn span(primary: bool, file: &str) -> RustcSpan {
    RustcSpan { file_name: file.to_string(), is_primary: primary, range: range() }
}

fn compiler_msg(reason: &str, level: &str, text: &str, spans: Vec<RustcSpan>) -> RustcCompilerMessage {
    RustcCompilerMessage {
        reason: reason.to_string(),
        message: Some(RustcMessage { message: text.to_string(), level: level.to_string(), spans }),
        success: None,
    }
}

fn bare(w: &BuildMsgWrap) -> (u64, BuildMsgLevel, String) {
    match &w.msg {
        BuildMsg::Bare(b) => (w.cmd_id.0, b.level, b.line.clone()),
        BuildMsg::Location(_) => panic!("expected a bare message"),
    }
}

fn stderr(state: StdErrState, line: &str) -> (StdErrState, Option<(u64, BuildMsgLevel, String)>, LoopControl) {
    let (s, m, c) = cargo_output_step(BuildCmdId(7), state, &ProcessEvent::StdErr(line.to_string()));
    (s, m.as_ref().map(bare), c)
}

#[test]
fn levels_by_name() {
    assert_eq!(level_from_str("error"), Some(BuildMsgLevel::Error));
    assert_eq!(level_from_str("warning"), Some(BuildMsgLevel::Warning));
    assert_eq!(level_from_str("log"), Some(BuildMsgLevel::Log));
    assert_eq!(level_from_str("failure-note"), Some(BuildMsgLevel::Error));
    assert_eq!(level_from_str("panic"), Some(BuildMsgLevel::Panic));
    assert_eq!(level_from_str("note"), None);
}

#[test]
fn bare_messages_are_trimmed() {
    let w = bare_msg(BuildCmdId(3), BuildMsgLevel::Log, "  hello \n");
    assert_eq!(bare(&w), (3, BuildMsgLevel::Log, "hello".to_string()));
}

#[test]
fn stderr_first_state() {
    assert_eq!(
        stderr(StdErrState::First, "   Compiling foo v0.1.0"),
        (StdErrState::First, Some((7, BuildMsgLevel::Wait, "Compiling foo v0.1.0".to_string())), LoopControl::Continue)
    );
    assert_eq!(
        stderr(StdErrState::First, "    Finished dev [unoptimized] target(s)"),
        (StdErrState::Running, None, LoopControl::Continue)
    );
    assert_eq!(
        stderr(StdErrState::First, "error: could not compile `foo`"),
        (StdErrState::First, Some((7, BuildMsgLevel::Log, "error: could not compile `foo`".to_string())), LoopControl::Continue)
    );
    assert_eq!(
        stderr(StdErrState::First, "something else"),
        (StdErrState::Desync, Some((7, BuildMsgLevel::Error, "something else".to_string())), LoopControl::Continue)
    );
}

#[test]
fn stderr_running_state() {
    assert_eq!(
        stderr(StdErrState::Running, "     Running `target/debug/foo`"),
        (StdErrState::Sync, Some((7, BuildMsgLevel::Wait, "Running `target/debug/foo`".to_string())), LoopControl::Continue)
    );
    assert_eq!(
        stderr(StdErrState::Running, "warning: odd"),
        (StdErrState::Desync, Some((7, BuildMsgLevel::Error, "warning: odd".to_string())), LoopControl::Continue)
    );
}

#[test]
fn desync_is_final_and_sync_is_quiet() {
    let mut state = StdErrState::Desync;
    for line in ["   Compiling x", "Finished", "Running y"] {
        let (s, m, c) = stderr(state, line);
        assert_eq!(s, StdErrState::Desync);
        assert_eq!(m, Some((7, BuildMsgLevel::Error, line.trim().to_string())));
        assert_eq!(c, LoopControl::Continue);
        state = s;
    }
    assert_eq!(stderr(StdErrState::Sync, "anything"), (StdErrState::Sync, None, LoopControl::Continue));
}

#[test]
fn term_and_kill() {
    let (s, m, c) = cargo_output_step(BuildCmdId(1), StdErrState::Running, &ProcessEvent::Term);
    assert_eq!(s, StdErrState::Running);
    assert_eq!(m.as_ref().map(bare), Some((1, BuildMsgLevel::Log, "process terminated".to_string())));
    assert_eq!(c, LoopControl::Stop);
    let (s, m, c) = cargo_output_step(BuildCmdId(1), StdErrState::First, &ProcessEvent::Kill);
    assert_eq!(s, StdErrState::First);
    assert!(m.is_none());
    assert_eq!(c, LoopControl::Kill);
}

#[test]
fn stdout_lines() {
    let unparsed = ProcessEvent::StdOut { line: " plain output ".to_string(), parsed: None };
    let (s, m, c) = cargo_output_step(BuildCmdId(2), StdErrState::Sync, &unparsed);
    assert_eq!(s, StdErrState::Sync);
    assert_eq!(m.as_ref().map(bare), Some((2, BuildMsgLevel::Log, "plain output".to_string())));
    assert_eq!(c, LoopControl::Continue);

    let artifact = ProcessEvent::StdOut {
        line: "{}".to_string(),
        parsed: Some(compiler_msg("compiler-artifact", "error", "x", vec![])),
    };
    assert!(cargo_output_step(BuildCmdId(2), StdErrState::First, &artifact).1.is_none());

    let diag = ProcessEvent::StdOut {
        line: "{}".to_string(),
        parsed: Some(compiler_msg("compiler-message", "error", "mismatched types", vec![span(true, "src/a.rs")])),
    };
    let (_, m, _) = cargo_output_step(BuildCmdId(2), StdErrState::First, &diag);
    match m.unwrap().msg {
        BuildMsg::Location(l) => {
            assert_eq!(l.level, BuildMsgLevel::Error);
            assert_eq!(l.file_name, "src/a.rs");
            assert_eq!(l.msg, "mismatched types");
            assert_eq!(l.range, range());
        }
        BuildMsg::Bare(_) => panic!("expected a location message"),
    }
    let log = ProcessEvent::StdOut {
        line: "{}".to_string(),
        parsed: Some(compiler_msg("makepad-error-log", "log", "from the app", vec![])),
    };
    let (_, m, _) = cargo_output_step(BuildCmdId(2), StdErrState::First, &log);
    assert_eq!(m.as_ref().map(bare), Some((2, BuildMsgLevel::Warning, "from the app".to_string())));
}

#[test]
fn compiler_messages() {
    let id = BuildCmdId(9);
    // the first primary span is used
    let m = compiler_msg("compiler-message", "warning", "unused", vec![span(false, "a.rs"), span(true, "b.rs"), span(true, "c.rs")]);
    match compiler_message_to_msg(id, &m).unwrap().msg {
        BuildMsg::Location(l) => {
            assert_eq!(l.file_name, "b.rs");
            assert_eq!(l.level, BuildMsgLevel::Warning);
        }
        BuildMsg::Bare(_) => panic!("expected a location message"),
    }
    // unknown level
    let m = compiler_msg("compiler-message", "note", "x", vec![]);
    assert_eq!(
        compiler_message_to_msg(id, &m).as_ref().map(bare),
        Some((9, BuildMsgLevel::Error, "process_compiler_message: unexpected level note".to_string()))
    );
    // summaries are dropped
    for text in ["aborting due to 2 previous errors", " For more information about this error, try", "1 warning emitted", "3 warnings emitted "] {
        let m = compiler_msg("compiler-message", "error", text, vec![]);
        assert!(compiler_message_to_msg(id, &m).is_none());
    }
    // other messages without a span are sent as warnings
    let m = compiler_msg("compiler-message", "error", " linker failed ", vec![span(false, "a.rs")]);
    assert_eq!(compiler_message_to_msg(id, &m).as_ref().map(bare), Some((9, BuildMsgLevel::Warning, "linker failed".to_string())));
    // no message at all
    let m = RustcCompilerMessage { reason: "compiler-message".to_string(), message: None, success: None };
    assert!(compiler_message_to_msg(id, &m).is_none());
}

#[test]
fn cargo_arguments() {
    assert_eq!(
        cargo_run_arg_list("makepad-example", 42),
        vec!["run", "-p", "makepad-example", "--message-format=json", "--features=nightly", "--", "--message-format=json", "--render-to=42"]
    );
}

struct Collect(RefCell<Vec<BuildMsgWrap>>);

impl MsgSender for Collect {
    fn send_message(&self, wrap: BuildMsgWrap) {
        self.0.borrow_mut().push(wrap);
    }
}

#[test]
fn server_connection_and_command() {
    let mut server = BuildServer::new("/work".to_string());
    let conn = server.connect(Collect(RefCell::new(Vec::new())));
    let run = conn.handle_cmd(BuildCmdWrap {
        cmd_id: BuildCmdId(5),
        cmd: BuildCmd::CargoRun { what: "app".to_string(), render_to: 3 },
    });
    assert_eq!(run.cmd_id, BuildCmdId(5));
    assert_eq!(run.what, "app");
    assert_eq!(run.program, "cargo");
    assert_eq!(run.path, "/work");
    assert_eq!(run.args.last().unwrap(), "--render-to=3");

    let sender = conn.sender();
    sender.send_bare_msg(BuildCmdId(5), BuildMsgLevel::Wait, " hi ".to_string());
    sender.process_compiler_message(BuildCmdId(5), compiler_msg("compiler-message", "error", "aborting due to 1 previous error", vec![]));
    sender.send_location_msg(BuildCmdId(5), BuildMsgLevel::Panic, "m.rs".to_string(), range(), "boom".to_string());
    let sent = sender.0.borrow();
    assert_eq!(sent.len(), 2);
    assert_eq!(bare(&sent[0]), (5, BuildMsgLevel::Wait, "hi".to_string()));
    assert!(matches!(&sent[1].msg, BuildMsg::Location(l) if l.msg == "boom" && l.level == BuildMsgLevel::Panic));
}

use makepad_logic::build_server::ProcessTable;

#[test]
fn process_table_keeps_one_run_per_package() {
    let mut t: ProcessTable<u32> = ProcessTable::new();
    assert_eq!(t.register("app".to_string(), 1), None);
    assert_eq!(t.register("tool".to_string(), 2), None);
    assert_eq!(t.get("app"), Some(&1));
    assert_eq!(t.register("app".to_string(), 3), Some(1));
    assert_eq!(t.get("app"), Some(&3));
    assert_eq!(t.get("tool"), Some(&2));
    assert_eq!(t.get("other"), None);
    assert_eq!(t.entries.len(), 2);
    assert_eq!(t.entries[0].name, "app");
}
