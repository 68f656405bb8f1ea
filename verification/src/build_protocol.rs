//! Messages exchanged between the build server and the studio.
use vstd::prelude::*;

verus! {

/// Identifies the command that a message answers.
#[derive(Clone, Copy, Debug, PartialEq, Eq, Structural)]
pub struct BuildCmdId(pub u64);

#[derive(Clone, Copy, Debug, PartialEq, Eq, Structural)]
pub enum BuildMsgLevel {
    Wait,
    Log,
    Warning,
    Error,
    Panic,
}

/// A place in a text file, counted from zero.
#[derive(Clone, Copy, Debug, PartialEq, Eq, Structural)]
pub struct Position {
    pub line: usize,
    pub column: usize,
}

#[derive(Clone, Copy, Debug, PartialEq, Eq, Structural)]
pub struct Range {
    pub start: Position,
    pub end: Position,
}

#[derive(Clone, Debug)]
pub struct BuildMsgBare {
    pub line: String,
    pub level: BuildMsgLevel,
}

#[derive(Clone, Debug)]
pub struct BuildMsgLocation {
    pub level: BuildMsgLevel,
    pub file_name: String,
    pub range: Range,
    pub msg: String,
}

#[derive(Clone, Debug)]
pub enum BuildMsg {
    Bare(BuildMsgBare),
    Location(BuildMsgLocation),
}

#[derive(Clone, Debug)]
pub struct BuildMsgWrap {
    pub cmd_id: BuildCmdId,
    pub msg: BuildMsg,
}

#[derive(Clone, Debug)]
pub enum BuildCmd {
    CargoRun { what: String, render_to: u64 },
}

#[derive(Clone, Debug)]
pub struct BuildCmdWrap {
    pub cmd_id: BuildCmdId,
    pub cmd: BuildCmd,
}

/// What a message says, with its texts as character sequences.
pub enum MsgView {
    Bare { level: BuildMsgLevel, line: Seq<char> },
    Location { level: BuildMsgLevel, file_name: Seq<char>, range: Range, msg: Seq<char> },
}

impl View for BuildMsg {
    type V = MsgView;

    open spec fn view(&self) -> MsgView {
        match self {
            BuildMsg::Bare(b) => MsgView::Bare { level: b.level, line: b.line@ },
            BuildMsg::Location(l) => MsgView::Location {
                level: l.level,
                file_name: l.file_name@,
                range: l.range,
                msg: l.msg@,
            },
        }
    }
}

impl View for BuildMsgWrap {
    type V = (u64, MsgView);

    open spec fn view(&self) -> (u64, MsgView) {
        (self.cmd_id.0, self.msg@)
    }
}

/// The view of an optional message.
pub open spec fn opt_msg_view(m: Option<BuildMsgWrap>) -> Option<(u64, MsgView)> {
    match m {
        Some(w) => Some(w@),
        None => None,
    }
}

impl BuildCmdId {
    /// Addresses `msg` to this command.
    pub fn wrap_msg(&self, msg: BuildMsg) -> (w: BuildMsgWrap)
        ensures
            w.cmd_id == *self,
            w.msg == msg,
    {
        BuildMsgWrap { cmd_id: *self, msg }
    }
}

} // verus!
