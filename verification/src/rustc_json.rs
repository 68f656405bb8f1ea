//! The parts of rustc's and cargo's JSON diagnostics that the build server reads.
use crate::build_protocol::Range;
use vstd::prelude::*;

verus! {

#[derive(Clone, Debug)]
pub struct RustcSpan {
    pub file_name: String,
    pub is_primary: bool,
    /// The span's place in its file.
    pub range: Range,
}

#[derive(Clone, Debug)]
pub struct RustcMessage {
    pub message: String,
    pub level: String,
    pub spans: Vec<RustcSpan>,
}

#[derive(Clone, Debug)]
pub struct RustcCompilerMessage {
    pub reason: String,
    pub message: Option<RustcMessage>,
    pub success: Option<bool>,
}

} // verus!
