//! Verified core logic of the Makepad studio build server, the Windows
//! drag-and-drop data object, the designer view and the editor shell state.
pub mod text;
pub mod build_protocol;
pub mod rustc_json;
pub mod build_server;
pub mod com;
pub mod enum_format_etc;
pub mod data_object;
pub mod editor_state;
pub mod designer_view;
pub mod bare_step;
pub mod frame;
