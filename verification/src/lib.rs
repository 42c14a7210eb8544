//! Verified decision logic of the DeepSeek Harness Windows shell.
//!
//! The shell wraps a Node "dsh" web backend (the sidecar) in a desktop window.
//! Everything that touches the operating system (processes, files, sockets,
//! the window, the tray) lives in `app/`; this crate holds the decisions that
//! the shell makes between those effects, each with a contract.

pub mod text;
pub mod json;
pub mod jsontext;
pub mod manifest;
pub mod fspath;
pub mod runtime;
pub mod launch;
pub mod plugin;
pub mod net;
pub mod shell;
