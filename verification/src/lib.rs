//! The core of a terminal session manager.
//!
//! A session is a child process behind a pseudo-terminal, kept alive by a
//! daemon and reached through a Unix-domain socket. This crate holds what the
//! manager computes and decides; the program around it performs the system
//! calls and reports back what came of them.

pub mod app_log;
pub mod attach;
pub mod cli;
pub mod client_laws;
pub mod client;
pub mod command_laws;
pub mod daemon_laws;
pub mod listing;
pub mod listing_laws;
pub mod protocol;
pub mod pty;
pub mod report;
pub mod scrollback;
pub mod session;
pub mod session_daemon;
pub mod session_log;
pub mod sock;
pub mod sys;
pub mod term;
pub mod text;
pub mod text_laws;
pub mod util;
pub mod wire_laws;
