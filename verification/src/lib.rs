//! apprunner: run, monitor and attach to local development processes from a
//! terminal interface, and front HTTP APIs with header-injecting masks.
//!
//! This crate holds the logic: template variables, restart policy, runtime
//! alerts, request logs, form editing and validation, key bindings, the
//! terminal scrollback and the application state machine.

use vstd::prelude::*;

pub mod alerts;
pub mod app;
pub mod clock;
pub mod db;
pub mod effects;
pub mod ghostty;
pub mod json;
pub mod mask;
pub mod process;
pub mod strmap;
pub mod template;
pub mod text;
pub mod tui;
pub mod vt;

verus! {
} // verus!
