//! Core of a Pomodoro-style focus timer with a small task tracker.
//!
//! The library holds the verified heart of the application: the phase
//! timer state machine, the application shell that dispatches events and
//! emits persistence commands, the task-list reconciliation rules, the
//! lightweight on-disk document codec, and the small pure helpers that
//! the front ends share. All I/O (database, terminal, window) lives in
//! the unverified host around this crate; it drives the state machine
//! with events and carries out the commands the machine returns.

pub mod cli;
pub mod fmt;
pub mod persist;
pub mod session;
pub mod shell;
pub mod task;
pub mod text;
pub mod timer;
