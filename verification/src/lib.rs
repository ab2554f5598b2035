//! Willow: a rule-driven processor of file activity.
//!
//! Raw change notifications enter at a watcher, pass a static filter, wait in
//! the stability stage until the file is done being written, pass the I/O
//! filter and reach the sink, which runs the actions of every rule that is
//! still alive.
//!
//! This crate holds the decisions of each of those steps, with contracts that
//! Verus proves.  The world outside comes in through two traits that the host
//! implements, [`fs::Fs`] and [`actions::Launcher`], and as plain values:
//! paths are texts, and times are milliseconds on a clock of the host's
//! choosing that does not run backwards.  Nothing is assumed of what the
//! traits answer; a contract says which questions were asked and what was
//! made of the answers.  Threads, channels and the notification source of the
//! host stay with the caller.
//!
//! Three outside crates are called, each behind a wrapper whose contract is
//! taken on trust: `regex` and `glob` compile and match the patterns of
//! conditions, and `chrono` writes out, for templates, the date and time that
//! the clock of the host shows.  None of the wrappers can unwind.

pub mod action;
pub mod actions;
pub mod condition;
pub mod conditions;
pub mod config;
pub mod engine;
pub mod error;
pub mod fs;
pub mod models;
pub mod paths;
pub mod template;
pub mod text;
pub mod watcher;
