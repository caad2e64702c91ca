//! The engine of a file-tree mirror: it decides when the rules of a project
//! are synced, and what each sync runs.
//!
//! A project is a named group of sync rules. A [`session::WatchSession`]
//! takes the filesystem events of one project, gathers the rule roots that
//! changed during a debounce window into a [`batch::PendingBatch`], and
//! hands out scripts of [`action::Action`]s: which processes to cancel or
//! to wait for, and which syncs to start. An
//! [`invocation::SyncRun`] is one such sync: the transfer and the hooks
//! of a rule, run in order until one fails fatally.
//!
//! The engine performs no input or output. Its driver watches, sleeps and
//! runs processes, and reports back what happened.

pub mod action;
pub mod batch;
pub mod command;
pub mod config;
pub mod error;
pub mod event;
pub mod flags;
pub mod invocation;
pub mod laws;
pub mod process;
pub mod resolve;
pub mod select;
pub mod session;
pub mod supervisor;
pub mod sync;
pub mod text;
