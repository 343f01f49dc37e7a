//! Persistent Linux namespaces, without the system calls.
//!
//! A sandbox keeps some kernel namespaces alive by bind-mounting their
//! `/proc` links onto files of its own. This crate decides what has to be
//! done for that, in which order, and what each failure means; it performs
//! none of it. A caller asks a session for its current [`step::Step`],
//! carries it out, and reports the [`step::Outcome`].

pub mod decimal;
pub mod flat;
pub mod idmap;
pub mod kind;
pub mod namespace;
pub mod procfs;
pub mod protocol;
pub mod step;
pub mod userns;
