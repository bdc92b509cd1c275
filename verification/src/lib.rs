//! Unattended synchronisation of one working tree against its remote, with
//! git as transport.
//!
//! The crate holds the decisions of a sync run: how the porcelain status
//! stream decodes into change records, which records are staged, what the
//! commit message says, which git command follows which, and how the exit of
//! each command is judged. Running the commands and delivering notifications
//! is left to the caller, which feeds each command's output back in.

pub mod clock;
pub mod exit;
pub mod git;
pub mod notify;
pub mod sync;
pub mod text;
