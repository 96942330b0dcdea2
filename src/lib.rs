//! Orchestration of a two-step analysis run: decoding of the command-line
//! flags into a [`config::Config`], construction of the collaborator command
//! lines, and the verified decision logic of the run itself.
//!
//! Everything here is pure: the filesystem probes, directory creation and
//! process launches are performed by the caller, who reports their outcome
//! back to the [`run::Run`] state machine.

pub mod text;
pub mod flags;
pub mod decimal;
pub mod config;
pub mod run;
