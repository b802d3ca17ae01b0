//! Core of a local orchestrator for a multi-node Redis cluster: the registry of
//! launched node processes, the rules of start, stop and health check, and the
//! text formats they rest on.
//!
//! The crate performs no I/O. A front end turns a command into a
//! [`runtime::Run`], performs the [`runtime::Action`] that the run asks for,
//! reports what happened as an [`runtime::Event`], and goes on until the run
//! asks it to finish.

pub mod cli;
pub mod config;
pub mod dotdir;
pub mod pid;
pub mod runtime;
pub mod text;
