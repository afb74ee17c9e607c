//! An interactive process-level debugger for native binaries on x86-64
//! Linux: it adopts or attaches to a target process, drives the
//! trace-stop/resume protocol, plants and corrects breakpoints, and resolves
//! `file:line` source locations to machine addresses from embedded
//! line-number programs.
//!
//! The parts, leaves first: [`target`] wraps the kernel trace primitives
//! behind a ghost model of the stopped target's memory and registers;
//! [`breakpoint`] owns the table of planted breakpoints and the trap-byte
//! patching around every stop; [`symbol`] decodes line-number programs from
//! raw debug-section bytes and answers source-line queries; [`command`]
//! turns one line of user text into exactly one typed operation; and
//! [`session`] composes them into the control-loop state machine. Reading
//! command lines, printing, and spawning the child process stay outside the
//! library.

pub mod breakpoint;
pub mod command;
pub mod session;
pub mod symbol;
pub mod target;
