//! Watches the host's process table and pauses a long-running compute
//! client while any watched process is active, resuming it when none are.
//!
//! The crate holds the verified core: resolving a process command line to
//! its executable base name, matching a snapshot of command lines against a
//! watch-list, the pause/unpause state machine, and the reconnect policy.
//! Process enumeration, configuration loading and the control-channel I/O
//! live outside the library and hand it plain values.

pub mod controller;
pub mod process;
pub mod supervisor;
