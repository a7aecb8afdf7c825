//! The command layer of a client for a task-queue daemon.
//!
//! The daemon owns a queue of shell commands, its tasks. A client fetches a
//! snapshot of them, decides what to ask of the daemon, and reports what came
//! of it. This library holds those decisions: resolving requested ids against
//! a snapshot, duplicating tasks, and the lines that the read-only commands
//! print. Talking to the daemon and to the terminal is left to the caller.

mod clock;
pub mod cmd;
pub mod copy;
pub mod environment;
pub mod message;
pub mod order;
pub mod output;
pub mod state;
pub mod task;
pub mod text;

