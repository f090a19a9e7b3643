//! Building blocks of an online judge: compiler dispatch and a sandboxed
//! runner with resource limits and a system call filter.
//!
//! The crate decides; it performs no input or output itself. Every step that
//! touches the operating system is handed to the caller as a plain value, and
//! what the operating system answers is handed back as one.
pub mod compiler;
pub mod executor;
pub mod paths;
pub mod runner;
pub mod structures;
pub mod text;
pub mod time;

pub use compiler::Compiler;
pub use runner::{Runner, RunnerReport};
pub use structures::{Problem, Report, Resource, Source, Task, TestCase};
pub use time::Duration;
