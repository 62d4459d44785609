//! A minimalist cooperative operating-system runtime for embedded targets:
//! a round-robin executor with signals and wait semantics, a line-editing
//! console with history and pluggable command parsers, driver traits for the
//! board binding, and the small utilities they share.

pub mod builtin_cmds;
pub mod bytes;
pub mod cmd;
pub mod console;
pub mod convert;
pub mod driver;
pub mod executor;
pub mod fs;
pub mod fs_cmds;
pub mod lazy;
pub mod parse;
pub mod ringbuf;
pub mod rtc;
pub mod sys;
pub mod uart;
