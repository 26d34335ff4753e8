//! Core execution engine of a small interactive Unix shell.
//!
//! Given a parsed script, the engine sequences terms and pipelines under the
//! `&&` / `||` / `;` conditions, dispatches built-in commands, resolves and
//! spawns external commands into POSIX process groups, reaps children, and
//! tracks job and process state together with controlling-terminal custody.

pub mod ast;
pub mod builtins;
pub mod expand;
pub mod process;
pub mod shell;
pub mod eval;
pub mod kernel;
