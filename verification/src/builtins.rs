//! Built-in commands: a closed set, dispatched by name, run inside the shell
//! process.

use vstd::prelude::*;

use crate::expand::str_eq;
use crate::process::ExitStatus;
use crate::shell::Shell;

verus! {

broadcast use vstd::string::group_string_axioms;

/// Why dispatching a built-in failed.
#[derive(Clone, Copy, Debug, PartialEq, Eq, Structural)]
pub enum BuiltinCommandError {
    /// The name is not a built-in; the pipeline falls through to external
    /// execution. Never user-visible.
    NotFound,
}

impl BuiltinCommandError {
    pub fn message(&self) -> (r: &'static str)
        ensures
            r@ == "command not found"@,
    {
        "command not found"
    }
}

/// The `exit` built-in.
pub struct Exit;

impl Exit {
    /// Asks the shell to terminate with exit code 0. The verified engine
    /// cannot end the process, so it records the request and stops running
    /// further commands; the surrounding program observes `wants_exit`.
    pub fn run(&self, _argv: &Vec<String>, shell: &mut Shell) -> (r: ExitStatus)
        ensures
            r == ExitStatus::ExitedWith(0),
            *final(shell) == (Shell { wants_exit: true, ..*old(shell) }),
            old(shell).wf() ==> final(shell).wf(),
    {
        shell.wants_exit = true;
        ExitStatus::ExitedWith(0)
    }
}

/// The `cd` built-in, accepted as a no-op: directory tracking is outside
/// this core.
pub struct Cd;

impl Cd {
    pub fn run(&self, _argv: &Vec<String>, shell: &mut Shell) -> (r: ExitStatus)
        ensures
            r == ExitStatus::ExitedWith(0),
            *final(shell) == *old(shell),
    {
        ExitStatus::ExitedWith(0)
    }
}

/// A resolved built-in command.
pub enum Builtin {
    Exit(Exit),
    Cd(Cd),
}

/// Resolves a command name against the built-in table.
pub fn builtin_command(name: &str) -> (r: Option<Builtin>)
    ensures
        (r is Some) == (name@ == "exit"@ || name@ == "cd"@),
        name@ == "exit"@ ==> r matches Some(Builtin::Exit(_)),
        name@ == "cd"@ ==> r matches Some(Builtin::Cd(_)),
{
    proof {
        reveal_strlit("exit");
        reveal_strlit("cd");
        assert("exit"@.len() == 4);
        assert("cd"@.len() == 2);
    }
    if str_eq(name, "exit") {
        Some(Builtin::Exit(Exit))
    } else if str_eq(name, "cd") {
        Some(Builtin::Cd(Cd))
    } else {
        None
    }
}

/// Runs a resolved built-in in the shell process.
pub fn run_builtin(b: &Builtin, argv: &Vec<String>, shell: &mut Shell) -> (r: ExitStatus)
    ensures
        r == ExitStatus::ExitedWith(0),
        b matches Builtin::Exit(_) ==> *final(shell) == (Shell {
            wants_exit: true,
            ..*old(shell)
        }),
        b matches Builtin::Cd(_) ==> *final(shell) == *old(shell),
        old(shell).wf() ==> final(shell).wf(),
{
    match b {
        Builtin::Exit(e) => e.run(argv, shell),
        Builtin::Cd(c) => c.run(argv, shell),
    }
}

} // verus!
