//! Trusted bindings to the operating system through the `nix` crate, and to
//! the standard error stream.
//!
//! Nothing here is verified: each item's doc comment names the outside call
//! it relies on. A kernel failure the shell cannot continue from (a lost
//! terminal, an impossible wait status) aborts the process, since the engine
//! treats such failures as fatal.

use vstd::prelude::*;

use std::io::Write;

use nix::sys::wait::{waitpid, WaitPidFlag, WaitStatus};

verus! {

/// Attributes of the controlling terminal, held opaquely.
#[verifier::external_type_specification]
#[verifier::external_body]
pub struct ExTermios(nix::sys::termios::Termios);

/// A child-status event reported by the kernel wait primitive.
#[derive(Clone, Copy, Debug, PartialEq, Eq, Structural)]
pub enum WaitEvent {
    /// The process exited by itself; carries its pid and exit code.
    Exited(i32, i32),
    /// The process was killed by a signal; carries its pid.
    Signaled(i32),
    /// The process was stopped by a signal; carries its pid.
    Stopped(i32),
    /// No child had a status to report.
    NoChild,
}

/// Relies on nix::unistd::getpid, which never fails and returns the calling
/// process's id, a positive number.
#[verifier::external_body]
pub fn current_pid() -> (r: i32)
    ensures
        r >= 1,
{
    nix::unistd::getpid().as_raw()
}

/// Relies on nix::sys::termios::tcgetattr on standard input. Aborts if the
/// kernel call fails; the engine only reads terminal attributes when it is
/// interactive.
#[verifier::external_body]
pub fn get_terminal_attrs() -> nix::sys::termios::Termios {
    nix::sys::termios::tcgetattr(0).expect("failed to tcgetattr")
}

/// Relies on nix::unistd::tcsetpgrp on standard input: makes `pgid` the
/// foreground process group of the controlling terminal. Aborts on failure.
#[verifier::external_body]
pub fn set_terminal_process_group(pgid: i32) {
    nix::unistd::tcsetpgrp(0, nix::unistd::Pid::from_raw(pgid)).expect("failed to tcsetpgrp")
}

/// Relies on nix::sys::termios::tcsetattr on standard input with TCSADRAIN:
/// installs the given attributes once pending output has drained. Aborts on
/// failure.
#[verifier::external_body]
pub fn restore_terminal_attrs(termios: &nix::sys::termios::Termios) {
    nix::sys::termios::tcsetattr(0, nix::sys::termios::SetArg::TCSADRAIN, termios)
        .expect("failed to tcsetattr")
}

/// Relies on nix::unistd::setpgid: moves `pid` into the process group `pgid`,
/// as the race-free parent-side counterpart of the child's own call. Aborts
/// on failure.
#[verifier::external_body]
pub fn set_process_group(pid: i32, pgid: i32) {
    nix::unistd::setpgid(nix::unistd::Pid::from_raw(pid), nix::unistd::Pid::from_raw(pgid))
        .expect("failed to setpgid")
}

/// Relies on nix::sys::wait::waitpid over all children, with WUNTRACED so
/// stopped children are reported, and WNOHANG when `no_block` is set. Which
/// event comes back depends on the kernel's scheduling, so nothing is assumed
/// of the result. "No children" and "still alive" both come back as
/// `NoChild`; any other event the engine treats as fatal, so it aborts here.
#[verifier::external_body]
pub fn wait_next_event(no_block: bool) -> (e: WaitEvent) {
    let options = if no_block {
        WaitPidFlag::WUNTRACED | WaitPidFlag::WNOHANG
    } else {
        WaitPidFlag::WUNTRACED
    };
    match waitpid(None, Some(options)) {
        Ok(WaitStatus::Exited(pid, status)) => WaitEvent::Exited(pid.as_raw(), status),
        Ok(WaitStatus::Signaled(pid, _signal, _)) => WaitEvent::Signaled(pid.as_raw()),
        Ok(WaitStatus::Stopped(pid, _signal)) => WaitEvent::Stopped(pid.as_raw()),
        Ok(WaitStatus::StillAlive) | Err(nix::errno::Errno::ECHILD) => WaitEvent::NoChild,
        _ => None::<WaitEvent>.expect("unexpected waitpid event"),
    }
}

/// Relies on nix::unistd::pipe: returns `(read_end, write_end)` of a fresh
/// anonymous pipe. Aborts on failure, as the engine treats resource
/// exhaustion at pipe creation as fatal.
#[verifier::external_body]
pub fn create_pipe() -> (i32, i32) {
    nix::unistd::pipe().expect("failed to create a pipe")
}

/// Relies on nix::unistd::close: releases the parent's copy of a pipe
/// endpoint once the child has been forked. Aborts on failure.
#[verifier::external_body]
pub fn close_fd(fd: i32) {
    nix::unistd::close(fd).expect("failed to close pipe")
}

/// Relies on std::io::stderr: prints one diagnostic line. A write error is
/// ignored, as the shell has nowhere else to report it.
#[verifier::external_body]
pub fn print_error_line(line: &str) {
    let _ = writeln!(std::io::stderr(), "{}", line);
}

/// Relies on std::io::stderr: prints the notice for a foreground job that was
/// stopped by a signal. A write error is ignored.
#[verifier::external_body]
pub fn report_job_stopped(id: usize, cmd: &str) {
    let _ = writeln!(std::io::stderr(), "[{}] Stopped: {}", id, cmd);
}

} // verus!
