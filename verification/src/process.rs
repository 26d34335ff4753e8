//! Processes and jobs: the state a pipeline leaves behind, the reaper that
//! turns kernel wait events into state transitions, the terminal controller
//! for foreground jobs, and the spawning of external commands.

use vstd::prelude::*;

use crate::builtins::{builtin_command, run_builtin, BuiltinCommandError};
use crate::shell::{PathEntry, Shell};
use crate::kernel;
use crate::kernel::WaitEvent;

verus! {

broadcast use vstd::std_specs::hash::group_hash_axioms;

/// The process execution context a command is launched under.
#[derive(Debug, Copy, Clone)]
pub struct Context {
    /// The process group the command joins; `None` makes it the group leader.
    pub pgid: Option<i32>,
    /// The command should be executed in the background.
    pub background: bool,
    /// The shell is attached to a terminal.
    pub interactive: bool,
}

/// The exit status or reason why a command stopped running.
#[derive(Debug, Copy, Clone, Eq, PartialEq, Structural)]
pub enum ExitStatus {
    ExitedWith(i32),
    Running(i32),
}

/// The observed life-cycle state of one process.
#[derive(Debug, Copy, Clone, Eq, PartialEq, Structural)]
pub enum ProcessState {
    Running,
    /// Contains the exit code, or -1 for a signal-terminated process.
    Completed(i32),
    /// Suspended by a stop signal; contains the pid.
    Stopped(i32),
}

/// The identifier of a job, a small positive integer unique among live jobs.
#[derive(Debug, Copy, Clone, PartialEq, Eq, Structural)]
pub struct JobId(pub usize);

impl JobId {
    pub fn new(id: usize) -> (r: JobId)
        ensures
            r.0 == id,
    {
        JobId(id)
    }
}

/// One pipeline execution tracked for job control.
pub struct Job {
    pub id: JobId,
    /// The process group id: the pid of the first process of the pipeline.
    pub pgid: i32,
    /// The original source text of the pipeline, for display.
    pub cmd: String,
    /// The pids of the job, in pipeline order.
    pub processes: Vec<i32>,
    /// Terminal attributes captured when the job lost the foreground.
    pub termios: Option<nix::sys::termios::Termios>,
}

/// Every pid of the job has an entry in the state table.
pub open spec fn all_states_present(job: Job, states: Map<i32, ProcessState>) -> bool {
    forall|i: int|
        0 <= i < job.processes@.len() ==> states.contains_key(#[trigger] job.processes@[i])
}

/// Every process of the job has completed.
pub open spec fn job_completed(job: Job, states: Map<i32, ProcessState>) -> bool {
    forall|i: int|
        0 <= i < job.processes@.len() ==> states[#[trigger] job.processes@[i]] is Completed
}

/// Every process of the job is stopped.
pub open spec fn job_stopped(job: Job, states: Map<i32, ProcessState>) -> bool {
    forall|i: int|
        0 <= i < job.processes@.len() ==> states[#[trigger] job.processes@[i]] is Stopped
}

impl Job {
    pub fn new(id: JobId, pgid: i32, cmd: String, processes: Vec<i32>) -> (r: Job)
        ensures
            r == (Job { id, pgid, cmd, processes, termios: None::<nix::sys::termios::Termios> }),
    {
        Job { id, pgid, cmd, processes, termios: None }
    }

    /// Whether every process of this job has completed, per the shell's
    /// state table.
    pub fn completed(&self, shell: &Shell) -> (r: bool)
        requires
            all_states_present(*self, shell.states@),
        ensures
            r == job_completed(*self, shell.states@),
    {
        let n = self.processes.len();
        let mut i: usize = 0;
        while i < n
            invariant
                i <= n,
                n == self.processes@.len(),
                all_states_present(*self, shell.states@),
                forall|j: int|
                    0 <= j < i ==> shell.states@[#[trigger] self.processes@[j]] is Completed,
            decreases n - i,
        {
            let pid = self.processes[i];
            match shell.get_process_state(pid) {
                Some(ProcessState::Completed(_)) => {},
                _ => {
                    return false;
                },
            }
            i = i + 1;
        }
        true
    }

    /// Whether every process of this job is stopped, per the shell's state
    /// table.
    pub fn stopped(&self, shell: &Shell) -> (r: bool)
        requires
            all_states_present(*self, shell.states@),
        ensures
            r == job_stopped(*self, shell.states@),
    {
        let n = self.processes.len();
        let mut i: usize = 0;
        while i < n
            invariant
                i <= n,
                n == self.processes@.len(),
                all_states_present(*self, shell.states@),
                forall|j: int|
                    0 <= j < i ==> shell.states@[#[trigger] self.processes@[j]] is Stopped,
            decreases n - i,
        {
            let pid = self.processes[i];
            match shell.get_process_state(pid) {
                Some(ProcessState::Stopped(_)) => {},
                _ => {
                    return false;
                },
            }
            i = i + 1;
        }
        true
    }
}

/// Forks and execs external commands. Forking cannot be done by the verified
/// engine, so it goes through this trait; the surrounding program supplies
/// the implementation. Nothing is assumed of the returned pid: every caller
/// treats it as arbitrary.
pub trait Spawner {
    /// Launches `path` with the given argv under `ctx`, handing the child the
    /// terminal attributes it must restore when it takes the foreground.
    /// Returns the child's pid.
    fn spawn(
        &mut self,
        path: &String,
        argv: &Vec<String>,
        ctx: &Context,
        shell_termios: &Option<nix::sys::termios::Termios>,
    ) -> i32;
}

/// What a freshly forked child must do before exec, decided from the launch
/// context alone.
pub struct ChildPlan {
    /// Join (or create) a process group; done only in interactive mode.
    pub set_group: bool,
    /// The process group to join; the child's own pid when it leads.
    pub pgid: i32,
    /// Take the controlling terminal and restore the shell's attributes.
    pub transfer_terminal: bool,
    /// Reset the job-control signals to their default dispositions.
    pub reset_signals: bool,
}

/// Decides the child-side launch steps. The signal dispositions the shell
/// ignores or handles are reset exactly in interactive mode; the terminal is
/// transferred only to an interactive foreground child; the child leads a new
/// group when the pipeline has none yet.
pub fn child_plan(ctx: &Context, self_pid: i32) -> (r: ChildPlan)
    ensures
        r.set_group == ctx.interactive,
        r.reset_signals == ctx.interactive,
        r.transfer_terminal == (ctx.interactive && !ctx.background),
        r.pgid == (match ctx.pgid {
            Some(g) => g,
            None => self_pid,
        }),
{
    let pgid = match ctx.pgid {
        Some(g) => g,
        None => self_pid,
    };
    ChildPlan {
        set_group: ctx.interactive,
        pgid,
        transfer_terminal: ctx.interactive && !ctx.background,
        reset_signals: ctx.interactive,
    }
}

/// The state transition a wait event causes: a normal exit records the exit
/// code, a signal death records -1, a stop records the stopped state, and
/// "nothing to report" changes nothing.
pub open spec fn event_transition(e: WaitEvent) -> Option<(i32, ProcessState)> {
    match e {
        WaitEvent::Exited(pid, status) => Some((pid, ProcessState::Completed(status))),
        WaitEvent::Signaled(pid) => Some((pid, ProcessState::Completed(-1i32))),
        WaitEvent::Stopped(pid) => Some((pid, ProcessState::Stopped(pid))),
        WaitEvent::NoChild => None,
    }
}

/// Applies one kernel wait event to the state table; returns the pid whose
/// state changed. The whole translation of events to transitions lives here,
/// verified for every event the kernel could report.
pub fn apply_wait_event(shell: &mut Shell, event: WaitEvent) -> (r: Option<i32>)
    ensures
        match event_transition(event) {
            Some((pid, state)) => r == Some(pid) && final(shell).states@ == old(
                shell,
            ).states@.insert(pid, state) && *final(shell) == (Shell {
                states: final(shell).states,
                ..*old(shell)
            }),
            None => r is None && *final(shell) == *old(shell),
        },
        old(shell).wf() ==> final(shell).wf(),
{
    let (pid, state) = match event {
        WaitEvent::Exited(pid, status) => (pid, ProcessState::Completed(status)),
        WaitEvent::Signaled(pid) => (pid, ProcessState::Completed(-1)),
        WaitEvent::Stopped(pid) => (pid, ProcessState::Stopped(pid)),
        WaitEvent::NoChild => {
            return None;
        },
    };
    shell.set_process_state(pid, state);
    Some(pid)
}

/// Asks the kernel for one child-status event and applies it. Which event
/// comes back is the kernel's choice, so all that is promised is that the
/// one recorded state is terminal for the wait (completed or stopped), and
/// that nothing else changed.
pub fn wait_for_any_process(shell: &mut Shell, no_block: bool) -> (r: Option<i32>)
    ensures
        match r {
            None => *final(shell) == *old(shell),
            Some(pid) => {
                let s = final(shell).states@[pid];
                &&& (s is Completed || s is Stopped)
                &&& final(shell).states@ == old(shell).states@.insert(pid, s)
                &&& *final(shell) == (Shell { states: final(shell).states, ..*old(shell) })
            },
        },
        old(shell).wf() ==> final(shell).wf(),
{
    let event = kernel::wait_next_event(no_block);
    apply_wait_event(shell, event)
}

/// Removes a job whose processes have all completed and whose exit the
/// foreground wait path has observed. State-table and pid-index entries of
/// the dead pids are left for the kernel to reuse; lookups never report them
/// as live.
pub fn destroy_job(shell: &mut Shell, job_id: usize)
    requires
        old(shell).wf(),
        old(shell).jobs@.contains_key(job_id),
    ensures
        final(shell).wf(),
        final(shell).jobs@ == old(shell).jobs@.remove(job_id),
        final(shell).last_fore_job == (if old(shell).last_fore_job == Some(job_id) {
            None::<usize>
        } else {
            old(shell).last_fore_job
        }),
        *final(shell) == (Shell {
            jobs: final(shell).jobs,
            last_fore_job: final(shell).last_fore_job,
            ..*old(shell)
        }),
{
    let _ = shell.jobs.remove(&job_id);
    if let Some(last) = shell.last_fore_job {
        if last == job_id {
            shell.last_fore_job = None;
        }
    }
    proof {
        assert forall|jid: usize| shell.jobs@.contains_key(jid) implies shell.job_wf(jid) by {
            assert(old(shell).jobs@.contains_key(jid));
            assert(old(shell).job_wf(jid));
        }
    }
}

/// Every process of the job has reached a state that is terminal for the
/// wait: completed or stopped. A mixed outcome qualifies.
pub open spec fn job_terminal(job: Job, states: Map<i32, ProcessState>) -> bool {
    forall|i: int|
        0 <= i < job.processes@.len() ==> (states[#[trigger] job.processes@[i]] is Completed
            || states[job.processes@[i]] is Stopped)
}

/// The foreground wait on the job is over: every pid is terminal for the
/// wait.
pub open spec fn job_wait_over(shell: Shell, job_id: usize) -> bool {
    job_terminal(shell.jobs@[job_id], shell.states@)
}

/// Whether the foreground wait on the job is over.
fn job_wait_done(shell: &Shell, job_id: usize) -> (r: bool)
    requires
        shell.wf(),
        shell.jobs@.contains_key(job_id),
    ensures
        r == job_wait_over(*shell, job_id),
{
    let job = shell.get_job(job_id).unwrap();
    proof {
        assert(shell.job_wf(job_id));
    }
    let n = job.processes.len();
    let mut i: usize = 0;
    while i < n
        invariant
            i <= n,
            shell.jobs@.contains_key(job_id),
            *job == shell.jobs@[job_id],
            n == job.processes@.len(),
            all_states_present(*job, shell.states@),
            forall|j: int|
                0 <= j < i ==> (shell.states@[#[trigger] job.processes@[j]] is Completed
                    || shell.states@[job.processes@[j]] is Stopped),
        decreases n - i,
    {
        let pid = job.processes[i];
        match shell.get_process_state(pid) {
            Some(ProcessState::Completed(_)) => {},
            Some(ProcessState::Stopped(_)) => {},
            _ => {
                proof {
                    assert(shell.states@.contains_key(job.processes@[i as int]));
                    assert(!(shell.states@[job.processes@[i as int]] is Completed
                        || shell.states@[job.processes@[i as int]] is Stopped));
                }
                return false;
            },
        }
        i = i + 1;
    }
    true
}

/// Blocks until every process of the job is completed or stopped, then
/// inspects the last process: a completed one has the job destroyed and its
/// state returned; a stopped one leaves the job registered and announces it
/// on standard error. Gives up (returning nothing) only after more blocking
/// kernel waits than any execution can produce, so that every round is
/// measurably counted.
pub fn wait_for_job(shell: &mut Shell, job_id: usize) -> (r: Option<ProcessState>)
    requires
        old(shell).wf(),
        old(shell).jobs@.contains_key(job_id),
    ensures
        final(shell).wf(),
        *final(shell) == (Shell {
            states: final(shell).states,
            jobs: final(shell).jobs,
            last_fore_job: final(shell).last_fore_job,
            ..*old(shell)
        }),
        forall|p: i32|
            old(shell).states@.contains_key(p) ==> final(shell).states@.contains_key(p),
        match r {
            Some(state) => {
                &&& state is Completed || state is Stopped
                &&& state == final(shell).states@[old(shell).jobs@[job_id].processes@.last()]
                &&& job_terminal(old(shell).jobs@[job_id], final(shell).states@)
                &&& (state is Completed ==> final(shell).jobs@ == old(shell).jobs@.remove(job_id)
                    && final(shell).last_fore_job == (if old(shell).last_fore_job == Some(
                    job_id,
                ) {
                    None::<usize>
                } else {
                    old(shell).last_fore_job
                }))
                &&& (state is Stopped ==> final(shell).jobs@ == old(shell).jobs@
                    && final(shell).last_fore_job == old(shell).last_fore_job)
            },
            None => final(shell).jobs@ == old(shell).jobs@ && final(shell).last_fore_job == old(
                shell,
            ).last_fore_job && !job_wait_over(*old(shell), job_id),
        },
{
    let mut fuel: u64 = u64::MAX;
    let mut done = job_wait_done(shell, job_id);
    while !done && fuel > 0
        invariant
            shell.wf(),
            shell.jobs@ == old(shell).jobs@,
            shell.jobs@.contains_key(job_id),
            *shell == (Shell { states: shell.states, ..*old(shell) }),
            done == job_wait_over(*shell, job_id),
            forall|p: i32|
                old(shell).states@.contains_key(p) ==> shell.states@.contains_key(p),
            job_wait_over(*old(shell), job_id) ==> done,
        decreases fuel,
    {
        wait_for_any_process(shell, false);
        done = job_wait_done(shell, job_id);
        fuel = fuel - 1;
    }
    if !done {
        return None;
    }
    let (last_pid, jid_val) = {
        let job = shell.get_job(job_id).unwrap();
        (job.processes[job.processes.len() - 1], job.id.0)
    };
    let state = match shell.get_process_state(last_pid) {
        Some(s) => s,
        None => {
            proof {
                assert(false);
            }
            ProcessState::Running
        },
    };
    proof {
        let job = shell.jobs@[job_id];
        assert(job.processes@.last() == job.processes@[job.processes@.len() - 1]);
    }
    match state {
        ProcessState::Completed(_) => {
            destroy_job(shell, job_id);
            Some(state)
        },
        ProcessState::Stopped(_) => {
            let job = shell.get_job(job_id).unwrap();
            kernel::report_job_stopped(jid_val, job.cmd.as_str());
            Some(state)
        },
        ProcessState::Running => {
            proof {
                assert(false);
            }
            Some(state)
        },
    }
}

/// The interactive foreground path: hand the terminal to the job's group,
/// wait, snapshot the terminal attributes the job left (kept on a stopped
/// job so resuming restores them), then take the terminal back and restore
/// the shell's own attributes.
pub fn run_in_foreground(shell: &mut Shell, job_id: usize) -> (r: Option<ProcessState>)
    requires
        old(shell).wf(),
        old(shell).jobs@.contains_key(job_id),
        old(shell).interactive,
    ensures
        final(shell).wf(),
        *final(shell) == (Shell {
            states: final(shell).states,
            jobs: final(shell).jobs,
            last_fore_job: final(shell).last_fore_job,
            ..*old(shell)
        }),
        forall|p: i32|
            old(shell).states@.contains_key(p) ==> final(shell).states@.contains_key(p),
        match r {
            Some(state) => {
                &&& state is Completed || state is Stopped
                &&& state == final(shell).states@[old(shell).jobs@[job_id].processes@.last()]
                &&& job_terminal(old(shell).jobs@[job_id], final(shell).states@)
                &&& (state is Completed ==> final(shell).jobs@ == old(shell).jobs@.remove(job_id)
                    && final(shell).last_fore_job is None)
                &&& (state is Stopped ==> {
                    let j_old = old(shell).jobs@[job_id];
                    let j_new = final(shell).jobs@[job_id];
                    &&& final(shell).jobs@.contains_key(job_id)
                    &&& j_new.id == j_old.id
                    &&& j_new.pgid == j_old.pgid
                    &&& j_new.cmd == j_old.cmd
                    &&& j_new.processes == j_old.processes
                    &&& j_new.termios is Some
                    &&& final(shell).jobs@.remove(job_id) == old(shell).jobs@.remove(job_id)
                    &&& final(shell).last_fore_job == Some(job_id)
                })
            },
            None => final(shell).jobs@.contains_key(job_id) && !job_terminal(
                old(shell).jobs@[job_id],
                old(shell).states@,
            ),
        },
{
    shell.last_fore_job = Some(job_id);
    let pgid = shell.get_job(job_id).unwrap().pgid;
    kernel::set_terminal_process_group(pgid);

    let status = wait_for_job(shell, job_id);

    // Save the terminal state the job left behind.
    let attrs = kernel::get_terminal_attrs();
    if shell.jobs_contains(job_id) {
        let mut job = shell.jobs.remove(&job_id).unwrap();
        job.termios = Some(attrs);
        let ghost mid = *shell;
        shell.jobs.insert(job_id, job);
        proof {
            assert(shell.jobs@ =~= mid.jobs@.insert(job_id, shell.jobs@[job_id]));
            assert forall|jid: usize| shell.jobs@.contains_key(jid) implies shell.job_wf(jid) by {
                assert(mid.jobs@.insert(job_id, shell.jobs@[job_id]).contains_key(jid));
                if jid != job_id {
                    assert(mid.job_wf(jid));
                }
            }
        }
    }

    // Go back into the shell.
    kernel::set_terminal_process_group(shell.shell_pgid);
    match &shell.shell_termios {
        Some(t) => kernel::restore_terminal_attrs(t),
        None => {
            proof {
                assert(false);
            }
        },
    }
    proof {
        if status matches Some(s) && s is Stopped {
            assert(shell.jobs@.remove(job_id) =~= old(shell).jobs@.remove(job_id));
        }
    }
    status
}

/// Runs a built-in command in the shell process; `Err(NotFound)` lets the
/// pipeline fall through to external execution, and comes exactly when the
/// name is no built-in.
pub fn run_internal_command(shell: &mut Shell, argv: &Vec<String>) -> (r: Result<
    ExitStatus,
    BuiltinCommandError,
>)
    requires
        argv@.len() > 0,
    ensures
        (r is Err) == !(argv@[0]@ == "exit"@ || argv@[0]@ == "cd"@),
        r is Err ==> r == Err::<ExitStatus, BuiltinCommandError>(BuiltinCommandError::NotFound)
            && *final(shell) == *old(shell),
        argv@[0]@ == "exit"@ ==> r == Ok::<ExitStatus, BuiltinCommandError>(
            ExitStatus::ExitedWith(0),
        ) && *final(shell) == (Shell { wants_exit: true, ..*old(shell) }),
        argv@[0]@ == "cd"@ ==> r == Ok::<ExitStatus, BuiltinCommandError>(
            ExitStatus::ExitedWith(0),
        ) && *final(shell) == *old(shell),
        old(shell).wf() ==> final(shell).wf(),
{
    let command = match builtin_command(argv[0].as_str()) {
        Some(c) => c,
        None => {
            return Err(BuiltinCommandError::NotFound);
        },
    };
    let result = run_builtin(&command, argv, shell);
    proof {
        reveal_strlit("exit");
        reveal_strlit("cd");
        assert("exit"@.len() == 4);
        assert("cd"@.len() == 2);
    }
    Ok(result)
}

/// The name names a program directly, without a PATH search: it starts with
/// `/` or with `./`.
pub open spec fn is_direct_path(name: Seq<char>) -> bool {
    name.len() > 0 && (name[0] == '/' || (name.len() >= 2 && name[0] == '.' && name[1] == '/'))
}

/// The program an argv resolves to: itself when it is a direct path, else
/// what the PATH table knows for it.
pub open spec fn spec_resolved_program(name: Seq<char>, table: Seq<PathEntry>) -> Option<
    Seq<char>,
> {
    if is_direct_path(name) {
        Some(name)
    } else {
        crate::shell::spec_path_lookup(table, name)
    }
}

/// Resolves the program `argv0` names, per `spec_resolved_program`.
fn resolve_program(shell: &Shell, argv0: &String) -> (r: Option<String>)
    ensures
        match r {
            Some(p) => spec_resolved_program(argv0@, shell.path_table.entries@) == Some(p@),
            None => spec_resolved_program(argv0@, shell.path_table.entries@) is None,
        },
{
    let s = argv0.as_str();
    let len = s.unicode_len();
    let direct = if len > 0 && s.get_char(0) == '/' {
        true
    } else if len >= 2 && s.get_char(0) == '.' && s.get_char(1) == '/' {
        true
    } else {
        false
    };
    if direct {
        Some(argv0.clone())
    } else {
        shell.path_table.lookup(s)
    }
}

/// The diagnostic for a command name the PATH table does not know.
pub fn not_found_message(name: &str) -> (r: String)
    ensures
        r@ == "command not found `"@ + name@ + "`"@,
{
    let mut line = "command not found `".to_owned();
    line.append(name);
    line.append("`");
    line
}

/// Launches an external command: resolves `argv[0]`, and forks and execs it
/// through the spawner. A name that neither is a direct path nor stands in
/// the PATH table is reported on standard error and yields exit code 1
/// without forking; this happens exactly when resolution fails. Otherwise
/// the command is running under the returned (arbitrary) pid.
pub fn run_external_command<S: Spawner>(
    ctx: &Context,
    shell: &Shell,
    argv: Vec<String>,
    spawner: &mut S,
) -> (r: ExitStatus)
    requires
        argv@.len() > 0,
    ensures
        (r is ExitedWith) == (spec_resolved_program(
            argv@[0]@,
            shell.path_table.entries@,
        ) is None),
        r is ExitedWith ==> r == ExitStatus::ExitedWith(1),
{
    let argv0 = match resolve_program(shell, &argv[0]) {
        Some(p) => p,
        None => {
            let line = not_found_message(argv[0].as_str());
            kernel::print_error_line(line.as_str());
            return ExitStatus::ExitedWith(1);
        },
    };
    let pid = spawner.spawn(&argv0, &argv, ctx, &shell.shell_termios);
    ExitStatus::Running(pid)
}

} // verus!
