//! Evaluation: walks the terms of a parsed script, gates each pipeline on
//! the status of the most recently run pipeline, and drives the pipeline
//! runner over built-ins and external commands.

use vstd::prelude::*;

use crate::ast::{word_text, Ast, Command, Pipeline, RunIf, Term, Word};
use crate::builtins::BuiltinCommandError;
use crate::expand::expand_words;
use crate::kernel;
use crate::process::{
    run_external_command, run_in_foreground, run_internal_command, spec_resolved_program,
    wait_for_job, Context, ExitStatus, ProcessState, Spawner,
};
use crate::shell::{PathEntry, Shell};

verus! {

/// Whether a pipeline guarded by `run_if` runs after the previously run
/// pipeline finished with `prev`: `Success` needs exit code 0, `Failure`
/// needs a non-zero exit code (a still-running status matches neither), and
/// `Always` always matches.
pub open spec fn gate_matches(prev: ExitStatus, run_if: RunIf) -> bool {
    match run_if {
        RunIf::Always => true,
        RunIf::Success => prev == ExitStatus::ExitedWith(0),
        RunIf::Failure => prev matches ExitStatus::ExitedWith(s) && s != 0,
    }
}

/// Decides whether the next pipeline runs, per `gate_matches`.
pub fn should_run(prev: &ExitStatus, run_if: &RunIf) -> (r: bool)
    ensures
        r == gate_matches(*prev, *run_if),
{
    match run_if {
        RunIf::Always => true,
        RunIf::Success => match prev {
            ExitStatus::ExitedWith(s) => *s == 0,
            _ => false,
        },
        RunIf::Failure => match prev {
            ExitStatus::ExitedWith(s) => *s != 0,
            _ => false,
        },
    }
}

/// The exit code of a command that the engine decides by itself, without
/// the kernel: an empty argv (0), the `cd` built-in (0), or a PATH miss (1).
/// `exit` ends the session and an external launch is the kernel's, so
/// neither is decided here.
pub open spec fn spec_command_code(cmd: Command, table: Seq<PathEntry>) -> Option<i32> {
    match cmd {
        Command::SimpleCommand { argv } => {
            if argv@.len() == 0 {
                Some(0i32)
            } else {
                let name = word_text(argv@[0]);
                if name == "exit"@ {
                    None
                } else if name == "cd"@ {
                    Some(0i32)
                } else if spec_resolved_program(name, table) is None {
                    Some(1i32)
                } else {
                    None
                }
            }
        },
    }
}

/// The status of a decided command.
pub open spec fn spec_command_status(cmd: Command, table: Seq<PathEntry>) -> ExitStatus {
    match spec_command_code(cmd, table) {
        Some(c) => ExitStatus::ExitedWith(c),
        None => ExitStatus::ExitedWith(0),
    }
}

/// Every command of the pipeline is decided by the engine itself, so the
/// pipeline's whole outcome is fixed by its text and the PATH table.
pub open spec fn pipeline_decided(p: Pipeline, table: Seq<PathEntry>) -> bool {
    forall|i: int|
        0 <= i < p.commands@.len() ==> spec_command_code(#[trigger] p.commands@[i], table) is Some
}

/// The status a decided pipeline finishes with: its last command's code, or
/// exit code 0 when it has no commands.
pub open spec fn spec_pipeline_status(p: Pipeline, table: Seq<PathEntry>) -> ExitStatus {
    if p.commands@.len() == 0 {
        ExitStatus::ExitedWith(0)
    } else {
        spec_command_status(p.commands@.last(), table)
    }
}

/// The status after walking pipelines with conditions `labels`, where
/// pipeline `i` would finish with `statuses[i]` if run: starting from `init`,
/// each pipeline whose condition matches the status so far runs and replaces
/// the status with its own; a skipped pipeline leaves it unchanged.
pub open spec fn sequence_status(
    labels: Seq<RunIf>,
    statuses: Seq<ExitStatus>,
    init: ExitStatus,
) -> ExitStatus
    recommends
        labels.len() == statuses.len(),
    decreases labels.len(),
{
    if labels.len() == 0 || labels.len() != statuses.len() {
        init
    } else {
        let prev = sequence_status(labels.drop_last(), statuses.drop_last(), init);
        if gate_matches(prev, labels.last()) {
            statuses.last()
        } else {
            prev
        }
    }
}

/// Pipeline `i` runs: its condition matches the status produced by the
/// pipelines before it.
pub open spec fn pipeline_runs(
    labels: Seq<RunIf>,
    statuses: Seq<ExitStatus>,
    init: ExitStatus,
    i: int,
) -> bool
    recommends
        labels.len() == statuses.len(),
        0 <= i < labels.len(),
{
    gate_matches(sequence_status(labels.take(i), statuses.take(i), init), labels[i])
}

/// Law of sequencing. Walking a term's pipelines yields the status of the
/// last pipeline that ran — the last one whose condition matched the
/// cumulative prior status — or the incoming status if none ran; and a
/// skipped pipeline never influences later gating, since it leaves the
/// status exactly as it was.
pub proof fn lemma_sequencing(labels: Seq<RunIf>, statuses: Seq<ExitStatus>, init: ExitStatus)
    requires
        labels.len() == statuses.len(),
    ensures
        forall|i: int|
            0 <= i < labels.len() ==> #[trigger] sequence_status(
                labels.take(i + 1),
                statuses.take(i + 1),
                init,
            ) == (if pipeline_runs(labels, statuses, init, i) {
                statuses[i]
            } else {
                sequence_status(labels.take(i), statuses.take(i), init)
            }),
        (forall|i: int| 0 <= i < labels.len() ==> !pipeline_runs(labels, statuses, init, i))
            ==> sequence_status(labels, statuses, init) == init,
        forall|i: int|
            (0 <= i < labels.len() && pipeline_runs(labels, statuses, init, i) && (forall|j: int|
                i < j < labels.len() ==> !pipeline_runs(labels, statuses, init, j)))
                ==> sequence_status(labels, statuses, init) == statuses[i],
    decreases labels.len(),
{
    assert forall|i: int| 0 <= i < labels.len() implies #[trigger] sequence_status(
        labels.take(i + 1),
        statuses.take(i + 1),
        init,
    ) == (if pipeline_runs(labels, statuses, init, i) {
        statuses[i]
    } else {
        sequence_status(labels.take(i), statuses.take(i), init)
    }) by {
        assert(labels.take(i + 1).drop_last() =~= labels.take(i));
        assert(statuses.take(i + 1).drop_last() =~= statuses.take(i));
        assert(labels.take(i + 1).last() == labels[i]);
        assert(statuses.take(i + 1).last() == statuses[i]);
    }
    if labels.len() > 0 {
        let n = labels.len() as int;
        lemma_sequencing(labels.drop_last(), statuses.drop_last(), init);
        assert forall|i: int| 0 <= i < n - 1 implies (#[trigger] pipeline_runs(
            labels.drop_last(),
            statuses.drop_last(),
            init,
            i,
        ) == pipeline_runs(labels, statuses, init, i)) by {
            assert(labels.drop_last().take(i) =~= labels.take(i));
            assert(statuses.drop_last().take(i) =~= statuses.take(i));
            assert(labels.drop_last()[i] == labels[i]);
        }
        assert(labels.drop_last() =~= labels.take(n - 1));
        assert(statuses.drop_last() =~= statuses.take(n - 1));
        assert(pipeline_runs(labels, statuses, init, n - 1) == gate_matches(
            sequence_status(labels.drop_last(), statuses.drop_last(), init),
            labels.last(),
        ));
        if forall|i: int| 0 <= i < n ==> !pipeline_runs(labels, statuses, init, i) {
            assert forall|i: int| 0 <= i < n - 1 implies !pipeline_runs(
                labels.drop_last(),
                statuses.drop_last(),
                init,
                i,
            ) by {
                assert(!pipeline_runs(labels, statuses, init, i));
            }
            assert(sequence_status(labels.drop_last(), statuses.drop_last(), init) == init);
            assert(!pipeline_runs(labels, statuses, init, n - 1));
        }
        assert forall|i: int|
            (0 <= i < n && pipeline_runs(labels, statuses, init, i) && (forall|j: int|
                i < j < n ==> !pipeline_runs(labels, statuses, init, j)))
            implies sequence_status(labels, statuses, init) == statuses[i] by {
            if i == n - 1 {
                assert(labels.take(n - 1 + 1) =~= labels);
                assert(statuses.take(n - 1 + 1) =~= statuses);
            } else {
                assert(!pipeline_runs(labels, statuses, init, n - 1));
                assert(pipeline_runs(labels.drop_last(), statuses.drop_last(), init, i));
                assert forall|j: int| i < j < n - 1 implies !pipeline_runs(
                    labels.drop_last(),
                    statuses.drop_last(),
                    init,
                    j,
                ) by {
                    assert(!pipeline_runs(labels, statuses, init, j));
                }
                assert(sequence_status(labels.drop_last(), statuses.drop_last(), init)
                    == statuses.drop_last()[i]);
            }
        }
    }
}

/// Runs one command of a pipeline: built-ins in-process, everything else
/// through the spawner. Only the `exit` request can change the shell here;
/// job bookkeeping happens at the pipeline level.
pub fn run_command<S: Spawner>(
    shell: &mut Shell,
    spawner: &mut S,
    command: &Command,
    ctx: &Context,
) -> (r: ExitStatus)
    requires
        old(shell).wf(),
    ensures
        final(shell).wf(),
        *final(shell) == (Shell { wants_exit: final(shell).wants_exit, ..*old(shell) }),
        old(shell).wants_exit ==> final(shell).wants_exit,
        match *command {
            Command::SimpleCommand { argv } => {
                &&& (argv@.len() == 0 ==> r == ExitStatus::ExitedWith(0) && *final(shell)
                    == *old(shell))
                &&& (argv@.len() > 0 ==> {
                    let name = word_text(argv@[0]);
                    &&& (name == "exit"@ ==> r == ExitStatus::ExitedWith(0)
                        && final(shell).wants_exit)
                    &&& (name == "cd"@ ==> r == ExitStatus::ExitedWith(0) && *final(shell)
                        == *old(shell))
                    &&& (!(name == "exit"@ || name == "cd"@) ==> {
                        &&& *final(shell) == *old(shell)
                        &&& ((r is ExitedWith) == (spec_resolved_program(
                            name,
                            old(shell).path_table.entries@,
                        ) is None))
                        &&& (r is ExitedWith ==> r == ExitStatus::ExitedWith(1))
                    })
                })
            },
        },
{
    match command {
        Command::SimpleCommand { argv } => run_simple_command(ctx, shell, spawner, argv),
    }
}

/// Expands the words of a simple command and runs it: an empty argv is a
/// no-op with status 0; a built-in name runs in-process; any other name falls
/// through to external execution, which fails with status 1 exactly when the
/// name resolves to no program.
pub fn run_simple_command<S: Spawner>(
    ctx: &Context,
    shell: &mut Shell,
    spawner: &mut S,
    argv: &Vec<Word>,
) -> (r: ExitStatus)
    requires
        old(shell).wf(),
    ensures
        final(shell).wf(),
        *final(shell) == (Shell { wants_exit: final(shell).wants_exit, ..*old(shell) }),
        old(shell).wants_exit ==> final(shell).wants_exit,
        argv@.len() == 0 ==> r == ExitStatus::ExitedWith(0) && *final(shell) == *old(shell),
        argv@.len() > 0 ==> {
            let name = word_text(argv@[0]);
            &&& (name == "exit"@ ==> r == ExitStatus::ExitedWith(0) && final(shell).wants_exit)
            &&& (name == "cd"@ ==> r == ExitStatus::ExitedWith(0) && *final(shell) == *old(shell))
            &&& (!(name == "exit"@ || name == "cd"@) ==> {
                &&& *final(shell) == *old(shell)
                &&& ((r is ExitedWith) == (spec_resolved_program(
                    name,
                    old(shell).path_table.entries@,
                ) is None))
                &&& (r is ExitedWith ==> r == ExitStatus::ExitedWith(1))
            })
        },
{
    let argv = expand_words(shell, argv);
    if argv.len() == 0 {
        return ExitStatus::ExitedWith(0);
    }
    match run_internal_command(shell, &argv) {
        Ok(status) => status,
        Err(BuiltinCommandError::NotFound) => run_external_command(ctx, shell, argv, spawner),
    }
}

/// Runs the commands of one pipeline left to right, connecting successive
/// commands with anonymous pipes and collecting the spawned children into a
/// shared process group, then waits: a pipeline ending in a built-in records
/// that status; one that spawned children becomes a job, waited for in the
/// foreground path when interactive and by blocking reaping otherwise. A
/// pipeline with no commands is a no-op with status 0. Whenever the pipeline
/// finishes with an exit code, that code is recorded as the shell's last
/// status; a pipeline whose commands the engine decides by itself (built-ins,
/// empty argvs, PATH misses) finishes with exactly the decided status and
/// touches nothing but `last_status`.
pub fn run_pipeline<S: Spawner>(
    shell: &mut Shell,
    spawner: &mut S,
    code: &str,
    pipeline: &Pipeline,
    background: bool,
) -> (r: ExitStatus)
    requires
        old(shell).wf(),
    ensures
        final(shell).wf(),
        old(shell).wants_exit ==> final(shell).wants_exit,
        final(shell).interactive == old(shell).interactive,
        final(shell).path_table == old(shell).path_table,
        final(shell).shell_termios == old(shell).shell_termios,
        final(shell).shell_pgid == old(shell).shell_pgid,
        pipeline.commands@.len() == 0 ==> r == ExitStatus::ExitedWith(0) && *final(shell) == *old(
            shell,
        ),
        // The exit code a pipeline finishes with is recorded.
        pipeline.commands@.len() > 0 ==> (r matches ExitStatus::ExitedWith(s)
            ==> final(shell).last_status == s),
        // A pipeline the engine decides by itself finishes with exactly the
        // decided status and changes nothing but the recorded status.
        (!old(shell).wants_exit && pipeline_decided(
            *pipeline,
            old(shell).path_table.entries@,
        )) ==> r == spec_pipeline_status(*pipeline, old(shell).path_table.entries@)
            && *final(shell) == (Shell { last_status: final(shell).last_status, ..*old(shell) }),
        // A pipeline that ends still running left a stopped foreground job
        // registered, whose group the result names.
        r matches ExitStatus::Running(g) ==> exists|jid: usize|
            {
                &&& #[trigger] final(shell).jobs@.contains_key(jid)
                &&& final(shell).jobs@[jid].pgid == g
                &&& final(shell).jobs@[jid].processes@.len() > 0
                &&& final(shell).states@[final(shell).jobs@[jid].processes@.last()] is Stopped
            },
        // A pipeline that spawned children and finished with an exit code got
        // it from a reaped process: some recorded process completed with it.
        (pipeline.commands@.len() > 0 && final(shell).states@ != old(shell).states@
            && final(shell).jobs@ == old(shell).jobs@) ==> (r matches ExitStatus::ExitedWith(s)
            ==> exists|pid: i32|
                #[trigger] final(shell).states@.contains_key(pid) && final(shell).states@[pid]
                    == ProcessState::Completed(s)),
        pipeline.commands@.len() == 1 ==> match pipeline.commands@[0] {
            Command::SimpleCommand { argv } => {
                &&& (argv@.len() == 0 ==> r == ExitStatus::ExitedWith(0))
                &&& (argv@.len() > 0 ==> {
                    let name = word_text(argv@[0]);
                    &&& (name == "exit"@ ==> r == ExitStatus::ExitedWith(0)
                        && final(shell).wants_exit)
                    &&& (name == "cd"@ ==> r == ExitStatus::ExitedWith(0))
                    &&& ((!(name == "exit"@ || name == "cd"@) && spec_resolved_program(
                        name,
                        old(shell).path_table.entries@,
                    ) is None) ==> r == ExitStatus::ExitedWith(1)
                        && final(shell).jobs@ == old(shell).jobs@
                        && final(shell).last_status == 1)
                })
            },
        },
{
    let ghost table = old(shell).path_table.entries@;
    let n = pipeline.commands.len();
    if n == 0 {
        return ExitStatus::ExitedWith(0);
    }
    let mut last_result: Option<ExitStatus> = None;
    let mut childs: Vec<i32> = Vec::new();
    let mut pgid: Option<i32> = None;
    let mut i: usize = 0;
    while i < n
        invariant
            i <= n,
            n == pipeline.commands@.len(),
            table == old(shell).path_table.entries@,
            shell.wf(),
            shell.interactive == old(shell).interactive,
            shell.path_table == old(shell).path_table,
            shell.shell_termios == old(shell).shell_termios,
            shell.shell_pgid == old(shell).shell_pgid,
            shell.jobs@ == old(shell).jobs@,
            shell.states@ == old(shell).states@,
            shell.pid_job_mapping@ == old(shell).pid_job_mapping@,
            shell.last_fore_job == old(shell).last_fore_job,
            shell.last_status == old(shell).last_status,
            old(shell).wants_exit ==> shell.wants_exit,
            forall|k: int| 0 <= k < childs@.len() ==> !shell.pid_live(#[trigger] childs@[k]),
            pgid is None ==> childs@.len() == 0,
            pgid matches Some(g) ==> childs@.len() > 0 && childs@[0] == g,
            last_result matches Some(ExitStatus::Running(_)) ==> pgid is Some
                && childs@.len() > 0,
            i > 0 ==> last_result is Some,
            (!old(shell).wants_exit && pipeline_decided(*pipeline, table)) ==> {
                &&& *shell == *old(shell)
                &&& childs@.len() == 0
                &&& pgid is None
                &&& (i > 0 ==> last_result == Some(
                    spec_command_status(pipeline.commands@[i - 1], table),
                ))
            },
            (n == 1 && i == 1) ==> match pipeline.commands@[0] {
                Command::SimpleCommand { argv } => {
                    &&& (argv@.len() == 0 ==> last_result == Some(ExitStatus::ExitedWith(0)))
                    &&& (argv@.len() > 0 ==> {
                        let name = word_text(argv@[0]);
                        &&& (name == "exit"@ ==> last_result == Some(ExitStatus::ExitedWith(0))
                            && shell.wants_exit)
                        &&& (name == "cd"@ ==> last_result == Some(ExitStatus::ExitedWith(0)))
                        &&& ((!(name == "exit"@ || name == "cd"@) && spec_resolved_program(
                            name,
                            table,
                        ) is None) ==> last_result == Some(ExitStatus::ExitedWith(1)))
                    })
                },
            },
        decreases n - i,
    {
        let has_next = i + 1 < n;
        let pipe_fds: Option<(i32, i32)> = if has_next {
            Some(kernel::create_pipe())
        } else {
            None
        };
        let ctx = Context { pgid, background, interactive: shell.interactive() };
        let result = run_command(shell, spawner, &pipeline.commands[i], &ctx);
        if let Some(fds) = pipe_fds {
            // In this core the children inherit the shell's stdio, so both
            // parent-side endpoints are released as soon as the child has
            // been forked.
            kernel::close_fd(fds.0);
            kernel::close_fd(fds.1);
        }
        match result {
            ExitStatus::Running(pid) => {
                if !shell.pid_assigned_to_live_job(pid) {
                    let g = match pgid {
                        Some(g) => g,
                        None => pid,
                    };
                    pgid = Some(g);
                    if shell.interactive() {
                        // The child calls setpgid on itself too; doing it in
                        // the parent as well closes the race between them.
                        kernel::set_process_group(pid, g);
                    }
                    childs.push(pid);
                    last_result = Some(ExitStatus::Running(pid));
                } else {
                    // The kernel cannot report a pid that a live job still
                    // owns; if a spawner ever hands one back, the launch is
                    // recorded as failed rather than corrupting the registry.
                    last_result = Some(ExitStatus::ExitedWith(1));
                }
            },
            ExitStatus::ExitedWith(status) => {
                last_result = Some(ExitStatus::ExitedWith(status));
                if shell.wants_exit {
                    shell.set_last_status(status);
                    return ExitStatus::ExitedWith(status);
                }
            },
        }
        i = i + 1;
    }
    match last_result {
        Some(ExitStatus::ExitedWith(status)) => {
            shell.set_last_status(status);
            ExitStatus::ExitedWith(status)
        },
        Some(ExitStatus::Running(_)) => {
            let pgid_v = match pgid {
                Some(g) => g,
                None => {
                    proof {
                        assert(false);
                    }
                    0
                },
            };
            if shell.jobs_len() == usize::MAX {
                // A full job table would leave no id to allocate; no real
                // execution reaches this.
                shell.set_last_status(1);
                return ExitStatus::ExitedWith(1);
            }
            let ghost gchilds = childs@;
            let job_id = shell.create_job(code.to_owned(), pgid_v, childs);
            let jid = job_id.0;
            let ghost mid = *shell;
            proof {
                assert(mid.jobs@[jid].processes@ == gchilds);
                assert(mid.jobs@[jid].processes@.last() == gchilds.last());
            }
            if !shell.interactive() {
                match wait_for_job(shell, jid) {
                    Some(ProcessState::Completed(status)) => {
                        shell.set_last_status(status);
                        proof {
                            assert(shell.jobs@ =~= old(shell).jobs@.insert(
                                jid,
                                mid.jobs@[jid],
                            ).remove(jid));
                            assert(shell.jobs@ =~= old(shell).jobs@);
                            assert(mid.states@.contains_key(gchilds.last()));
                            assert(shell.states@.contains_key(gchilds.last()));
                            assert(shell.states@[gchilds.last()] == ProcessState::Completed(
                                status,
                            ));
                        }
                        ExitStatus::ExitedWith(status)
                    },
                    Some(ProcessState::Stopped(_)) => {
                        proof {
                            assert(shell.jobs@.contains_key(jid));
                            assert(shell.jobs@[jid].pgid == pgid_v);
                            assert(shell.jobs@[jid].processes@.len() > 0);
                            assert(shell.states@[shell.jobs@[jid].processes@.last()] is Stopped);
                        }
                        ExitStatus::Running(pgid_v)
                    },
                    Some(ProcessState::Running) => {
                        proof {
                            assert(false);
                        }
                        ExitStatus::ExitedWith(0)
                    },
                    None => {
                        shell.set_last_status(1);
                        proof {
                            assert(shell.jobs@.contains_key(jid));
                            assert(!old(shell).jobs@.contains_key(jid));
                        }
                        ExitStatus::ExitedWith(1)
                    },
                }
            } else {
                match run_in_foreground(shell, jid) {
                    Some(ProcessState::Completed(status)) => {
                        shell.set_last_status(status);
                        proof {
                            assert(shell.jobs@ =~= old(shell).jobs@.insert(
                                jid,
                                mid.jobs@[jid],
                            ).remove(jid));
                            assert(shell.jobs@ =~= old(shell).jobs@);
                            assert(mid.states@.contains_key(gchilds.last()));
                            assert(shell.states@.contains_key(gchilds.last()));
                            assert(shell.states@[gchilds.last()] == ProcessState::Completed(
                                status,
                            ));
                        }
                        ExitStatus::ExitedWith(status)
                    },
                    Some(ProcessState::Stopped(_)) => {
                        proof {
                            assert(shell.jobs@.contains_key(jid));
                            assert(shell.jobs@[jid].pgid == pgid_v);
                            assert(shell.jobs@[jid].processes@.len() > 0);
                            assert(shell.states@[shell.jobs@[jid].processes@.last()] is Stopped);
                        }
                        ExitStatus::Running(pgid_v)
                    },
                    Some(ProcessState::Running) => {
                        proof {
                            assert(false);
                        }
                        ExitStatus::ExitedWith(0)
                    },
                    None => {
                        shell.set_last_status(1);
                        proof {
                            assert(shell.jobs@.contains_key(jid));
                            assert(!old(shell).jobs@.contains_key(jid));
                        }
                        ExitStatus::ExitedWith(1)
                    },
                }
            }
        },
        None => {
            proof {
                assert(false);
            }
            ExitStatus::ExitedWith(0)
        },
    }
}

/// All pipelines of the terms, in evaluation order.
pub open spec fn terms_pipelines(terms: Seq<Term>) -> Seq<Pipeline>
    decreases terms.len(),
{
    if terms.len() == 0 {
        Seq::empty()
    } else {
        terms_pipelines(terms.drop_last()) + terms.last().pipelines@
    }
}

/// How many pipelines stand in the terms before term `t`.
pub open spec fn pipelines_before(terms: Seq<Term>, t: int) -> int {
    terms_pipelines(terms.take(t)).len() as int
}

/// The run conditions of all pipelines of the terms, in order.
pub open spec fn terms_labels(terms: Seq<Term>) -> Seq<RunIf> {
    terms_pipelines(terms).map_values(|p: Pipeline| p.run_if)
}

/// The decided statuses of all pipelines of the terms, in order.
pub open spec fn terms_statuses(terms: Seq<Term>, table: Seq<PathEntry>) -> Seq<ExitStatus> {
    terms_pipelines(terms).map_values(|p: Pipeline| spec_pipeline_status(p, table))
}

proof fn lemma_terms_pipelines_step(terms: Seq<Term>, t: int)
    requires
        0 <= t < terms.len(),
    ensures
        terms_pipelines(terms.take(t + 1)) == terms_pipelines(terms.take(t))
            + terms[t].pipelines@,
        pipelines_before(terms, t + 1) == pipelines_before(terms, t)
            + terms[t].pipelines@.len(),
{
    let pre = terms.take(t + 1);
    assert(pre.drop_last() =~= terms.take(t));
    assert(pre.last() == terms[t]);
}

proof fn lemma_terms_pipelines_index(terms: Seq<Term>, t: int, p: int)
    requires
        0 <= t < terms.len(),
        0 <= p < terms[t].pipelines@.len(),
    ensures
        0 <= pipelines_before(terms, t),
        pipelines_before(terms, t) + p < terms_pipelines(terms).len(),
        terms_pipelines(terms)[pipelines_before(terms, t) + p] == terms[t].pipelines@[p],
    decreases terms.len(),
{
    lemma_terms_pipelines_step(terms, t);
    if t == terms.len() - 1 {
        assert(terms.take(t + 1) =~= terms);
    } else {
        lemma_terms_pipelines_index(terms.drop_last(), t, p);
        assert(terms.drop_last().take(t) =~= terms.take(t));
        assert(terms.drop_last()[t] == terms[t]);
        assert(terms_pipelines(terms) == terms_pipelines(terms.drop_last())
            + terms.last().pipelines@);
    }
}

proof fn lemma_terms_pipelines_total(terms: Seq<Term>)
    ensures
        pipelines_before(terms, terms.len() as int) == terms_pipelines(terms).len(),
{
    assert(terms.take(terms.len() as int) =~= terms);
}

/// Walks the terms of a script: within each term the pipelines run left to
/// right, each gated by `should_run` against the status of the most recently
/// run pipeline. The result is the status of the last pipeline that ran, or
/// exit code 0 if none ran. An `exit` request stops the walk at once. When
/// every pipeline's condition fails against exit code 0, nothing runs and
/// nothing changes; when the engine itself decides every pipeline (built-ins,
/// empty argvs, PATH misses), the result is exactly the gating fold
/// `sequence_status` over their decided statuses.
pub fn run_terms<S: Spawner>(shell: &mut Shell, spawner: &mut S, terms: &Vec<Term>) -> (r:
    ExitStatus)
    requires
        old(shell).wf(),
    ensures
        final(shell).wf(),
        old(shell).wants_exit ==> final(shell).wants_exit,
        final(shell).interactive == old(shell).interactive,
        final(shell).path_table == old(shell).path_table,
        final(shell).shell_termios == old(shell).shell_termios,
        final(shell).shell_pgid == old(shell).shell_pgid,
        terms@.len() == 0 ==> r == ExitStatus::ExitedWith(0) && *final(shell) == *old(shell),
        (!old(shell).wants_exit && (forall|i: int|
            0 <= i < terms_labels(terms@).len() ==> !gate_matches(
                ExitStatus::ExitedWith(0),
                #[trigger] terms_labels(terms@)[i],
            ))) ==> r == ExitStatus::ExitedWith(0) && *final(shell) == *old(shell),
        (!old(shell).wants_exit && (forall|i: int|
            0 <= i < terms_pipelines(terms@).len() ==> pipeline_decided(
                #[trigger] terms_pipelines(terms@)[i],
                old(shell).path_table.entries@,
            ))) ==> r == sequence_status(
            terms_labels(terms@),
            terms_statuses(terms@, old(shell).path_table.entries@),
            ExitStatus::ExitedWith(0),
        ) && *final(shell) == (Shell { last_status: final(shell).last_status, ..*old(shell) }),
{
    let ghost table = old(shell).path_table.entries@;
    let ghost tp = terms_pipelines(terms@);
    let ghost lbls = terms_labels(terms@);
    let ghost stats = terms_statuses(terms@, table);
    let ghost init = ExitStatus::ExitedWith(0);
    let ghost skip_hyp: bool = !old(shell).wants_exit && (forall|i: int|
        0 <= i < lbls.len() ==> !gate_matches(ExitStatus::ExitedWith(0), #[trigger] lbls[i]));
    let ghost dec_hyp: bool = !old(shell).wants_exit && (forall|i: int|
        0 <= i < tp.len() ==> pipeline_decided(#[trigger] tp[i], table));

    let mut last_status = ExitStatus::ExitedWith(0);
    if terms.len() == 0 {
        return last_status;
    }
    proof {
        assert(terms@.take(0) =~= Seq::<Term>::empty());
    }
    let nt = terms.len();
    let mut t: usize = 0;
    while t < nt
        invariant
            t <= nt,
            nt == terms@.len(),
            table == old(shell).path_table.entries@,
            tp == terms_pipelines(terms@),
            lbls == terms_labels(terms@),
            stats == terms_statuses(terms@, table),
            init == ExitStatus::ExitedWith(0),
            skip_hyp == (!old(shell).wants_exit && (forall|i: int|
                0 <= i < lbls.len() ==> !gate_matches(
                    ExitStatus::ExitedWith(0),
                    #[trigger] lbls[i],
                ))),
            dec_hyp == (!old(shell).wants_exit && (forall|i: int|
                0 <= i < tp.len() ==> pipeline_decided(#[trigger] tp[i], table))),
            shell.wf(),
            shell.interactive == old(shell).interactive,
            shell.path_table == old(shell).path_table,
            shell.shell_termios == old(shell).shell_termios,
            shell.shell_pgid == old(shell).shell_pgid,
            old(shell).wants_exit ==> shell.wants_exit,
            skip_hyp ==> (*shell == *old(shell) && last_status == ExitStatus::ExitedWith(0)),
            dec_hyp ==> (*shell == (Shell { last_status: shell.last_status, ..*old(shell) })
                && 0 <= pipelines_before(terms@, t as int) <= tp.len() && last_status
                == sequence_status(
                lbls.take(pipelines_before(terms@, t as int)),
                stats.take(pipelines_before(terms@, t as int)),
                init,
            )),
        decreases nt - t,
    {
        let term = &terms[t];
        let np = term.pipelines.len();
        let mut p: usize = 0;
        while p < np
            invariant
                p <= np,
                np == term.pipelines@.len(),
                nt == terms@.len(),
                t < nt,
                term == &terms[t as int],
                table == old(shell).path_table.entries@,
                tp == terms_pipelines(terms@),
                lbls == terms_labels(terms@),
                stats == terms_statuses(terms@, table),
                init == ExitStatus::ExitedWith(0),
                skip_hyp == (!old(shell).wants_exit && (forall|i: int|
                    0 <= i < lbls.len() ==> !gate_matches(
                        ExitStatus::ExitedWith(0),
                        #[trigger] lbls[i],
                    ))),
                dec_hyp == (!old(shell).wants_exit && (forall|i: int|
                    0 <= i < tp.len() ==> pipeline_decided(#[trigger] tp[i], table))),
                shell.wf(),
                shell.interactive == old(shell).interactive,
                shell.path_table == old(shell).path_table,
                shell.shell_termios == old(shell).shell_termios,
                shell.shell_pgid == old(shell).shell_pgid,
                old(shell).wants_exit ==> shell.wants_exit,
                skip_hyp ==> (*shell == *old(shell) && last_status == ExitStatus::ExitedWith(
                    0,
                )),
                dec_hyp ==> (*shell == (Shell { last_status: shell.last_status, ..*old(shell) })
                    && 0 <= pipelines_before(terms@, t as int) && pipelines_before(
                    terms@,
                    t as int,
                ) + p <= tp.len() && last_status == sequence_status(
                    lbls.take(pipelines_before(terms@, t as int) + p as int),
                    stats.take(pipelines_before(terms@, t as int) + p as int),
                    init,
                )),
            decreases np - p,
        {
            let ghost k = pipelines_before(terms@, t as int) + p as int;
            proof {
                if skip_hyp || dec_hyp {
                    lemma_terms_pipelines_index(terms@, t as int, p as int);
                    assert(tp[k] == terms@[t as int].pipelines@[p as int]);
                    assert(lbls[k] == tp[k].run_if);
                    assert(stats[k] == spec_pipeline_status(tp[k], table));
                }
            }
            let pipeline = &term.pipelines[p];
            if should_run(&last_status, &pipeline.run_if) {
                proof {
                    if skip_hyp {
                        assert(!gate_matches(ExitStatus::ExitedWith(0), lbls[k]));
                        assert(false);
                    }
                }
                last_status = run_pipeline(shell, spawner, term.code.as_str(), pipeline,
                    term.background);
                proof {
                    if dec_hyp {
                        assert(lbls.take(k + 1).drop_last() =~= lbls.take(k));
                        assert(stats.take(k + 1).drop_last() =~= stats.take(k));
                        assert(lbls.take(k + 1).last() == lbls[k]);
                        assert(stats.take(k + 1).last() == stats[k]);
                        assert(last_status == stats[k]);
                    }
                }
                if shell.wants_exit {
                    return last_status;
                }
            } else {
                proof {
                    if dec_hyp {
                        assert(lbls.take(k + 1).drop_last() =~= lbls.take(k));
                        assert(stats.take(k + 1).drop_last() =~= stats.take(k));
                        assert(lbls.take(k + 1).last() == lbls[k]);
                        assert(stats.take(k + 1).last() == stats[k]);
                    }
                }
            }
            p = p + 1;
        }
        proof {
            if skip_hyp || dec_hyp {
                lemma_terms_pipelines_step(terms@, t as int);
            }
        }
        t = t + 1;
    }
    proof {
        if dec_hyp {
            lemma_terms_pipelines_total(terms@);
            assert(lbls.take(tp.len() as int) =~= lbls);
            assert(stats.take(tp.len() as int) =~= stats);
        }
    }
    last_status
}

/// Evaluates a parsed script: the terms run under the gating rules of
/// `run_terms`, whose sequencing contract carries through.
pub fn eval<S: Spawner>(shell: &mut Shell, spawner: &mut S, ast: &Ast) -> (r: ExitStatus)
    requires
        old(shell).wf(),
    ensures
        final(shell).wf(),
        old(shell).wants_exit ==> final(shell).wants_exit,
        final(shell).interactive == old(shell).interactive,
        final(shell).path_table == old(shell).path_table,
        final(shell).shell_termios == old(shell).shell_termios,
        final(shell).shell_pgid == old(shell).shell_pgid,
        ast.terms@.len() == 0 ==> r == ExitStatus::ExitedWith(0) && *final(shell) == *old(shell),
        (!old(shell).wants_exit && (forall|i: int|
            0 <= i < terms_labels(ast.terms@).len() ==> !gate_matches(
                ExitStatus::ExitedWith(0),
                #[trigger] terms_labels(ast.terms@)[i],
            ))) ==> r == ExitStatus::ExitedWith(0) && *final(shell) == *old(shell),
        (!old(shell).wants_exit && (forall|i: int|
            0 <= i < terms_pipelines(ast.terms@).len() ==> pipeline_decided(
                #[trigger] terms_pipelines(ast.terms@)[i],
                old(shell).path_table.entries@,
            ))) ==> r == sequence_status(
            terms_labels(ast.terms@),
            terms_statuses(ast.terms@, old(shell).path_table.entries@),
            ExitStatus::ExitedWith(0),
        ) && *final(shell) == (Shell { last_status: final(shell).last_status, ..*old(shell) }),
{
    run_terms(shell, spawner, &ast.terms)
}

} // verus!
