//! Process-wide shell state: the last exit status, the PATH table, the
//! process state table, the job registry and the pid-to-job index, together
//! with the bookkeeping invariant that ties them together.

use vstd::prelude::*;

use std::collections::HashMap;

use crate::ast::ParsedScript;
use crate::expand::str_eq;
use crate::process::{ExitStatus, Job, JobId, ProcessState, Spawner};
use crate::kernel;

verus! {

broadcast use vstd::std_specs::hash::group_hash_axioms;

/// One entry of the PATH table: a command name and the absolute path the
/// external PATH scan resolved it to.
pub struct PathEntry {
    pub name: String,
    pub path: String,
}

/// The first path registered for `name`, searched front to back.
pub open spec fn spec_path_lookup(entries: Seq<PathEntry>, name: Seq<char>) -> Option<Seq<char>>
    decreases entries.len(),
{
    if entries.len() == 0 {
        None
    } else if entries[0].name@ == name {
        Some(entries[0].path@)
    } else {
        spec_path_lookup(entries.skip(1), name)
    }
}

/// Maps command names to absolute paths. Scanning the directories named by
/// `PATH` needs the file system, so the surrounding program performs the scan
/// and registers what it found; resolution itself is verified here.
pub struct PathTable {
    pub entries: Vec<PathEntry>,
}

impl PathTable {
    pub fn new() -> (r: PathTable)
        ensures
            r.entries@.len() == 0,
    {
        PathTable { entries: Vec::new() }
    }

    /// Records that `name` resolves to `path`; earlier entries win.
    pub fn register(&mut self, name: String, path: String)
        ensures
            final(self).entries@ == old(self).entries@.push(
                PathEntry { name, path },
            ),
    {
        self.entries.push(PathEntry { name, path });
    }

    pub fn clear(&mut self)
        ensures
            final(self).entries@.len() == 0,
    {
        self.entries.clear();
    }

    pub fn lookup(&self, name: &str) -> (r: Option<String>)
        ensures
            match r {
                Some(p) => spec_path_lookup(self.entries@, name@) == Some(p@),
                None => spec_path_lookup(self.entries@, name@) is None,
            },
    {
        let n = self.entries.len();
        let mut i: usize = 0;
        proof {
            assert(self.entries@.skip(0) =~= self.entries@);
        }
        while i < n
            invariant
                i <= n,
                n == self.entries@.len(),
                spec_path_lookup(self.entries@, name@) == spec_path_lookup(
                    self.entries@.skip(i as int),
                    name@,
                ),
            decreases n - i,
        {
            proof {
                assert(self.entries@.skip(i as int)[0] == self.entries@[i as int]);
                assert(self.entries@.skip(i as int).skip(1) =~= self.entries@.skip(i + 1));
            }
            if str_eq(self.entries[i].name.as_str(), name) {
                return Some(self.entries[i].path.clone());
            }
            i = i + 1;
        }
        proof {
            assert(self.entries@.skip(n as int).len() == 0);
        }
        None
    }
}

/// A value of a shell variable. Only string values exist in this core.
pub enum Value {
    String(String),
}

/// The single, process-wide shell state.
pub struct Shell {
    /// The exit code of the last pipeline that recorded one.
    pub last_status: i32,
    /// Whether the shell is attached to a terminal.
    pub interactive: bool,
    /// Command-name resolution table, rebuilt from `PATH`.
    pub path_table: PathTable,
    /// The shell's terminal attributes, captured when it became interactive.
    pub shell_termios: Option<nix::sys::termios::Termios>,
    /// Observed life-cycle state of each child the shell has spawned.
    pub states: HashMap<i32, ProcessState>,
    /// The shell's own process group, captured at startup.
    pub shell_pgid: i32,
    /// Live jobs, keyed by their job id.
    pub jobs: HashMap<usize, Job>,
    /// The most recently foregrounded job still alive, if any.
    pub last_fore_job: Option<usize>,
    /// Which job each pid belongs to; entries of destroyed jobs may linger
    /// but are never reported as live.
    pub pid_job_mapping: HashMap<i32, usize>,
    /// Set by the `exit` built-in; the surrounding program ends the session.
    pub wants_exit: bool,
}

impl Shell {
    /// The bookkeeping of one live job is sound: it is keyed by its own id,
    /// its group id is its first pid, and every one of its pids has a state
    /// entry and a pid-to-job entry naming this job.
    pub open spec fn job_wf(self, jid: usize) -> bool {
        let job = self.jobs@[jid];
        &&& job.id.0 == jid
        &&& job.processes@.len() > 0
        &&& job.pgid == job.processes@[0]
        &&& forall|i: int|
            0 <= i < job.processes@.len() ==> {
                &&& self.states@.contains_key(#[trigger] job.processes@[i])
                &&& self.pid_job_mapping@.contains_key(job.processes@[i])
                &&& self.pid_job_mapping@[job.processes@[i]] == jid
            }
    }

    /// The invariant of the shell state between operations.
    pub open spec fn wf(self) -> bool {
        &&& forall|jid: usize| #[trigger] self.jobs@.contains_key(jid) ==> self.job_wf(jid)
        &&& (self.interactive ==> self.shell_termios is Some)
        &&& match self.last_fore_job {
            Some(jid) => self.jobs@.contains_key(jid),
            None => true,
        }
    }

    /// The pid belongs to a job that is still registered.
    pub open spec fn pid_live(self, pid: i32) -> bool {
        &&& self.pid_job_mapping@.contains_key(pid)
        &&& self.jobs@.contains_key(self.pid_job_mapping@[pid])
    }

    pub fn new() -> (r: Shell)
        ensures
            r.wf(),
            r.last_status == 0,
            !r.interactive,
            r.path_table.entries@.len() == 0,
            r.shell_termios is None,
            r.states@ == Map::<i32, ProcessState>::empty(),
            r.jobs@ == Map::<usize, Job>::empty(),
            r.last_fore_job is None,
            r.pid_job_mapping@ == Map::<i32, usize>::empty(),
            !r.wants_exit,
            r.shell_pgid >= 1,
    {
        Shell {
            last_status: 0,
            interactive: false,
            path_table: PathTable::new(),
            shell_termios: None,
            states: HashMap::new(),
            shell_pgid: kernel::current_pid(),
            jobs: HashMap::new(),
            last_fore_job: None,
            pid_job_mapping: HashMap::new(),
            wants_exit: false,
        }
    }

    /// Marks the shell interactive or not; an interactive shell snapshots its
    /// terminal attributes so they can be restored around foreground jobs.
    pub fn set_interactive(&mut self, interactive: bool)
        requires
            old(self).wf(),
        ensures
            final(self).wf(),
            final(self).interactive == interactive,
            (final(self).shell_termios is Some) == interactive,
            *final(self) == (Shell {
                interactive,
                shell_termios: final(self).shell_termios,
                ..*old(self)
            }),
    {
        self.interactive = interactive;
        self.shell_termios = if interactive {
            Some(kernel::get_terminal_attrs())
        } else {
            None
        };
    }

    /// Stores a variable. This core keeps no variable store; the one side
    /// effect is that assigning `PATH` non-locally asks the caller to rescan
    /// the PATH table, which is reported by the result.
    pub fn set(&mut self, key: &str, value: Value, is_local: bool) -> (rescan: bool)
        ensures
            *final(self) == *old(self),
            rescan == (!is_local && key@ == "PATH"@),
    {
        if !is_local && str_eq(key, "PATH") {
            match value {
                Value::String(_) => true,
            }
        } else {
            false
        }
    }

    /// Replaces the PATH table with what a fresh scan of `PATH` found.
    pub fn rebuild_path_table(&mut self, entries: Vec<PathEntry>)
        requires
            old(self).wf(),
        ensures
            final(self).wf(),
            final(self).path_table.entries == entries,
            *final(self) == (Shell { path_table: final(self).path_table, ..*old(self) }),
    {
        self.path_table = PathTable { entries };
    }

    #[inline]
    pub fn interactive(&self) -> (r: bool)
        ensures
            r == self.interactive,
    {
        self.interactive
    }

    pub fn get_process_state(&self, pid: i32) -> (r: Option<ProcessState>)
        ensures
            r == if self.states@.contains_key(pid) {
                Some(self.states@[pid])
            } else {
                None::<ProcessState>
            },
    {
        match self.states.get(&pid) {
            Some(s) => Some(*s),
            None => None,
        }
    }

    pub fn set_process_state(&mut self, pid: i32, state: ProcessState)
        ensures
            final(self).states@ == old(self).states@.insert(pid, state),
            *final(self) == (Shell { states: final(self).states, ..*old(self) }),
            old(self).wf() ==> final(self).wf(),
    {
        self.states.insert(pid, state);
        proof {
            if old(self).wf() {
                assert forall|jid: usize| self.jobs@.contains_key(jid) implies self.job_wf(
                    jid,
                ) by {
                    assert(old(self).job_wf(jid));
                }
            }
        }
    }

    pub fn set_last_status(&mut self, status: i32)
        ensures
            *final(self) == (Shell { last_status: status, ..*old(self) }),
            old(self).wf() ==> final(self).wf(),
    {
        self.last_status = status;
    }

    pub fn last_status(&self) -> (r: i32)
        ensures
            r == self.last_status,
    {
        self.last_status
    }

    pub fn path_table(&self) -> (r: &PathTable)
        ensures
            r == self.path_table,
    {
        &self.path_table
    }

    /// The field separators used by word expansion.
    pub fn ifs(&self) -> (r: String)
        ensures
            r@ == "\n\t "@,
    {
        "\n\t ".to_owned()
    }

    pub fn jobs_len(&self) -> (n: usize)
        ensures
            n == self.jobs@.dom().len(),
    {
        self.jobs.len()
    }

    pub fn jobs_contains(&self, id: usize) -> (r: bool)
        ensures
            r == self.jobs@.contains_key(id),
    {
        self.jobs.contains_key(&id)
    }

    /// Mutable access to the job registry. A caller that changes it must
    /// re-establish the shell invariant itself.
    pub fn jobs_mut(&mut self) -> (r: &mut HashMap<usize, Job>)
        ensures
            *r == old(self).jobs,
            *final(self) == (Shell { jobs: *final(r), ..*old(self) }),
    {
        &mut self.jobs
    }

    pub fn get_job(&self, id: usize) -> (r: Option<&Job>)
        ensures
            match r {
                Some(j) => self.jobs@.contains_key(id) && *j == self.jobs@[id],
                None => !self.jobs@.contains_key(id),
            },
    {
        self.jobs.get(&id)
    }

    /// Whether the pid belongs to a live job.
    pub fn pid_assigned_to_live_job(&self, pid: i32) -> (r: bool)
        ensures
            r == self.pid_live(pid),
    {
        match self.pid_job_mapping.get(&pid) {
            Some(jid) => self.jobs.contains_key(jid),
            None => false,
        }
    }

    /// The job owning `pid`. Entries of destroyed jobs may remain in the
    /// index, but are never reported here as live.
    pub fn job_id_of_pid(&self, pid: i32) -> (r: Option<usize>)
        ensures
            r == if self.pid_live(pid) {
                Some(self.pid_job_mapping@[pid])
            } else {
                None::<usize>
            },
    {
        match self.pid_job_mapping.get(&pid) {
            Some(jid) => {
                if self.jobs.contains_key(jid) {
                    Some(*jid)
                } else {
                    None
                }
            },
            None => None,
        }
    }

    /// The smallest positive job id not in use.
    pub fn alloc_job_id(&self) -> (r: JobId)
        requires
            self.jobs@.dom().len() < usize::MAX as nat,
        ensures
            r.0 >= 1,
            !self.jobs@.contains_key(r.0),
            forall|k: usize| 1 <= k < r.0 ==> self.jobs@.contains_key(k),
    {
        let mut id: usize = 1;
        while self.jobs.contains_key(&id)
            invariant
                1 <= id,
                self.jobs@.dom().len() < usize::MAX as nat,
                forall|k: usize| 1 <= k < id ==> self.jobs@.contains_key(k),
            decreases usize::MAX - id,
        {
            proof {
                lemma_dense_prefix_card(self.jobs@, id);
            }
            id = id + 1;
        }
        JobId::new(id)
    }
}

impl Shell {
    /// Runs what the external parser made of a script: an empty parse is
    /// ignored with status 0, a fatal parse error yields status -1, and a
    /// parsed script is evaluated, yielding the last run pipeline's status —
    /// for a script the engine decides by itself, exactly the gating fold
    /// over the decided pipeline statuses.
    pub fn run_script<S: Spawner>(&mut self, spawner: &mut S, script: &ParsedScript) -> (r:
        ExitStatus)
        requires
            old(self).wf(),
        ensures
            final(self).wf(),
            old(self).wants_exit ==> final(self).wants_exit,
            final(self).interactive == old(self).interactive,
            final(self).path_table == old(self).path_table,
            final(self).shell_termios == old(self).shell_termios,
            final(self).shell_pgid == old(self).shell_pgid,
            script is Empty ==> r == ExitStatus::ExitedWith(0) && *final(self) == *old(self),
            script is Fatal ==> r == ExitStatus::ExitedWith(-1i32) && *final(self) == *old(self),
            match *script {
                ParsedScript::Parsed(ast) => {
                    &&& ((!old(self).wants_exit && (forall|i: int|
                        0 <= i < crate::eval::terms_labels(ast.terms@).len()
                            ==> !crate::eval::gate_matches(
                            ExitStatus::ExitedWith(0),
                            #[trigger] crate::eval::terms_labels(ast.terms@)[i],
                        ))) ==> r == ExitStatus::ExitedWith(0) && *final(self) == *old(self))
                    &&& ((!old(self).wants_exit && (forall|i: int|
                        0 <= i < crate::eval::terms_pipelines(ast.terms@).len()
                            ==> crate::eval::pipeline_decided(
                            #[trigger] crate::eval::terms_pipelines(ast.terms@)[i],
                            old(self).path_table.entries@,
                        ))) ==> r == crate::eval::sequence_status(
                        crate::eval::terms_labels(ast.terms@),
                        crate::eval::terms_statuses(ast.terms@, old(self).path_table.entries@),
                        ExitStatus::ExitedWith(0),
                    ) && *final(self) == (Shell {
                        last_status: final(self).last_status,
                        ..*old(self)
                    }))
                },
                _ => true,
            },
    {
        self.run_script_with_stdio(spawner, script)
    }

    /// Parses and runs a script in the shell's own standard streams.
    pub fn run_script_with_stdio<S: Spawner>(
        &mut self,
        spawner: &mut S,
        script: &ParsedScript,
    ) -> (r: ExitStatus)
        requires
            old(self).wf(),
        ensures
            final(self).wf(),
            old(self).wants_exit ==> final(self).wants_exit,
            final(self).interactive == old(self).interactive,
            final(self).path_table == old(self).path_table,
            final(self).shell_termios == old(self).shell_termios,
            final(self).shell_pgid == old(self).shell_pgid,
            script is Empty ==> r == ExitStatus::ExitedWith(0) && *final(self) == *old(self),
            script is Fatal ==> r == ExitStatus::ExitedWith(-1i32) && *final(self) == *old(self),
            match *script {
                ParsedScript::Parsed(ast) => {
                    &&& ((!old(self).wants_exit && (forall|i: int|
                        0 <= i < crate::eval::terms_labels(ast.terms@).len()
                            ==> !crate::eval::gate_matches(
                            ExitStatus::ExitedWith(0),
                            #[trigger] crate::eval::terms_labels(ast.terms@)[i],
                        ))) ==> r == ExitStatus::ExitedWith(0) && *final(self) == *old(self))
                    &&& ((!old(self).wants_exit && (forall|i: int|
                        0 <= i < crate::eval::terms_pipelines(ast.terms@).len()
                            ==> crate::eval::pipeline_decided(
                            #[trigger] crate::eval::terms_pipelines(ast.terms@)[i],
                            old(self).path_table.entries@,
                        ))) ==> r == crate::eval::sequence_status(
                        crate::eval::terms_labels(ast.terms@),
                        crate::eval::terms_statuses(ast.terms@, old(self).path_table.entries@),
                        ExitStatus::ExitedWith(0),
                    ) && *final(self) == (Shell {
                        last_status: final(self).last_status,
                        ..*old(self)
                    }))
                },
                _ => true,
            },
    {
        match script {
            ParsedScript::Parsed(ast) => crate::eval::eval(self, spawner, ast),
            ParsedScript::Empty => ExitStatus::ExitedWith(0),
            ParsedScript::Fatal => ExitStatus::ExitedWith(-1),
        }
    }
}

/// The state table after inserting every pid of `pids` as `Running`.
pub open spec fn states_with_running(
    states: Map<i32, ProcessState>,
    pids: Seq<i32>,
) -> Map<i32, ProcessState>
    decreases pids.len(),
{
    if pids.len() == 0 {
        states
    } else {
        states_with_running(states, pids.drop_last()).insert(pids.last(), ProcessState::Running)
    }
}

/// The pid-to-job index after pointing every pid of `pids` at job `jid`.
pub open spec fn mapping_with_job(m: Map<i32, usize>, pids: Seq<i32>, jid: usize) -> Map<
    i32,
    usize,
>
    decreases pids.len(),
{
    if pids.len() == 0 {
        m
    } else {
        mapping_with_job(m, pids.drop_last(), jid).insert(pids.last(), jid)
    }
}

proof fn lemma_seq_contains_split(pids: Seq<i32>, p: i32)
    requires
        pids.len() > 0,
    ensures
        pids.contains(p) <==> (pids.drop_last().contains(p) || pids.last() == p),
{
    if pids.contains(p) {
        let i = choose|i: int| 0 <= i < pids.len() && pids[i] == p;
        if i < pids.len() - 1 {
            assert(pids.drop_last()[i] == p);
        }
    }
    if pids.drop_last().contains(p) {
        let i = choose|i: int| 0 <= i < pids.drop_last().len() && pids.drop_last()[i] == p;
        assert(pids[i] == p);
    }
    if pids.last() == p {
        assert(pids[pids.len() - 1] == p);
    }
}

proof fn lemma_states_with_running(states: Map<i32, ProcessState>, pids: Seq<i32>)
    ensures
        forall|p: i32| #[trigger]
            states_with_running(states, pids).contains_key(p) <==> (states.contains_key(p)
                || pids.contains(p)),
        forall|p: i32|
            pids.contains(p) ==> states_with_running(states, pids)[p] == ProcessState::Running,
        forall|p: i32|
            !pids.contains(p) && states.contains_key(p) ==> states_with_running(states, pids)[p]
                == states[p],
    decreases pids.len(),
{
    if pids.len() > 0 {
        lemma_states_with_running(states, pids.drop_last());
        assert forall|p: i32| true implies (#[trigger] states_with_running(
            states,
            pids,
        ).contains_key(p) <==> (states.contains_key(p) || pids.contains(p))) by {
            lemma_seq_contains_split(pids, p);
            assert(states_with_running(states, pids.drop_last()).contains_key(p) <==> (
            states.contains_key(p) || pids.drop_last().contains(p)));
        }
        assert forall|p: i32| pids.contains(p) implies states_with_running(states, pids)[p]
            == ProcessState::Running by {
            lemma_seq_contains_split(pids, p);
            assert(states_with_running(states, pids.drop_last()).contains_key(p) <==> (
            states.contains_key(p) || pids.drop_last().contains(p)));
        }
        assert forall|p: i32| !pids.contains(p) && states.contains_key(p) implies states_with_running(
            states,
            pids,
        )[p] == states[p] by {
            lemma_seq_contains_split(pids, p);
            assert(states_with_running(states, pids.drop_last()).contains_key(p) <==> (
            states.contains_key(p) || pids.drop_last().contains(p)));
        }
    }
}

proof fn lemma_mapping_with_job(m: Map<i32, usize>, pids: Seq<i32>, jid: usize)
    ensures
        forall|p: i32| #[trigger]
            mapping_with_job(m, pids, jid).contains_key(p) <==> (m.contains_key(p) || pids.contains(
                p,
            )),
        forall|p: i32| pids.contains(p) ==> mapping_with_job(m, pids, jid)[p] == jid,
        forall|p: i32|
            !pids.contains(p) && m.contains_key(p) ==> mapping_with_job(m, pids, jid)[p] == m[p],
    decreases pids.len(),
{
    if pids.len() > 0 {
        lemma_mapping_with_job(m, pids.drop_last(), jid);
        assert forall|p: i32| true implies (#[trigger] mapping_with_job(
            m,
            pids,
            jid,
        ).contains_key(p) <==> (m.contains_key(p) || pids.contains(p))) by {
            lemma_seq_contains_split(pids, p);
            assert(mapping_with_job(m, pids.drop_last(), jid).contains_key(p) <==> (
            m.contains_key(p) || pids.drop_last().contains(p)));
        }
        assert forall|p: i32| pids.contains(p) implies mapping_with_job(m, pids, jid)[p] == jid by {
            lemma_seq_contains_split(pids, p);
            assert(mapping_with_job(m, pids.drop_last(), jid).contains_key(p) <==> (
            m.contains_key(p) || pids.drop_last().contains(p)));
        }
        assert forall|p: i32| !pids.contains(p) && m.contains_key(p) implies mapping_with_job(
            m,
            pids,
            jid,
        )[p] == m[p] by {
            lemma_seq_contains_split(pids, p);
            assert(mapping_with_job(m, pids.drop_last(), jid).contains_key(p) <==> (
            m.contains_key(p) || pids.drop_last().contains(p)));
        }
    }
}

impl Shell {
    /// Registers the processes of a freshly launched pipeline as a job. The
    /// job gets the smallest free positive id; every pid is recorded as
    /// `Running` and indexed to the new job. The kernel never hands out a pid
    /// that a live job still owns, which the caller establishes.
    pub fn create_job(&mut self, name: String, pgid: i32, childs: Vec<i32>) -> (r: JobId)
        requires
            old(self).wf(),
            old(self).jobs@.dom().len() < usize::MAX as nat,
            childs@.len() > 0,
            pgid == childs@[0],
            forall|k: int| 0 <= k < childs@.len() ==> !old(self).pid_live(#[trigger] childs@[k]),
        ensures
            final(self).wf(),
            r.0 >= 1,
            !old(self).jobs@.contains_key(r.0),
            forall|k: usize| 1 <= k < r.0 ==> old(self).jobs@.contains_key(k),
            final(self).jobs@ == old(self).jobs@.insert(
                r.0,
                Job {
                    id: r,
                    pgid,
                    cmd: name,
                    processes: childs,
                    termios: None::<nix::sys::termios::Termios>,
                },
            ),
            final(self).states@ == states_with_running(old(self).states@, childs@),
            forall|k: int|
                0 <= k < childs@.len() ==> final(self).states@.contains_key(
                    #[trigger] childs@[k],
                ),
            final(self).pid_job_mapping@ == mapping_with_job(
                old(self).pid_job_mapping@,
                childs@,
                r.0,
            ),
            *final(self) == (Shell {
                states: final(self).states,
                jobs: final(self).jobs,
                pid_job_mapping: final(self).pid_job_mapping,
                ..*old(self)
            }),
    {
        let id = self.alloc_job_id();
        let n = childs.len();
        let mut i: usize = 0;
        proof {
            assert(childs@.subrange(0, 0) =~= Seq::<i32>::empty());
        }
        while i < n
            invariant
                i <= n,
                n == childs@.len(),
                self.states@ == states_with_running(
                    old(self).states@,
                    childs@.subrange(0, i as int),
                ),
                self.pid_job_mapping@ == mapping_with_job(
                    old(self).pid_job_mapping@,
                    childs@.subrange(0, i as int),
                    id.0,
                ),
                *self == (Shell {
                    states: self.states,
                    pid_job_mapping: self.pid_job_mapping,
                    ..*old(self)
                }),
            decreases n - i,
        {
            let pid = childs[i];
            self.states.insert(pid, ProcessState::Running);
            self.pid_job_mapping.insert(pid, id.0);
            proof {
                let sub = childs@.subrange(0, i + 1);
                assert(sub.drop_last() =~= childs@.subrange(0, i as int));
                assert(sub.last() == childs@[i as int]);
            }
            i = i + 1;
        }
        proof {
            assert(childs@.subrange(0, n as int) =~= childs@);
        }
        let job = Job::new(id, pgid, name, childs);
        self.jobs.insert(id.0, job);
        proof {
            lemma_states_with_running(old(self).states@, childs@);
            lemma_mapping_with_job(old(self).pid_job_mapping@, childs@, id.0);
            assert forall|k: int| 0 <= k < childs@.len() implies self.states@.contains_key(
                #[trigger] childs@[k],
            ) by {
                assert(childs@.contains(childs@[k]));
            }
            assert forall|jid: usize| self.jobs@.contains_key(jid) implies self.job_wf(jid) by {
                if jid == id.0 {
                    let j = self.jobs@[jid];
                    assert forall|k: int| 0 <= k < j.processes@.len() implies {
                        &&& self.states@.contains_key(#[trigger] j.processes@[k])
                        &&& self.pid_job_mapping@.contains_key(j.processes@[k])
                        &&& self.pid_job_mapping@[j.processes@[k]] == jid
                    } by {
                        assert(childs@.contains(childs@[k]));
                    }
                } else {
                    assert(old(self).jobs@.contains_key(jid));
                    assert(old(self).job_wf(jid));
                    let j = self.jobs@[jid];
                    assert(j == old(self).jobs@[jid]);
                    assert forall|k: int| 0 <= k < j.processes@.len() implies {
                        &&& self.states@.contains_key(#[trigger] j.processes@[k])
                        &&& self.pid_job_mapping@.contains_key(j.processes@[k])
                        &&& self.pid_job_mapping@[j.processes@[k]] == jid
                    } by {
                        let p = j.processes@[k];
                        assert(old(self).pid_job_mapping@.contains_key(p)
                            && old(self).pid_job_mapping@[p] == jid);
                        assert(old(self).pid_live(p));
                        if childs@.contains(p) {
                            let c = choose|c: int| 0 <= c < childs@.len() && childs@[c] == p;
                            assert(!old(self).pid_live(childs@[c]));
                            assert(false);
                        }
                    }
                }
            }
        }
        id
    }
}

/// Law of job-id allocation: an id that is positive, free, and preceded only
/// by taken ids — what `alloc_job_id` returns — is the minimum of the
/// positive integers not in use, since any other free positive id can only
/// be larger.
pub proof fn lemma_allocated_id_is_minimum(jobs: Map<usize, Job>, r: usize, k: usize)
    requires
        r >= 1,
        !jobs.contains_key(r),
        forall|j: usize| 1 <= j < r ==> jobs.contains_key(j),
        k >= 1,
        !jobs.contains_key(k),
    ensures
        r <= k,
{
}

/// Law of state coverage and group-leader identity: in a well-formed shell,
/// every pid of a live job has an entry in the state table, its pid-to-job
/// entry resolves to that job, and the job's process group id is the pid of
/// its first process.
pub proof fn lemma_live_job_bookkeeping(shell: Shell, jid: usize)
    requires
        shell.wf(),
        shell.jobs@.contains_key(jid),
    ensures
        shell.jobs@[jid].processes@.len() > 0,
        shell.jobs@[jid].pgid == shell.jobs@[jid].processes@[0],
        forall|i: int|
            0 <= i < shell.jobs@[jid].processes@.len() ==> {
                &&& shell.states@.contains_key(#[trigger] shell.jobs@[jid].processes@[i])
                &&& shell.pid_live(shell.jobs@[jid].processes@[i])
                &&& shell.pid_job_mapping@[shell.jobs@[jid].processes@[i]] == jid
            },
{
    assert(shell.job_wf(jid));
}

/// If a map over usize keys holds every key from 1 through `id`, it holds at
/// least `id` entries.
proof fn lemma_dense_prefix_card<V>(m: Map<usize, V>, id: usize)
    requires
        m.dom().finite(),
        forall|k: usize| 1 <= k <= id ==> m.contains_key(k),
    ensures
        m.dom().len() >= id,
    decreases id,
{
    if id >= 1 {
        let m2 = m.remove(id);
        assert(m2.dom() =~= m.dom().remove(id));
        lemma_dense_prefix_card(m2, (id - 1) as usize);
    }
}

} // verus!
