//! Job registry, process state table, reaper translation and PATH lookup.

use smash::kernel::WaitEvent;
use smash::process::{
    apply_wait_event, destroy_job, wait_for_job, JobId, ProcessState,
};
use smash::shell::{PathEntry, PathTable, Shell, Value};

#[test]
fn create_job_records_states_group_and_index() {
    let mut shell = Shell::new();
    let id = shell.create_job("echo hi | cat".to_string(), 10, vec![10, 20]);
    assert_eq!(id, JobId::new(1));
    let job = shell.get_job(1).unwrap();
    // The group leader is the first process of the pipeline.
    assert_eq!(job.pgid, 10);
    assert_eq!(job.processes, vec![10, 20]);
    assert_eq!(job.cmd, "echo hi | cat");
    // Every pid is running and indexed to the job.
    assert_eq!(shell.get_process_state(10), Some(ProcessState::Running));
    assert_eq!(shell.get_process_state(20), Some(ProcessState::Running));
    assert_eq!(shell.job_id_of_pid(10), Some(1));
    assert_eq!(shell.job_id_of_pid(20), Some(1));
    assert_eq!(shell.job_id_of_pid(30), None);
}

#[test]
fn job_ids_are_smallest_free_positive_integers() {
    let mut shell = Shell::new();
    let a = shell.create_job("a".to_string(), 101, vec![101]);
    let b = shell.create_job("b".to_string(), 102, vec![102]);
    let c = shell.create_job("c".to_string(), 103, vec![103]);
    assert_eq!(a, JobId::new(1));
    assert_eq!(b, JobId::new(2));
    assert_eq!(c, JobId::new(3));
    // Destroying the middle job frees its id for the next allocation.
    destroy_job(&mut shell, 2);
    assert!(!shell.jobs_contains(2));
    let d = shell.create_job("d".to_string(), 104, vec![104]);
    assert_eq!(d, JobId::new(2));
    let e = shell.create_job("e".to_string(), 105, vec![105]);
    assert_eq!(e, JobId::new(4));
}

#[test]
fn wait_events_translate_to_state_transitions() {
    let mut shell = Shell::new();
    shell.create_job("x".to_string(), 40, vec![40, 41, 42]);
    assert_eq!(apply_wait_event(&mut shell, WaitEvent::Exited(40, 3)), Some(40));
    assert_eq!(apply_wait_event(&mut shell, WaitEvent::Signaled(41)), Some(41));
    assert_eq!(apply_wait_event(&mut shell, WaitEvent::Stopped(42)), Some(42));
    assert_eq!(apply_wait_event(&mut shell, WaitEvent::NoChild), None);
    assert_eq!(shell.get_process_state(40), Some(ProcessState::Completed(3)));
    assert_eq!(shell.get_process_state(41), Some(ProcessState::Completed(-1)));
    assert_eq!(shell.get_process_state(42), Some(ProcessState::Stopped(42)));
}

#[test]
fn completed_job_is_destroyed_by_the_wait_path() {
    let mut shell = Shell::new();
    shell.create_job("echo hi | cat".to_string(), 50, vec![50, 51]);
    apply_wait_event(&mut shell, WaitEvent::Exited(50, 0));
    apply_wait_event(&mut shell, WaitEvent::Exited(51, 0));
    let state = wait_for_job(&mut shell, 1);
    assert_eq!(state, Some(ProcessState::Completed(0)));
    // The job is gone; its id is free again.
    assert!(!shell.jobs_contains(1));
    assert_eq!(shell.job_id_of_pid(50), None);
    let again = shell.create_job("next".to_string(), 60, vec![60]);
    assert_eq!(again, JobId::new(1));
}

#[test]
fn signal_terminated_job_reports_minus_one() {
    let mut shell = Shell::new();
    shell.create_job("x".to_string(), 70, vec![70]);
    apply_wait_event(&mut shell, WaitEvent::Signaled(70));
    let state = wait_for_job(&mut shell, 1);
    assert_eq!(state, Some(ProcessState::Completed(-1)));
    assert!(!shell.jobs_contains(1));
}

#[test]
fn stopped_job_stays_registered() {
    // The bookkeeping of a `sleep 1` stopped by a terminal signal: the job
    // remains in the registry with its state recorded as stopped.
    let mut shell = Shell::new();
    shell.create_job("sleep 1".to_string(), 80, vec![80]);
    apply_wait_event(&mut shell, WaitEvent::Stopped(80));
    let state = wait_for_job(&mut shell, 1);
    assert_eq!(state, Some(ProcessState::Stopped(80)));
    assert!(shell.jobs_contains(1));
    assert_eq!(shell.job_id_of_pid(80), Some(1));
    let job = shell.get_job(1).unwrap();
    assert_eq!(job.cmd, "sleep 1");
}

#[test]
fn mixed_outcome_ends_the_wait_by_the_last_process() {
    // The wait is over once every pid is completed or stopped, also when the
    // outcomes are mixed; the last process decides what happens to the job.
    let mut shell = Shell::new();
    shell.create_job("a | b".to_string(), 55, vec![55, 56]);
    apply_wait_event(&mut shell, WaitEvent::Stopped(55));
    apply_wait_event(&mut shell, WaitEvent::Exited(56, 3));
    let state = wait_for_job(&mut shell, 1);
    assert_eq!(state, Some(ProcessState::Completed(3)));
    assert!(!shell.jobs_contains(1));
}

#[test]
fn mixed_outcome_with_stopped_last_process_keeps_the_job() {
    let mut shell = Shell::new();
    shell.create_job("a | b".to_string(), 57, vec![57, 58]);
    apply_wait_event(&mut shell, WaitEvent::Exited(57, 0));
    apply_wait_event(&mut shell, WaitEvent::Stopped(58));
    let state = wait_for_job(&mut shell, 1);
    assert_eq!(state, Some(ProcessState::Stopped(58)));
    assert!(shell.jobs_contains(1));
}

#[test]
fn destroy_job_clears_the_foreground_pointer() {
    let mut shell = Shell::new();
    shell.create_job("x".to_string(), 90, vec![90]);
    shell.last_fore_job = Some(1);
    destroy_job(&mut shell, 1);
    assert_eq!(shell.last_fore_job, None);
}

#[test]
fn path_lookup_takes_the_first_match() {
    let mut table = PathTable::new();
    table.register("prog".to_string(), "/bin/prog".to_string());
    table.register("prog".to_string(), "/usr/bin/prog".to_string());
    table.register("other".to_string(), "/sbin/other".to_string());
    assert_eq!(table.lookup("prog"), Some("/bin/prog".to_string()));
    assert_eq!(table.lookup("other"), Some("/sbin/other".to_string()));
    assert_eq!(table.lookup("missing"), None);
    table.clear();
    assert_eq!(table.lookup("prog"), None);
}

#[test]
fn assigning_path_asks_for_a_rescan() {
    let mut shell = Shell::new();
    assert!(shell.set("PATH", Value::String("/bin".to_string()), false));
    assert!(!shell.set("PATH", Value::String("/bin".to_string()), true));
    assert!(!shell.set("HOME", Value::String("/root".to_string()), false));
}

#[test]
fn reaping_without_children_reports_nothing() {
    // The real kernel wait primitive, in no-hang mode: this process has no
    // children, so nothing is reported and nothing changes.
    let mut shell = Shell::new();
    shell.create_job("x".to_string(), 30, vec![30]);
    let reaped = smash::process::wait_for_any_process(&mut shell, true);
    assert_eq!(reaped, None);
    assert_eq!(shell.get_process_state(30), Some(ProcessState::Running));
    assert!(shell.jobs_contains(1));
}

#[test]
fn new_shell_starts_clean() {
    let shell = Shell::new();
    assert_eq!(shell.last_status(), 0);
    assert!(!shell.interactive());
    assert_eq!(shell.jobs_len(), 0);
    assert!(!shell.wants_exit);
    // The shell's process group id comes from the real kernel: positive.
    assert!(shell.shell_pgid >= 1);
}
