//! Sequencing, built-ins and script-level behaviour of the engine.

use smash::ast::{Ast, Command, ParsedScript, Pipeline, RunIf, Span, Term, Word};
use smash::builtins::{builtin_command, Builtin};
use smash::eval::{run_pipeline, run_terms, should_run};
use smash::process::{Context, ExitStatus, Spawner};
use smash::shell::Shell;

struct FakeSpawner {
    calls: Vec<(String, Vec<String>)>,
    next_pid: i32,
}

impl FakeSpawner {
    fn new() -> FakeSpawner {
        FakeSpawner { calls: Vec::new(), next_pid: 77000 }
    }
}

impl Spawner for FakeSpawner {
    fn spawn(
        &mut self,
        path: &String,
        argv: &Vec<String>,
        _ctx: &Context,
        _shell_termios: &Option<nix::sys::termios::Termios>,
    ) -> i32 {
        self.calls.push((path.clone(), argv.clone()));
        self.next_pid += 1;
        self.next_pid
    }
}

fn word(s: &str) -> Word {
    Word { spans: vec![Span::Literal(s.to_string())] }
}

fn simple(argv: &[&str]) -> Command {
    Command::SimpleCommand { argv: argv.iter().map(|s| word(s)).collect() }
}

fn pipeline(run_if: RunIf, commands: Vec<Command>) -> Pipeline {
    Pipeline { run_if, commands }
}

fn term(code: &str, pipelines: Vec<Pipeline>) -> Term {
    Term { code: code.to_string(), pipelines, background: false }
}

#[test]
fn should_run_gates_on_previous_status() {
    assert!(should_run(&ExitStatus::ExitedWith(0), &RunIf::Always));
    assert!(should_run(&ExitStatus::ExitedWith(7), &RunIf::Always));
    assert!(should_run(&ExitStatus::ExitedWith(0), &RunIf::Success));
    assert!(!should_run(&ExitStatus::ExitedWith(1), &RunIf::Success));
    assert!(!should_run(&ExitStatus::ExitedWith(0), &RunIf::Failure));
    assert!(should_run(&ExitStatus::ExitedWith(1), &RunIf::Failure));
    // A still-running previous pipeline matches neither Success nor Failure.
    assert!(!should_run(&ExitStatus::Running(42), &RunIf::Success));
    assert!(!should_run(&ExitStatus::Running(42), &RunIf::Failure));
    assert!(should_run(&ExitStatus::Running(42), &RunIf::Always));
}

#[test]
fn and_runs_second_after_success() {
    // Like `cd && cd`: the first built-in succeeds, so the `Success` pipeline
    // runs and the final status is 0.
    let mut shell = Shell::new();
    let mut spawner = FakeSpawner::new();
    let terms = vec![term(
        "cd && cd",
        vec![
            pipeline(RunIf::Always, vec![simple(&["cd"])]),
            pipeline(RunIf::Success, vec![simple(&["cd"])]),
        ],
    )];
    let status = run_terms(&mut shell, &mut spawner, &terms);
    assert_eq!(status, ExitStatus::ExitedWith(0));
    assert!(spawner.calls.is_empty());
}

#[test]
fn and_skips_second_after_failure() {
    // Like `false && cd`: the miss yields status 1 and the `Success`
    // pipeline is skipped, so the term keeps the failing status.
    let mut shell = Shell::new();
    let mut spawner = FakeSpawner::new();
    let terms = vec![term(
        "no_such_cmd && cd",
        vec![
            pipeline(RunIf::Always, vec![simple(&["no_such_cmd"])]),
            pipeline(RunIf::Success, vec![simple(&["cd"])]),
        ],
    )];
    let status = run_terms(&mut shell, &mut spawner, &terms);
    assert_eq!(status, ExitStatus::ExitedWith(1));
    assert!(spawner.calls.is_empty());
}

#[test]
fn or_runs_second_after_failure() {
    // Like `false || cd`: the `Failure` pipeline runs and the final status
    // is 0.
    let mut shell = Shell::new();
    let mut spawner = FakeSpawner::new();
    let terms = vec![term(
        "no_such_cmd || cd",
        vec![
            pipeline(RunIf::Always, vec![simple(&["no_such_cmd"])]),
            pipeline(RunIf::Failure, vec![simple(&["cd"])]),
        ],
    )];
    let status = run_terms(&mut shell, &mut spawner, &terms);
    assert_eq!(status, ExitStatus::ExitedWith(0));
}

#[test]
fn skipped_pipeline_does_not_influence_gating() {
    // After a failure, a skipped `Success` pipeline leaves the status as it
    // was, so a following `Failure` pipeline still runs.
    let mut shell = Shell::new();
    let mut spawner = FakeSpawner::new();
    let terms = vec![term(
        "no_such_cmd && cd || cd",
        vec![
            pipeline(RunIf::Always, vec![simple(&["no_such_cmd"])]),
            pipeline(RunIf::Success, vec![simple(&["cd"])]),
            pipeline(RunIf::Failure, vec![simple(&["cd"])]),
        ],
    )];
    let status = run_terms(&mut shell, &mut spawner, &terms);
    assert_eq!(status, ExitStatus::ExitedWith(0));
}

#[test]
fn gating_carries_across_terms() {
    // The status used for gating is the one of the most recently run
    // pipeline, also across term boundaries.
    let mut shell = Shell::new();
    let mut spawner = FakeSpawner::new();
    let terms = vec![
        term(
            "no_such_cmd",
            vec![pipeline(RunIf::Always, vec![simple(&["no_such_cmd"])])],
        ),
        term("cd", vec![pipeline(RunIf::Success, vec![simple(&["cd"])])]),
    ];
    let status = run_terms(&mut shell, &mut spawner, &terms);
    // The second term's pipeline was skipped: the failure status survives.
    assert_eq!(status, ExitStatus::ExitedWith(1));
}

#[test]
fn unknown_command_reports_status_one_and_no_job() {
    // PATH miss: status 1, no job is created, no child is spawned.
    let mut shell = Shell::new();
    let mut spawner = FakeSpawner::new();
    let p = pipeline(RunIf::Always, vec![simple(&["nonexistent_cmd_xyz"])]);
    let status = run_pipeline(&mut shell, &mut spawner, "nonexistent_cmd_xyz", &p, false);
    assert_eq!(status, ExitStatus::ExitedWith(1));
    assert_eq!(shell.jobs_len(), 0);
    assert!(spawner.calls.is_empty());
    assert_eq!(shell.last_status(), 1);
}

#[test]
fn empty_pipeline_is_noop_with_status_zero() {
    let mut shell = Shell::new();
    let mut spawner = FakeSpawner::new();
    let p = pipeline(RunIf::Always, vec![]);
    let status = run_pipeline(&mut shell, &mut spawner, "", &p, false);
    assert_eq!(status, ExitStatus::ExitedWith(0));
}

#[test]
fn empty_argv_is_noop_with_status_zero() {
    let mut shell = Shell::new();
    let mut spawner = FakeSpawner::new();
    let p = pipeline(RunIf::Always, vec![Command::SimpleCommand { argv: vec![] }]);
    let status = run_pipeline(&mut shell, &mut spawner, "", &p, false);
    assert_eq!(status, ExitStatus::ExitedWith(0));
}

#[test]
fn exit_builtin_requests_shell_exit() {
    let mut shell = Shell::new();
    let mut spawner = FakeSpawner::new();
    let terms = vec![
        term("exit", vec![pipeline(RunIf::Always, vec![simple(&["exit"])])]),
        // Nothing after an exit request runs.
        term(
            "no_such_cmd",
            vec![pipeline(RunIf::Always, vec![simple(&["no_such_cmd"])])],
        ),
    ];
    let status = run_terms(&mut shell, &mut spawner, &terms);
    assert_eq!(status, ExitStatus::ExitedWith(0));
    assert!(shell.wants_exit);
    assert_eq!(shell.jobs_len(), 0);
}

#[test]
fn builtin_lookup_knows_exit_and_cd() {
    assert!(matches!(builtin_command("exit"), Some(Builtin::Exit(_))));
    assert!(matches!(builtin_command("cd"), Some(Builtin::Cd(_))));
    assert!(builtin_command("ls").is_none());
    assert!(builtin_command("").is_none());
    assert_eq!(
        smash::builtins::BuiltinCommandError::NotFound.message(),
        "command not found"
    );
}

#[test]
fn not_found_diagnostic_names_the_command() {
    assert_eq!(
        smash::process::not_found_message("nonexistent_cmd_xyz"),
        "command not found `nonexistent_cmd_xyz`"
    );
}

#[test]
fn pipeline_status_is_recorded_as_last_status() {
    // Whatever exit code a pipeline finishes with becomes the shell's last
    // status: a built-in's 0 as much as a miss's 1.
    let mut shell = Shell::new();
    let mut spawner = FakeSpawner::new();
    let p = pipeline(RunIf::Always, vec![simple(&["cd"])]);
    let status = run_pipeline(&mut shell, &mut spawner, "cd", &p, false);
    assert_eq!(status, ExitStatus::ExitedWith(0));
    assert_eq!(shell.last_status(), 0);
    let p = pipeline(RunIf::Always, vec![simple(&["no_such_cmd"]), simple(&["cd"])]);
    let status = run_pipeline(&mut shell, &mut spawner, "no_such_cmd | cd", &p, false);
    assert_eq!(status, ExitStatus::ExitedWith(0));
    assert_eq!(shell.last_status(), 0);
}

#[test]
fn exit_in_a_pipeline_stops_the_pipeline() {
    let mut shell = Shell::new();
    let mut spawner = FakeSpawner::new();
    let p = pipeline(RunIf::Always, vec![simple(&["exit"]), simple(&["cd"])]);
    let status = run_pipeline(&mut shell, &mut spawner, "exit | cd", &p, false);
    assert_eq!(status, ExitStatus::ExitedWith(0));
    assert!(shell.wants_exit);
    assert_eq!(shell.last_status(), 0);
}

#[test]
fn run_script_maps_parser_outcomes() {
    let mut shell = Shell::new();
    let mut spawner = FakeSpawner::new();
    assert_eq!(
        shell.run_script(&mut spawner, &ParsedScript::Empty),
        ExitStatus::ExitedWith(0)
    );
    assert_eq!(
        shell.run_script(&mut spawner, &ParsedScript::Fatal),
        ExitStatus::ExitedWith(-1)
    );
    let ast = Ast {
        terms: vec![term("cd", vec![pipeline(RunIf::Always, vec![simple(&["cd"])])])],
    };
    assert_eq!(
        shell.run_script(&mut spawner, &ParsedScript::Parsed(ast)),
        ExitStatus::ExitedWith(0)
    );
}

#[test]
fn external_command_resolves_through_path_table() {
    // The resolved path, not the bare name, is handed to the spawner.
    let mut shell = Shell::new();
    let mut spawner = FakeSpawner::new();
    let entries = vec![
        smash::shell::PathEntry { name: "prog".to_string(), path: "/opt/bin/prog".to_string() },
    ];
    shell.rebuild_path_table(entries);
    let ctx = Context { pgid: None, background: false, interactive: false };
    let argv = vec!["prog".to_string(), "arg".to_string()];
    let status =
        smash::process::run_external_command(&ctx, &shell, argv, &mut spawner);
    assert!(matches!(status, ExitStatus::Running(_)));
    assert_eq!(spawner.calls.len(), 1);
    assert_eq!(spawner.calls[0].0, "/opt/bin/prog");
    assert_eq!(spawner.calls[0].1, vec!["prog".to_string(), "arg".to_string()]);
}

#[test]
fn external_command_direct_paths_skip_the_table() {
    let mut shell = Shell::new();
    let mut spawner = FakeSpawner::new();
    shell.rebuild_path_table(vec![]);
    let ctx = Context { pgid: None, background: false, interactive: false };
    let status = smash::process::run_external_command(
        &ctx,
        &shell,
        vec!["/bin/anything".to_string()],
        &mut spawner,
    );
    assert!(matches!(status, ExitStatus::Running(_)));
    let status = smash::process::run_external_command(
        &ctx,
        &shell,
        vec!["./local".to_string()],
        &mut spawner,
    );
    assert!(matches!(status, ExitStatus::Running(_)));
    assert_eq!(spawner.calls.len(), 2);
    assert_eq!(spawner.calls[0].0, "/bin/anything");
    assert_eq!(spawner.calls[1].0, "./local");
    // A bare name with an empty table is a miss.
    let status = smash::process::run_external_command(
        &ctx,
        &shell,
        vec!["bare".to_string()],
        &mut spawner,
    );
    assert_eq!(status, ExitStatus::ExitedWith(1));
    assert_eq!(spawner.calls.len(), 2);
}

#[test]
fn child_plan_follows_the_launch_context() {
    let interactive_fg = Context { pgid: None, background: false, interactive: true };
    let plan = smash::process::child_plan(&interactive_fg, 500);
    assert!(plan.set_group);
    assert!(plan.reset_signals);
    assert!(plan.transfer_terminal);
    assert_eq!(plan.pgid, 500);

    let joins = Context { pgid: Some(321), background: false, interactive: true };
    let plan = smash::process::child_plan(&joins, 500);
    assert_eq!(plan.pgid, 321);

    let background = Context { pgid: None, background: true, interactive: true };
    let plan = smash::process::child_plan(&background, 500);
    assert!(!plan.transfer_terminal);
    assert!(plan.reset_signals);

    let batch = Context { pgid: None, background: false, interactive: false };
    let plan = smash::process::child_plan(&batch, 500);
    assert!(!plan.set_group);
    assert!(!plan.reset_signals);
    assert!(!plan.transfer_terminal);
}
