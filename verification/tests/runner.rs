use ldot::text::copy_texts;
use ldot::runner::{
    execute_command_from_list, overall_status, plan_command, CommandOutcome,
    CommandRun, Completion, Invocation, OverallStatus,
};

fn commands(lines: &[&str]) -> Vec<String> {
    lines.iter().map(|l| l.to_string()).collect()
}

#[test]
fn plan_cuts_program_and_arguments() {
    assert_eq!(
        plan_command("echo hi there"),
        Invocation { program: "echo".to_string(), args: commands(&["hi", "there"]) }
    );
}

#[test]
fn plan_of_a_bare_program_has_no_arguments() {
    assert_eq!(plan_command("ls"), Invocation { program: "ls".to_string(), args: vec![] });
}

#[test]
fn plan_of_the_empty_line_has_an_empty_program() {
    assert_eq!(plan_command(""), Invocation { program: String::new(), args: vec![] });
}

#[test]
fn plan_splits_a_quoted_argument() {
    assert_eq!(
        plan_command("git commit -m \"two words\""),
        Invocation {
            program: "git".to_string(),
            args: commands(&["commit", "-m", "\"two", "words\""])
        }
    );
}

#[test]
fn plan_keeps_empty_arguments() {
    assert_eq!(
        plan_command("a  b"),
        Invocation { program: "a".to_string(), args: commands(&["", "b"]) }
    );
}

#[test]
fn outcome_succeeded_on_exit_code_zero_only() {
    let line = "echo hi".to_string();
    assert_eq!(
        CommandOutcome::new(&line, Completion::Exited(0)),
        CommandOutcome {
            command_text: "echo hi".to_string(),
            succeeded: true,
            detail: Completion::Exited(0)
        }
    );
    assert!(!CommandOutcome::new(&line, Completion::Exited(1)).succeeded);
    assert!(!CommandOutcome::new(&line, Completion::Exited(-1)).succeeded);
    assert!(!CommandOutcome::new(&line, Completion::SpawnFailure("no such file".to_string())).succeeded);
}

#[test]
fn run_goes_on_after_a_failure() {
    let mut run = CommandRun::new(commands(&["true", "false", "echo done"]));
    let mut started = vec![];
    let results = [Completion::Exited(0), Completion::Exited(1), Completion::Exited(0)];
    for result in results {
        let next = run.next_invocation();
        assert!(next.is_some());
        started.push(next.unwrap().program);
        run = run.record(result);
    }
    assert_eq!(started, commands(&["true", "false", "echo"]));
    assert!(run.is_finished());
    assert_eq!(run.next_invocation(), None);
    let report = run.finish();
    assert_eq!(report.status, OverallStatus::SomeFailed);
    assert_eq!(
        report.outcomes,
        vec![
            CommandOutcome {
                command_text: "true".to_string(),
                succeeded: true,
                detail: Completion::Exited(0)
            },
            CommandOutcome {
                command_text: "false".to_string(),
                succeeded: false,
                detail: Completion::Exited(1)
            },
            CommandOutcome {
                command_text: "echo done".to_string(),
                succeeded: true,
                detail: Completion::Exited(0)
            },
        ]
    );
}

#[test]
fn run_of_one_command_that_exits_zero_succeeds() {
    let run = CommandRun::new(commands(&["echo hi"]));
    assert!(!run.is_finished());
    let run = run.record(Completion::Exited(0));
    let report = run.finish();
    assert_eq!(report.status, OverallStatus::AllSucceeded);
    assert_eq!(report.outcomes.len(), 1);
    assert_eq!(report.outcomes[0].command_text, "echo hi");
    assert!(report.outcomes[0].succeeded);
}

#[test]
fn run_goes_on_after_a_spawn_failure() {
    let run = CommandRun::new(commands(&["nosuchprogram", "echo hi"]));
    let run = run.record(Completion::SpawnFailure("No such file or directory".to_string()));
    assert_eq!(
        run.next_invocation(),
        Some(Invocation { program: "echo".to_string(), args: commands(&["hi"]) })
    );
    let run = run.record(Completion::Exited(0));
    let report = run.finish();
    assert_eq!(report.status, OverallStatus::SomeFailed);
    assert_eq!(
        report.outcomes[0],
        CommandOutcome {
            command_text: "nosuchprogram".to_string(),
            succeeded: false,
            detail: Completion::SpawnFailure("No such file or directory".to_string())
        }
    );
    assert!(report.outcomes[1].succeeded);
}

#[test]
fn run_without_commands_succeeds_at_once() {
    let run = CommandRun::new(vec![]);
    assert!(run.is_finished());
    assert_eq!(run.next_invocation(), None);
    let report = run.finish();
    assert_eq!(report.status, OverallStatus::AllSucceeded);
    assert!(report.outcomes.is_empty());
}

#[test]
fn run_takes_no_more_results_than_commands() {
    let run = CommandRun::new(commands(&["echo hi"]));
    let run = run.record(Completion::Exited(0));
    let run = run.record(Completion::Exited(1));
    let report = run.finish();
    assert_eq!(report.status, OverallStatus::AllSucceeded);
    assert_eq!(report.outcomes.len(), 1);
}

#[test]
fn run_ended_early_reports_what_was_attempted() {
    let run = CommandRun::new(commands(&["a", "b"]));
    let run = run.record(Completion::Exited(3));
    let report = run.finish();
    assert_eq!(report.status, OverallStatus::SomeFailed);
    assert_eq!(report.outcomes.len(), 1);
    assert_eq!(report.outcomes[0].command_text, "a");
}

#[test]
fn status_is_all_succeeded_only_if_each_did() {
    let line = "x".to_string();
    let good = CommandOutcome::new(&line, Completion::Exited(0));
    let bad = CommandOutcome::new(&line, Completion::Exited(2));
    assert_eq!(overall_status(&vec![]), OverallStatus::AllSucceeded);
    assert_eq!(overall_status(&vec![good.clone(), good.clone()]), OverallStatus::AllSucceeded);
    assert_eq!(overall_status(&vec![good.clone(), bad.clone()]), OverallStatus::SomeFailed);
    assert_eq!(overall_status(&vec![bad, good]), OverallStatus::SomeFailed);
}

#[test]
fn copy_of_a_list_is_equal_to_it() {
    let list = commands(&["a", "", "b c"]);
    assert_eq!(copy_texts(&list), list);
    assert_eq!(copy_texts(&vec![]), Vec::<String>::new());
}

#[test]
fn three_commands_of_which_the_second_fails() {
    let results = vec![Completion::Exited(0), Completion::Exited(2), Completion::Exited(0)];
    let report = execute_command_from_list(commands(&["c1", "c2 x", "c3"]), &results);
    assert_eq!(report.status, OverallStatus::SomeFailed);
    assert_eq!(
        report.outcomes,
        vec![
            CommandOutcome {
                command_text: "c1".to_string(),
                succeeded: true,
                detail: Completion::Exited(0)
            },
            CommandOutcome {
                command_text: "c2 x".to_string(),
                succeeded: false,
                detail: Completion::Exited(2)
            },
            CommandOutcome {
                command_text: "c3".to_string(),
                succeeded: true,
                detail: Completion::Exited(0)
            },
        ]
    );
}

#[test]
fn one_command_that_exits_zero() {
    let report = execute_command_from_list(commands(&["c1"]), &vec![Completion::Exited(0)]);
    assert_eq!(report.status, OverallStatus::AllSucceeded);
    assert_eq!(
        report.outcomes,
        vec![CommandOutcome {
            command_text: "c1".to_string(),
            succeeded: true,
            detail: Completion::Exited(0)
        }]
    );
}

#[test]
fn spawn_failure_counts_as_a_failure() {
    let results = vec![Completion::SpawnFailure("not found".to_string()), Completion::Exited(0)];
    let report = execute_command_from_list(commands(&["nope", "ls"]), &results);
    assert_eq!(report.status, OverallStatus::SomeFailed);
    assert_eq!(report.outcomes.len(), 2);
    assert_eq!(report.outcomes[0].detail, Completion::SpawnFailure("not found".to_string()));
    assert!(report.outcomes[1].succeeded);
}

#[test]
fn results_and_commands_are_paired_as_far_as_both_go() {
    let results = vec![Completion::Exited(0)];
    let report = execute_command_from_list(commands(&["a", "b"]), &results);
    assert_eq!(report.outcomes.len(), 1);
    assert_eq!(report.outcomes[0].command_text, "a");
    let results = vec![Completion::Exited(0), Completion::Exited(1)];
    let report = execute_command_from_list(commands(&["a"]), &results);
    assert_eq!(report.status, OverallStatus::AllSucceeded);
    assert_eq!(report.outcomes.len(), 1);
    let report = execute_command_from_list(vec![], &vec![]);
    assert_eq!(report.status, OverallStatus::AllSucceeded);
    assert!(report.outcomes.is_empty());
}

#[test]
fn copy_of_a_result_is_equal_to_it() {
    assert_eq!(Completion::Exited(7).copy(), Completion::Exited(7));
    let failed = Completion::SpawnFailure("why".to_string());
    assert_eq!(failed.copy(), failed);
}
