use ldot::dispatch::{execute_stack_script, execute_stack_stage_script, select_document, DispatchError};
use ldot::document::{ProjectConfig, ScriptConfig, StackConfig, StageConfig};
use ldot::registry::{load_ldot_stack, regenerate_configuration, Candidate, Configuration, ReadFailure};
use ldot::runner::{CommandOutcome, Completion, Invocation, OverallStatus};
use ldot::wire::get_ldot_stack_config;

const WEB: &str = "{\"stack_name\":\"web\",\"projects\":[{\"project_name\":\"api\",\"stages\":[{\"stage_name\":\"build\",\"commands\":[\"echo hi\"]}]}],\"scripts\":[]}";

fn stage(name: &str, commands: &[&str]) -> StageConfig {
    StageConfig {
        stage_name: name.to_string(),
        stage_description: String::new(),
        prerequisites: vec![],
        commands: commands.iter().map(|c| c.to_string()).collect(),
    }
}

fn shop() -> StackConfig {
    StackConfig {
        version: "1".to_string(),
        stack_name: "shop".to_string(),
        description: String::new(),
        projects: vec![
            ProjectConfig {
                project_name: "api".to_string(),
                project_description: String::new(),
                stages: vec![stage("build", &["make api"]), stage("test", &["make check", "make lint"])],
            },
            ProjectConfig {
                project_name: "ui".to_string(),
                project_description: String::new(),
                stages: vec![stage("build", &["npm run build"]), stage("build", &["never"])],
            },
        ],
        scripts: vec![
            ScriptConfig {
                script_name: "deploy".to_string(),
                script_description: String::new(),
                commands: vec!["./deploy.sh now".to_string()],
            },
            ScriptConfig {
                script_name: "clean".to_string(),
                script_description: String::new(),
                commands: vec![],
            },
        ],
    }
}

fn registered(default_stack: &str) -> (Configuration, Vec<Candidate>) {
    let config = Configuration {
        default_stack: default_stack.to_string(),
        registered_stack_files: vec!["/shop.json".to_string()],
    };
    (config, vec![Candidate { path: "/shop.json".to_string(), document: Ok(shop()) }])
}

fn lines(run: Result<ldot::runner::CommandRun, DispatchError>) -> Vec<String> {
    let mut run = run.unwrap();
    let mut seen = vec![];
    while !run.is_finished() {
        run = run.record(Completion::Exited(0));
    }
    for outcome in run.finish().outcomes {
        seen.push(outcome.command_text);
    }
    seen
}

#[test]
fn registered_stage_runs_its_command() {
    let mut config = regenerate_configuration();
    let document = get_ldot_stack_config(Some(WEB));
    let loaded = load_ldot_stack(&mut config, Some("/tmp/a/ldot_stack.json".to_string()), &document);
    assert_eq!(loaded, Ok(()));
    let candidates = vec![Candidate { path: config.registered_stack_files[0].clone(), document }];
    let run = execute_stack_stage_script(&config, &candidates, Some("web"), "api", "build").unwrap();
    assert_eq!(
        run.next_invocation(),
        Some(Invocation { program: "echo".to_string(), args: vec!["hi".to_string()] })
    );
    let run = run.record(Completion::Exited(0));
    assert_eq!(run.next_invocation(), None);
    let report = run.finish();
    assert_eq!(report.status, OverallStatus::AllSucceeded);
    assert_eq!(
        report.outcomes,
        vec![CommandOutcome {
            command_text: "echo hi".to_string(),
            succeeded: true,
            detail: Completion::Exited(0)
        }]
    );
}

#[test]
fn missing_stage_is_not_found() {
    let mut config = regenerate_configuration();
    let document = get_ldot_stack_config(Some(WEB));
    let loaded = load_ldot_stack(&mut config, Some("/tmp/a/ldot_stack.json".to_string()), &document);
    assert_eq!(loaded, Ok(()));
    let candidates = vec![Candidate { path: config.registered_stack_files[0].clone(), document }];
    assert_eq!(
        execute_stack_stage_script(&config, &candidates, Some("web"), "api", "missing_stage").err(),
        Some(DispatchError::StageNotFound)
    );
}

#[test]
fn missing_project_is_reported_as_stage_not_found() {
    let (config, candidates) = registered("");
    assert_eq!(
        execute_stack_stage_script(&config, &candidates, Some("shop"), "db", "build").err(),
        Some(DispatchError::StageNotFound)
    );
}

#[test]
fn stage_is_looked_for_in_its_project() {
    let (config, candidates) = registered("");
    assert_eq!(
        lines(execute_stack_stage_script(&config, &candidates, Some("shop"), "api", "test")),
        vec!["make check".to_string(), "make lint".to_string()]
    );
    assert_eq!(
        lines(execute_stack_stage_script(&config, &candidates, Some("shop"), "ui", "build")),
        vec!["npm run build".to_string()]
    );
    assert_eq!(
        execute_stack_stage_script(&config, &candidates, Some("shop"), "ui", "test").err(),
        Some(DispatchError::StageNotFound)
    );
}

#[test]
fn default_stack_is_used_when_none_is_named() {
    let (config, candidates) = registered("shop");
    assert_eq!(
        lines(execute_stack_stage_script(&config, &candidates, None, "api", "build")),
        vec!["make api".to_string()]
    );
    assert_eq!(
        lines(execute_stack_script(&config, &candidates, None, "deploy")),
        vec!["./deploy.sh now".to_string()]
    );
}

#[test]
fn no_stack_named_and_no_default() {
    let (config, candidates) = registered("");
    assert_eq!(
        execute_stack_stage_script(&config, &candidates, None, "api", "build").err(),
        Some(DispatchError::NoStackSelected)
    );
    assert_eq!(
        execute_stack_script(&config, &candidates, None, "deploy").err(),
        Some(DispatchError::NoStackSelected)
    );
}

#[test]
fn named_stack_wins_over_the_default() {
    let (config, candidates) = registered("shop");
    assert_eq!(
        execute_stack_script(&config, &candidates, Some("ghost"), "deploy").err(),
        Some(DispatchError::StackNotFound("ghost".to_string()))
    );
}

#[test]
fn unknown_stack_is_not_found() {
    let (config, candidates) = registered("");
    assert_eq!(
        execute_stack_stage_script(&config, &candidates, Some("ghost"), "api", "build").err(),
        Some(DispatchError::StackNotFound("ghost".to_string()))
    );
    assert_eq!(
        select_document(&config, &candidates, Some("ghost")),
        Err(DispatchError::StackNotFound("ghost".to_string()))
    );
}

#[test]
fn unreadable_file_is_passed_over() {
    let config = regenerate_configuration();
    let candidates = vec![
        Candidate { path: "/gone.json".to_string(), document: Err(ReadFailure::Unreadable) },
        Candidate { path: "/shop.json".to_string(), document: Ok(shop()) },
    ];
    assert_eq!(select_document(&config, &candidates, Some("shop")), Ok(&shop()));
}

#[test]
fn script_runs_its_commands() {
    let (config, candidates) = registered("");
    let run = execute_stack_script(&config, &candidates, Some("shop"), "deploy").unwrap();
    assert_eq!(
        run.next_invocation(),
        Some(Invocation { program: "./deploy.sh".to_string(), args: vec!["now".to_string()] })
    );
}

#[test]
fn script_without_commands_is_finished_at_once() {
    let (config, candidates) = registered("");
    let run = execute_stack_script(&config, &candidates, Some("shop"), "clean").unwrap();
    assert!(run.is_finished());
    assert_eq!(run.finish().status, OverallStatus::AllSucceeded);
}

#[test]
fn missing_script_is_not_found() {
    let (config, candidates) = registered("");
    assert_eq!(
        execute_stack_script(&config, &candidates, Some("shop"), "build").err(),
        Some(DispatchError::ScriptNotFound)
    );
}

#[test]
fn find_stage_and_script_give_the_first_of_a_name() {
    let doc = shop();
    assert_eq!(doc.find_stage("ui", "build"), Some(&doc.projects[1].stages[0]));
    assert_eq!(doc.find_stage("api", "build"), Some(&doc.projects[0].stages[0]));
    assert_eq!(doc.find_stage("api", "deploy"), None);
    assert_eq!(doc.find_script("clean"), Some(&doc.scripts[1]));
    assert_eq!(doc.find_script("cleaner"), None);
    assert_eq!(doc.projects[0].find_stage("test"), Some(&doc.projects[0].stages[1]));
    assert_eq!(doc.projects[0].find_stage("tes"), None);
}

#[test]
fn find_stage_looks_through_every_project_of_the_name() {
    let mut doc = shop();
    doc.projects[1].project_name = "api".to_string();
    doc.projects[1].stages[0].stage_name = "pack".to_string();
    assert_eq!(doc.find_stage("api", "pack"), Some(&doc.projects[1].stages[0]));
    assert_eq!(doc.find_stage("api", "build"), Some(&doc.projects[0].stages[0]));
}

#[test]
fn dispatch_messages() {
    assert_eq!(DispatchError::StageNotFound.message(), "Stage not found");
    assert_eq!(DispatchError::ScriptNotFound.message(), "Script not found");
    assert_eq!(
        DispatchError::StackNotFound("ghost".to_string()).message(),
        "Could not find any stack files that have a stack name of: ghost"
    );
    assert_eq!(
        DispatchError::NoStackSelected.message(),
        "No stack is named and no default stack is set"
    );
}

#[test]
fn run_tells_its_commands() {
    let (config, candidates) = registered("");
    let run = execute_stack_stage_script(&config, &candidates, Some("shop"), "api", "test").unwrap();
    assert_eq!(run.command_count(), 2);
    assert_eq!(run.next_command(), Some(&"make check".to_string()));
    let run = run.record(Completion::Exited(0));
    assert_eq!(run.next_command(), Some(&"make lint".to_string()));
    let run = run.record(Completion::Exited(0));
    assert_eq!(run.next_command(), None);
}
