use ldot::document::{generate_ldot_stack, ProjectConfig, ScriptConfig, StackConfig, StageConfig};
use ldot::text::list_holds;
use ldot::validation::{find_violation, validate, NameOf, ValidationError};

fn project(name: &str) -> ProjectConfig {
    ProjectConfig {
        project_name: name.to_string(),
        project_description: String::new(),
        stages: vec![StageConfig {
            stage_name: "build".to_string(),
            stage_description: String::new(),
            prerequisites: vec![],
            commands: vec!["echo hi".to_string()],
        }],
    }
}

fn script(name: &str) -> ScriptConfig {
    ScriptConfig {
        script_name: name.to_string(),
        script_description: String::new(),
        commands: vec![],
    }
}

fn stack(name: &str, projects: &[&str], scripts: &[&str]) -> StackConfig {
    StackConfig {
        version: String::new(),
        stack_name: name.to_string(),
        description: String::new(),
        projects: projects.iter().map(|p| project(p)).collect(),
        scripts: scripts.iter().map(|s| script(s)).collect(),
    }
}

#[test]
fn valid_document_comes_back_unchanged() {
    let doc = stack("web", &["api", "ui"], &["deploy", "clean"]);
    assert_eq!(validate(doc.clone()), Ok(doc));
}

#[test]
fn document_without_projects_and_scripts_is_valid() {
    let doc = stack("web", &[], &[]);
    assert_eq!(find_violation(&doc), None);
}

#[test]
fn empty_stack_name_is_reported() {
    let doc = stack("", &["api"], &[]);
    assert_eq!(
        validate(doc),
        Err(ValidationError::EmptyName { of: NameOf::Stack })
    );
}

#[test]
fn stack_name_with_space_is_reported() {
    let doc = stack("my web", &["api"], &[]);
    assert_eq!(
        validate(doc),
        Err(ValidationError::NameHasSpace { of: NameOf::Stack, name: "my web".to_string() })
    );
}

#[test]
fn empty_project_name_is_reported() {
    let doc = stack("web", &["api", ""], &[]);
    assert_eq!(
        validate(doc),
        Err(ValidationError::EmptyName { of: NameOf::Project })
    );
}

#[test]
fn project_name_with_space_is_reported() {
    let doc = stack("web", &["the api"], &[]);
    assert_eq!(
        validate(doc),
        Err(ValidationError::NameHasSpace { of: NameOf::Project, name: "the api".to_string() })
    );
}

#[test]
fn two_projects_named_api_are_a_duplicate() {
    let doc = stack("web", &["api", "api"], &[]);
    assert_eq!(
        validate(doc),
        Err(ValidationError::DuplicateName { of: NameOf::Project, name: "api".to_string() })
    );
}

#[test]
fn empty_script_name_is_reported() {
    let doc = stack("web", &["api"], &[""]);
    assert_eq!(
        validate(doc),
        Err(ValidationError::EmptyName { of: NameOf::Script })
    );
}

#[test]
fn script_name_with_space_is_reported() {
    let doc = stack("web", &["api"], &["roll out"]);
    assert_eq!(
        validate(doc),
        Err(ValidationError::NameHasSpace { of: NameOf::Script, name: "roll out".to_string() })
    );
}

#[test]
fn duplicate_script_name_is_reported() {
    let doc = stack("web", &["api"], &["deploy", "clean", "deploy"]);
    assert_eq!(
        validate(doc),
        Err(ValidationError::DuplicateName { of: NameOf::Script, name: "deploy".to_string() })
    );
}

#[test]
fn a_project_and_a_script_may_share_a_name() {
    let doc = stack("web", &["api"], &["api"]);
    assert_eq!(find_violation(&doc), None);
}

#[test]
fn first_violation_wins_stack_before_projects() {
    let doc = stack("", &["api", "api"], &["a b"]);
    assert_eq!(find_violation(&doc), Some(ValidationError::EmptyName { of: NameOf::Stack }));
}

#[test]
fn first_violation_wins_projects_before_scripts() {
    let doc = stack("web", &["api", "ui", "api"], &[""]);
    assert_eq!(
        find_violation(&doc),
        Some(ValidationError::DuplicateName { of: NameOf::Project, name: "api".to_string() })
    );
}

#[test]
fn first_violation_wins_earlier_project_first() {
    let doc = stack("web", &["a b", ""], &[]);
    assert_eq!(
        find_violation(&doc),
        Some(ValidationError::NameHasSpace { of: NameOf::Project, name: "a b".to_string() })
    );
}

#[test]
fn empty_name_is_reported_before_its_repetition() {
    let doc = stack("web", &["", ""], &[]);
    assert_eq!(find_violation(&doc), Some(ValidationError::EmptyName { of: NameOf::Project }));
}

#[test]
fn stage_names_are_under_no_rule() {
    let mut doc = stack("web", &["api"], &[]);
    let stage = doc.projects[0].stages[0].clone();
    doc.projects[0].stages.push(stage);
    doc.projects[0].stages[0].stage_name = "has space".to_string();
    doc.projects[0].stages[1].stage_name = String::new();
    doc.projects[0].stages[1].prerequisites = vec!["no such stage".to_string()];
    assert_eq!(find_violation(&doc), None);
}

#[test]
fn validity_is_what_the_rules_say() {
    let names: [&[&str]; 5] = [&[], &["a"], &["a", "b"], &["a", "a"], &["a", "b c"]];
    for stack_name in ["web", "", "w b"] {
        for projects in names {
            for scripts in names {
                let doc = stack(stack_name, projects, scripts);
                let plain = |n: &&str| !n.is_empty() && !n.contains(' ');
                let distinct = |list: &[&str]| {
                    list.iter().enumerate().all(|(i, n)| !list[..i].contains(n))
                };
                let expected = plain(&stack_name)
                    && projects.iter().all(plain)
                    && distinct(projects)
                    && scripts.iter().all(plain)
                    && distinct(scripts);
                assert_eq!(validate(doc).is_ok(), expected);
            }
        }
    }
}

#[test]
fn list_holds_looks_for_the_whole_text() {
    let list = vec!["api".to_string(), "ui".to_string()];
    assert!(list_holds(&list, "ui"));
    assert!(!list_holds(&list, "u"));
    assert!(!list_holds(&list, "api "));
    assert!(!list_holds(&vec![], "api"));
}

#[test]
fn starter_stack_with_defaults() {
    let doc = generate_ldot_stack(String::new(), String::new(), String::new());
    assert_eq!(doc.stack_name, "stack");
    assert_eq!(doc.version, "1.0.0");
    assert_eq!(doc.description, "Stack Description");
    assert_eq!(doc.projects.len(), 1);
    assert_eq!(doc.projects[0].project_name, "some_project");
    assert_eq!(doc.projects[0].project_description, "some project description");
    assert_eq!(doc.projects[0].stages.len(), 1);
    assert_eq!(doc.projects[0].stages[0].stage_name, "stage_name");
    assert_eq!(doc.projects[0].stages[0].stage_description, "stage description");
    assert!(doc.projects[0].stages[0].prerequisites.is_empty());
    assert_eq!(doc.projects[0].stages[0].commands, vec!["echo hello world".to_string()]);
    assert_eq!(doc.scripts.len(), 1);
    assert_eq!(doc.scripts[0].script_name, "script_name");
    assert_eq!(doc.scripts[0].script_description, "script description");
    assert_eq!(doc.scripts[0].commands, vec!["echo hello world".to_string()]);
}

#[test]
fn starter_stack_keeps_the_answers() {
    let doc = generate_ldot_stack("web".to_string(), "2.1".to_string(), "The shop".to_string());
    assert_eq!(doc.stack_name, "web");
    assert_eq!(doc.version, "2.1");
    assert_eq!(doc.description, "The shop");
}

#[test]
fn starter_stack_is_valid() {
    let doc = generate_ldot_stack("web".to_string(), String::new(), String::new());
    assert_eq!(find_violation(&doc), None);
    let doc = generate_ldot_stack(String::new(), String::new(), String::new());
    assert_eq!(find_violation(&doc), None);
}

#[test]
fn messages_name_the_rule_and_the_name() {
    let of_stack = ValidationError::EmptyName { of: NameOf::Stack };
    assert_eq!(of_stack.message(), "Stack name is empty");
    let of_project = ValidationError::EmptyName { of: NameOf::Project };
    assert_eq!(of_project.message(), "Project name is empty");
    let of_script = ValidationError::EmptyName { of: NameOf::Script };
    assert_eq!(of_script.message(), "Script name is empty");
    let spaced = ValidationError::NameHasSpace { of: NameOf::Stack, name: "my web".to_string() };
    assert_eq!(spaced.message(), "Stack name contains a space");
    let spaced = ValidationError::NameHasSpace { of: NameOf::Project, name: "a b".to_string() };
    assert_eq!(spaced.message(), "Project name contains a space: a b");
    let spaced = ValidationError::NameHasSpace { of: NameOf::Script, name: "c d".to_string() };
    assert_eq!(spaced.message(), "Script name contains a space: c d");
    let twice = ValidationError::DuplicateName { of: NameOf::Project, name: "api".to_string() };
    assert_eq!(twice.message(), "Project name not unique: api");
    let twice = ValidationError::DuplicateName { of: NameOf::Script, name: "go".to_string() };
    assert_eq!(twice.message(), "Script name not unique: go");
}
