//! The stack document: a named stack of projects, each with its stages, and
//! of scripts.

use vstd::prelude::*;
use crate::search::{lemma_first_place, lemma_no_place};
use crate::text::{same_text, texts};

verus! {

/// A named list of shell commands within a project.
#[derive(Debug, Clone, PartialEq, Eq)]
pub struct StageConfig {
    pub stage_name: String,
    pub stage_description: String,
    /// Names of other stages. Kept as written; nothing orders or gates a run
    /// by them.
    pub prerequisites: Vec<String>,
    pub commands: Vec<String>,
}

/// A named group of stages.
#[derive(Debug, Clone, PartialEq, Eq)]
pub struct ProjectConfig {
    pub project_name: String,
    pub project_description: String,
    pub stages: Vec<StageConfig>,
}

/// A named list of shell commands that belongs to the stack itself.
#[derive(Debug, Clone, PartialEq, Eq)]
pub struct ScriptConfig {
    pub script_name: String,
    pub script_description: String,
    pub commands: Vec<String>,
}

/// A stack document.
#[derive(Debug, Clone, PartialEq, Eq)]
pub struct StackConfig {
    pub version: String,
    pub stack_name: String,
    pub description: String,
    pub projects: Vec<ProjectConfig>,
    pub scripts: Vec<ScriptConfig>,
}

/// What a stage says.
pub struct StageView {
    pub stage_name: Seq<char>,
    pub stage_description: Seq<char>,
    pub prerequisites: Seq<Seq<char>>,
    pub commands: Seq<Seq<char>>,
}

/// What a project says.
pub struct ProjectView {
    pub project_name: Seq<char>,
    pub project_description: Seq<char>,
    pub stages: Seq<StageView>,
}

/// What a script says.
pub struct ScriptView {
    pub script_name: Seq<char>,
    pub script_description: Seq<char>,
    pub commands: Seq<Seq<char>>,
}

/// What a stack document says.
pub struct StackView {
    pub version: Seq<char>,
    pub stack_name: Seq<char>,
    pub description: Seq<char>,
    pub projects: Seq<ProjectView>,
    pub scripts: Seq<ScriptView>,
}

impl View for StageConfig {
    type V = StageView;

    open spec fn view(&self) -> StageView {
        StageView {
            stage_name: self.stage_name@,
            stage_description: self.stage_description@,
            prerequisites: texts(self.prerequisites@),
            commands: texts(self.commands@),
        }
    }
}

impl View for ProjectConfig {
    type V = ProjectView;

    open spec fn view(&self) -> ProjectView {
        ProjectView {
            project_name: self.project_name@,
            project_description: self.project_description@,
            stages: self.stages@.map_values(|s: StageConfig| s@),
        }
    }
}

impl View for ScriptConfig {
    type V = ScriptView;

    open spec fn view(&self) -> ScriptView {
        ScriptView {
            script_name: self.script_name@,
            script_description: self.script_description@,
            commands: texts(self.commands@),
        }
    }
}

impl View for StackConfig {
    type V = StackView;

    open spec fn view(&self) -> StackView {
        StackView {
            version: self.version@,
            stack_name: self.stack_name@,
            description: self.description@,
            projects: self.projects@.map_values(|p: ProjectConfig| p@),
            scripts: self.scripts@.map_values(|s: ScriptConfig| s@),
        }
    }
}

impl ProjectView {
    /// The names of the project's stages, in the order of the document.
    pub open spec fn stage_names(self) -> Seq<Seq<char>> {
        self.stages.map_values(|s: StageView| s.stage_name)
    }

    /// Whether this is the project `project` and has a stage `stage`.
    pub open spec fn offers(self, project: Seq<char>, stage: Seq<char>) -> bool {
        self.project_name == project && self.stage_names().contains(stage)
    }
}

impl StackView {
    /// The names of the projects, in the order of the document.
    pub open spec fn project_names(self) -> Seq<Seq<char>> {
        self.projects.map_values(|p: ProjectView| p.project_name)
    }

    /// The names of the scripts, in the order of the document.
    pub open spec fn script_names(self) -> Seq<Seq<char>> {
        self.scripts.map_values(|s: ScriptView| s.script_name)
    }

    /// The place of the script `name`: the first one of that name.
    pub open spec fn script_index(self, name: Seq<char>) -> Option<int> {
        self.script_names().index_of_first(name)
    }

    /// For each project, whether it is the project `project` and has a stage
    /// `stage`.
    pub open spec fn offers(self, project: Seq<char>, stage: Seq<char>) -> Seq<bool> {
        self.projects.map_values(|p: ProjectView| p.offers(project, stage))
    }

    /// The place of the stage `stage` of the project `project`, as the
    /// project's index and the stage's index within it: the first project of
    /// that name that has such a stage, and its first stage of that name.
    pub open spec fn stage_index(self, project: Seq<char>, stage: Seq<char>) -> Option<(int, int)> {
        match self.offers(project, stage).index_of_first(true) {
            Some(p) => match self.projects[p].stage_names().index_of_first(stage) {
                Some(s) => Some((p, s)),
                None => None,
            },
            None => None,
        }
    }
}

impl ProjectConfig {
    /// The first stage named `stage`, if the project has one.
    pub fn find_stage(&self, stage: &str) -> (found: Option<&StageConfig>)
        ensures
            found == match self@.stage_names().index_of_first(stage@) {
                Some(s) => Some(&self.stages@[s]),
                None => None,
            },
    {
        let ghost names = self@.stage_names();
        let mut at: usize = 0;
        while at < self.stages.len()
            invariant
                at <= self.stages@.len(),
                names == self@.stage_names(),
                forall|j: int| 0 <= j < at ==> names[j] != stage@,
            decreases self.stages.len() - at,
        {
            if same_text(self.stages[at].stage_name.as_str(), stage) {
                proof {
                    lemma_first_place(names, stage@, at as int);
                }
                return Some(&self.stages[at]);
            }
            at = at + 1;
        }
        proof {
            lemma_no_place(names, stage@);
        }
        None
    }
}

impl StackConfig {
    /// The first script named `name`, if the document has one.
    pub fn find_script(&self, name: &str) -> (found: Option<&ScriptConfig>)
        ensures
            found == match self@.script_index(name@) {
                Some(k) => Some(&self.scripts@[k]),
                None => None,
            },
    {
        let ghost names = self@.script_names();
        let mut at: usize = 0;
        while at < self.scripts.len()
            invariant
                at <= self.scripts@.len(),
                names == self@.script_names(),
                forall|j: int| 0 <= j < at ==> names[j] != name@,
            decreases self.scripts.len() - at,
        {
            if same_text(self.scripts[at].script_name.as_str(), name) {
                proof {
                    lemma_first_place(names, name@, at as int);
                }
                return Some(&self.scripts[at]);
            }
            at = at + 1;
        }
        proof {
            lemma_no_place(names, name@);
        }
        None
    }

    /// The stage `stage` of the project `project`: projects are looked
    /// through in order for that name, and the stages of each such project in
    /// order. `None` says that no project of that name has such a stage; it
    /// does not say which of the two names was not found.
    pub fn find_stage(&self, project: &str, stage: &str) -> (found: Option<&StageConfig>)
        ensures
            found == match self@.stage_index(project@, stage@) {
                Some((p, s)) => Some(&self.projects@[p].stages@[s]),
                None => None,
            },
    {
        let ghost offers = self@.offers(project@, stage@);
        let mut at: usize = 0;
        while at < self.projects.len()
            invariant
                at <= self.projects@.len(),
                offers == self@.offers(project@, stage@),
                forall|j: int| 0 <= j < at ==> !offers[j],
            decreases self.projects.len() - at,
        {
            if same_text(self.projects[at].project_name.as_str(), project) {
                proof {
                    self.projects@[at as int]@.stage_names().index_of_first_ensures(stage@);
                }
                let found = self.projects[at].find_stage(stage);
                if found.is_some() {
                    proof {
                        assert(offers[at as int]);
                        lemma_first_place(offers, true, at as int);
                    }
                    return found;
                }
            }
            assert(!offers[at as int]);
            at = at + 1;
        }
        proof {
            lemma_no_place(offers, true);
        }
        None
    }
}

/// An answer, or the default where the answer is empty.
pub open spec fn or_default(answer: Seq<char>, default: Seq<char>) -> Seq<char> {
    if answer.len() == 0 {
        default
    } else {
        answer
    }
}

/// The document that a new stack starts from: one project with one stage,
/// and one script, each with a single command. A name, version or
/// description that was left empty gets its default.
pub open spec fn starter_stack(name: Seq<char>, version: Seq<char>, description: Seq<char>) -> StackView {
    StackView {
        version: or_default(version, "1.0.0"@),
        stack_name: or_default(name, "stack"@),
        description: or_default(description, "Stack Description"@),
        projects: seq![
            ProjectView {
                project_name: "some_project"@,
                project_description: "some project description"@,
                stages: seq![
                    StageView {
                        stage_name: "stage_name"@,
                        stage_description: "stage description"@,
                        prerequisites: Seq::<Seq<char>>::empty(),
                        commands: seq!["echo hello world"@],
                    },
                ],
            },
        ],
        scripts: seq![
            ScriptView {
                script_name: "script_name"@,
                script_description: "script description"@,
                commands: seq!["echo hello world"@],
            },
        ],
    }
}

/// `answer`, or `default` where `answer` is empty.
pub fn answer_or(answer: String, default: &str) -> (text: String)
    ensures
        text@ == or_default(answer@, default@),
{
    if answer.as_str().is_empty() {
        default.to_owned()
    } else {
        answer
    }
}

/// The document that a new stack starts from, for the name, version and
/// description that were asked for.
pub fn generate_ldot_stack(
    stack_name: String,
    stack_version: String,
    stack_description: String,
) -> (stack_config: StackConfig)
    ensures
        stack_config@ == starter_stack(stack_name@, stack_version@, stack_description@),
{
    let mut stage_commands: Vec<String> = Vec::new();
    stage_commands.push("echo hello world".to_owned());
    let stage = StageConfig {
        stage_name: "stage_name".to_owned(),
        stage_description: "stage description".to_owned(),
        prerequisites: Vec::new(),
        commands: stage_commands,
    };
    let mut stages: Vec<StageConfig> = Vec::new();
    stages.push(stage);
    let project = ProjectConfig {
        project_name: "some_project".to_owned(),
        project_description: "some project description".to_owned(),
        stages,
    };
    let mut projects: Vec<ProjectConfig> = Vec::new();
    projects.push(project);
    let mut script_commands: Vec<String> = Vec::new();
    script_commands.push("echo hello world".to_owned());
    let script = ScriptConfig {
        script_name: "script_name".to_owned(),
        script_description: "script description".to_owned(),
        commands: script_commands,
    };
    let mut scripts: Vec<ScriptConfig> = Vec::new();
    scripts.push(script);
    let stack_config = StackConfig {
        version: answer_or(stack_version, "1.0.0"),
        stack_name: answer_or(stack_name, "stack"),
        description: answer_or(stack_description, "Stack Description"),
        projects,
        scripts,
    };
    proof {
        let wanted = starter_stack(stack_name@, stack_version@, stack_description@);
        assert(stage@.prerequisites =~= wanted.projects[0].stages[0].prerequisites);
        assert(stage@.commands =~= wanted.projects[0].stages[0].commands);
        assert(stage@ == wanted.projects[0].stages[0]);
        assert(project@.stages =~= wanted.projects[0].stages);
        assert(script@.commands =~= wanted.scripts[0].commands);
        assert(stack_config@.projects =~= wanted.projects);
        assert(stack_config@.scripts =~= wanted.scripts);
    }
    stack_config
}

} // verus!
