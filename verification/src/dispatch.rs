//! From the name of a stack to its file, and from the name of a stage or a
//! script to the run of its commands.

use vstd::prelude::*;
use vstd::string::StringExecFns;
use crate::document::{StackConfig, StackView};
use crate::registry::{resolve, resolved, Candidate, Configuration, RegistryView};
use crate::runner::{CommandRun, CompletionView};
use crate::text::copy_texts;

verus! {

/// Why nothing was run.
#[derive(Debug, Clone, PartialEq, Eq)]
pub enum DispatchError {
    /// No stack was named and the registry has no default.
    NoStackSelected,
    /// No registered file gave a valid document for the stack of this name.
    StackNotFound(String),
    /// No project of the given name has a stage of the given name.
    StageNotFound,
    /// The stack has no script of the given name.
    ScriptNotFound,
}

/// What a `DispatchError` says.
pub enum DispatchFault {
    NoStackSelected,
    StackNotFound(Seq<char>),
    StageNotFound,
    ScriptNotFound,
}

impl View for DispatchError {
    type V = DispatchFault;

    open spec fn view(&self) -> DispatchFault {
        match self {
            DispatchError::NoStackSelected => DispatchFault::NoStackSelected,
            DispatchError::StackNotFound(name) => DispatchFault::StackNotFound(name@),
            DispatchError::StageNotFound => DispatchFault::StageNotFound,
            DispatchError::ScriptNotFound => DispatchFault::ScriptNotFound,
        }
    }
}

/// Why nothing was run, in words.
pub open spec fn fault_text(fault: DispatchFault) -> Seq<char> {
    match fault {
        DispatchFault::NoStackSelected => "No stack is named and no default stack is set"@,
        DispatchFault::StackNotFound(name) =>
            "Could not find any stack files that have a stack name of: "@ + name,
        DispatchFault::StageNotFound => "Stage not found"@,
        DispatchFault::ScriptNotFound => "Script not found"@,
    }
}

impl DispatchError {
    /// Why nothing was run, in words.
    pub fn message(&self) -> (text: String)
        ensures
            text@ == fault_text(self@),
    {
        match self {
            DispatchError::NoStackSelected => "No stack is named and no default stack is set"
                .to_owned(),
            DispatchError::StackNotFound(name) =>
                "Could not find any stack files that have a stack name of: ".to_owned().concat(
                    name.as_str(),
                ),
            DispatchError::StageNotFound => "Stage not found".to_owned(),
            DispatchError::ScriptNotFound => "Script not found".to_owned(),
        }
    }
}

/// A stack name as the caller gave it, if it gave one.
pub open spec fn named(stack: Option<&str>) -> Option<Seq<char>> {
    match stack {
        Some(name) => Some(name@),
        None => None,
    }
}

/// The stack that is meant: the one that was named, or else the registry's
/// default, if it has one.
pub open spec fn effective_stack(registry: RegistryView, stack: Option<Seq<char>>) -> Option<
    Seq<char>,
> {
    match stack {
        Some(name) => Some(name),
        None => if registry.default_stack.len() == 0 {
            None
        } else {
            Some(registry.default_stack)
        },
    }
}

/// The document of the stack that is meant: that of the candidate which the
/// stack's name resolves to.
pub open spec fn selected_document(
    registry: RegistryView,
    candidates: Seq<Candidate>,
    stack: Option<Seq<char>>,
) -> Result<StackView, DispatchFault> {
    match effective_stack(registry, stack) {
        None => Err(DispatchFault::NoStackSelected),
        Some(name) => match resolved(candidates, name) {
            None => Err(DispatchFault::StackNotFound(name)),
            Some(place) => Ok(candidates[place].document->Ok_0@),
        },
    }
}

/// The commands of a stage of the stack that is meant.
pub open spec fn stage_commands(
    registry: RegistryView,
    candidates: Seq<Candidate>,
    stack: Option<Seq<char>>,
    project: Seq<char>,
    stage: Seq<char>,
) -> Result<Seq<Seq<char>>, DispatchFault> {
    match selected_document(registry, candidates, stack) {
        Err(fault) => Err(fault),
        Ok(doc) => match doc.stage_index(project, stage) {
            Some((p, s)) => Ok(doc.projects[p].stages[s].commands),
            None => Err(DispatchFault::StageNotFound),
        },
    }
}

/// The commands of a script of the stack that is meant.
pub open spec fn script_commands(
    registry: RegistryView,
    candidates: Seq<Candidate>,
    stack: Option<Seq<char>>,
    script: Seq<char>,
) -> Result<Seq<Seq<char>>, DispatchFault> {
    match selected_document(registry, candidates, stack) {
        Err(fault) => Err(fault),
        Ok(doc) => match doc.script_index(script) {
            Some(k) => Ok(doc.scripts[k].commands),
            None => Err(DispatchFault::ScriptNotFound),
        },
    }
}

/// The file of the stack `stack_name`: the path of the first candidate that
/// gave a valid document for that stack. Candidates that gave no document,
/// or one that breaks a rule, are passed over. Where none is left the stack
/// is reported as not found.
pub fn get_ldot_stack_from_stack_name(candidates: &Vec<Candidate>, stack_name: &str) -> (path:
    Result<String, DispatchError>)
    ensures
        match resolved(candidates@, stack_name@) {
            Some(place) => path is Ok && path->Ok_0@ == candidates@[place].path@,
            None => path is Err && path->Err_0@ == DispatchFault::StackNotFound(stack_name@),
        },
{
    match resolve(candidates, stack_name) {
        Some(place) => Ok(candidates[place].path.clone()),
        None => Err(DispatchError::StackNotFound(stack_name.to_owned())),
    }
}

/// The document of the stack that is meant.
pub fn select_document<'a>(
    config: &Configuration,
    candidates: &'a Vec<Candidate>,
    stack: Option<&str>,
) -> (found: Result<&'a StackConfig, DispatchError>)
    ensures
        match found {
            Ok(doc) => selected_document(config@, candidates@, named(stack)) == Ok::<
                StackView,
                DispatchFault,
            >(doc@),
            Err(e) => selected_document(config@, candidates@, named(stack)) == Err::<
                StackView,
                DispatchFault,
            >(e@),
        },
{
    let name: &str = match stack {
        Some(name) => name,
        None => {
            if config.default_stack.as_str().is_empty() {
                return Err(DispatchError::NoStackSelected);
            }
            config.default_stack.as_str()
        },
    };
    match resolve(candidates, name) {
        Some(place) => {
            proof {
                crate::registry::lemma_resolved(candidates@, name@);
            }
            match &candidates[place].document {
                Ok(doc) => Ok(doc),
                Err(_) => Err(DispatchError::StackNotFound(name.to_owned())),
            }
        },
        None => Err(DispatchError::StackNotFound(name.to_owned())),
    }
}

/// Prepares the run of a stage. The stack is the one named, or else the
/// registry's default; its file is the first candidate that gave a valid
/// document for it; the stage is looked for in that document under the
/// project's name. The run holds the stage's commands, none attempted yet.
pub fn execute_stack_stage_script(
    config: &Configuration,
    candidates: &Vec<Candidate>,
    stack: Option<&str>,
    project: &str,
    stage: &str,
) -> (prepared: Result<CommandRun, DispatchError>)
    ensures
        match stage_commands(config@, candidates@, named(stack), project@, stage@) {
            Ok(commands) => prepared is Ok && prepared->Ok_0.commands() == commands
                && prepared->Ok_0.results() == Seq::<CompletionView>::empty(),
            Err(fault) => prepared is Err && prepared->Err_0@ == fault,
        },
{
    match select_document(config, candidates, stack) {
        Ok(doc) => match doc.find_stage(project, stage) {
            Some(found) => {
                proof {
                    let (p, s) = doc@.stage_index(project@, stage@)->Some_0;
                    doc@.offers(project@, stage@).index_of_first_ensures(true);
                    doc@.projects[p].stage_names().index_of_first_ensures(stage@);
                    assert(doc@.projects[p] == doc.projects@[p]@);
                    assert(doc@.projects[p].stages[s] == doc.projects@[p].stages@[s]@);
                }
                Ok(CommandRun::new(copy_texts(&found.commands)))
            },
            None => Err(DispatchError::StageNotFound),
        },
        Err(e) => Err(e),
    }
}

/// Prepares the run of a script. The stack is selected as for a stage; the
/// script is looked for in its document. The run holds the script's
/// commands, none attempted yet.
pub fn execute_stack_script(
    config: &Configuration,
    candidates: &Vec<Candidate>,
    stack: Option<&str>,
    script_name: &str,
) -> (prepared: Result<CommandRun, DispatchError>)
    ensures
        match script_commands(config@, candidates@, named(stack), script_name@) {
            Ok(commands) => prepared is Ok && prepared->Ok_0.commands() == commands
                && prepared->Ok_0.results() == Seq::<CompletionView>::empty(),
            Err(fault) => prepared is Err && prepared->Err_0@ == fault,
        },
{
    match select_document(config, candidates, stack) {
        Ok(doc) => match doc.find_script(script_name) {
            Some(found) => {
                proof {
                    let k = doc@.script_index(script_name@)->Some_0;
                    doc@.script_names().index_of_first_ensures(script_name@);
                    assert(doc@.scripts[k] == doc.scripts@[k]@);
                }
                Ok(CommandRun::new(copy_texts(&found.commands)))
            },
            None => Err(DispatchError::ScriptNotFound),
        },
        Err(e) => Err(e),
    }
}

} // verus!
