//! The two files as JSON: what a JSON value has to look like to be a stack
//! document or a registry, and the reading of a file's text into one.

use vstd::prelude::*;
use crate::document::{
    ProjectConfig,
    ProjectView,
    ScriptConfig,
    ScriptView,
    StackConfig,
    StackView,
    StageConfig,
    StageView,
};
use crate::json::{
    find_member,
    item_views,
    json_of,
    member,
    member_views,
    parse_json,
    Json,
    JsonView,
    Member,
    MemberView,
};
use crate::registry::{
    regenerate_configuration,
    Candidate,
    Configuration,
    ReadFailure,
    RegistryError,
    RegistryView,
};
use crate::validation::{lemma_valid_iff_no_violation, validate, violation};
use crate::text::texts;

verus! {

/// The text under `key`, which has to be there.
pub open spec fn text_under(members: Seq<MemberView>, key: Seq<char>) -> Option<Seq<char>> {
    match member(members, key) {
        Some(JsonView::Text(t)) => Some(t),
        _ => None,
    }
}

/// The text under `key`, or the empty text where the object has no such key.
/// Anything but a text under the key is a mistake.
pub open spec fn text_under_or_empty(members: Seq<MemberView>, key: Seq<char>) -> Option<
    Seq<char>,
> {
    match member(members, key) {
        None => Some(Seq::<char>::empty()),
        Some(JsonView::Text(t)) => Some(t),
        Some(_) => None,
    }
}

/// The items as texts, where each of them is one.
pub open spec fn texts_in(items: Seq<JsonView>) -> Option<Seq<Seq<char>>> {
    if forall|i: int| 0 <= i < items.len() ==> (#[trigger] items[i]) is Text {
        Some(items.map_values(|j: JsonView| j->Text_0))
    } else {
        None
    }
}

/// The list of texts under `key`, or the empty list where the object has no
/// such key. Anything but an array of texts under the key is a mistake.
pub open spec fn texts_under_or_empty(members: Seq<MemberView>, key: Seq<char>) -> Option<
    Seq<Seq<char>>,
> {
    match member(members, key) {
        None => Some(Seq::<Seq<char>>::empty()),
        Some(JsonView::Array(items)) => texts_in(items),
        Some(_) => None,
    }
}

/// The list of texts under `key`, which has to be there.
pub open spec fn texts_under(members: Seq<MemberView>, key: Seq<char>) -> Option<Seq<Seq<char>>> {
    match member(members, key) {
        Some(JsonView::Array(items)) => texts_in(items),
        _ => None,
    }
}

/// The items of the array under `key`, which has to be there.
pub open spec fn items_under(members: Seq<MemberView>, key: Seq<char>) -> Option<Seq<JsonView>> {
    match member(members, key) {
        Some(JsonView::Array(items)) => Some(items),
        _ => None,
    }
}

/// The stage that a JSON value stands for: an object with a text
/// `stage_name`; `stage_description`, `prerequisites` and `commands` may be
/// missing and are then empty.
pub open spec fn stage_of(j: JsonView) -> Option<StageView> {
    if j is Object {
        let m = j->Object_0;
        let name = text_under(m, "stage_name"@);
        let description = text_under_or_empty(m, "stage_description"@);
        let prerequisites = texts_under_or_empty(m, "prerequisites"@);
        let commands = texts_under_or_empty(m, "commands"@);
        if name is Some && description is Some && prerequisites is Some && commands is Some {
            Some(
                StageView {
                    stage_name: name->Some_0,
                    stage_description: description->Some_0,
                    prerequisites: prerequisites->Some_0,
                    commands: commands->Some_0,
                },
            )
        } else {
            None
        }
    } else {
        None
    }
}

/// The items as stages, where each of them stands for one.
pub open spec fn stages_in(items: Seq<JsonView>) -> Option<Seq<StageView>> {
    if forall|i: int| 0 <= i < items.len() ==> stage_of(#[trigger] items[i]) is Some {
        Some(items.map_values(|j: JsonView| stage_of(j)->Some_0))
    } else {
        None
    }
}

/// The project that a JSON value stands for: an object with a text
/// `project_name` and an array `stages` of stages; `project_description` may
/// be missing and is then empty.
pub open spec fn project_of(j: JsonView) -> Option<ProjectView> {
    if j is Object {
        let m = j->Object_0;
        let name = text_under(m, "project_name"@);
        let description = text_under_or_empty(m, "project_description"@);
        let stages = match items_under(m, "stages"@) {
            Some(items) => stages_in(items),
            None => None,
        };
        if name is Some && description is Some && stages is Some {
            Some(
                ProjectView {
                    project_name: name->Some_0,
                    project_description: description->Some_0,
                    stages: stages->Some_0,
                },
            )
        } else {
            None
        }
    } else {
        None
    }
}

/// The items as projects, where each of them stands for one.
pub open spec fn projects_in(items: Seq<JsonView>) -> Option<Seq<ProjectView>> {
    if forall|i: int| 0 <= i < items.len() ==> project_of(#[trigger] items[i]) is Some {
        Some(items.map_values(|j: JsonView| project_of(j)->Some_0))
    } else {
        None
    }
}

/// The script that a JSON value stands for: an object with a text
/// `script_name`; `script_description` and `commands` may be missing and are
/// then empty.
pub open spec fn script_of(j: JsonView) -> Option<ScriptView> {
    if j is Object {
        let m = j->Object_0;
        let name = text_under(m, "script_name"@);
        let description = text_under_or_empty(m, "script_description"@);
        let commands = texts_under_or_empty(m, "commands"@);
        if name is Some && description is Some && commands is Some {
            Some(
                ScriptView {
                    script_name: name->Some_0,
                    script_description: description->Some_0,
                    commands: commands->Some_0,
                },
            )
        } else {
            None
        }
    } else {
        None
    }
}

/// The items as scripts, where each of them stands for one.
pub open spec fn scripts_in(items: Seq<JsonView>) -> Option<Seq<ScriptView>> {
    if forall|i: int| 0 <= i < items.len() ==> script_of(#[trigger] items[i]) is Some {
        Some(items.map_values(|j: JsonView| script_of(j)->Some_0))
    } else {
        None
    }
}

/// The stack document that a JSON value stands for: an object with a text
/// `stack_name`, an array `projects` of projects and an array `scripts` of
/// scripts; `version` and `description` may be missing and are then empty.
/// Members under other keys are not looked at.
pub open spec fn stack_of(j: JsonView) -> Option<StackView> {
    if j is Object {
        let m = j->Object_0;
        let version = text_under_or_empty(m, "version"@);
        let name = text_under(m, "stack_name"@);
        let description = text_under_or_empty(m, "description"@);
        let projects = match items_under(m, "projects"@) {
            Some(items) => projects_in(items),
            None => None,
        };
        let scripts = match items_under(m, "scripts"@) {
            Some(items) => scripts_in(items),
            None => None,
        };
        if version is Some && name is Some && description is Some && projects is Some
            && scripts is Some {
            Some(
                StackView {
                    version: version->Some_0,
                    stack_name: name->Some_0,
                    description: description->Some_0,
                    projects: projects->Some_0,
                    scripts: scripts->Some_0,
                },
            )
        } else {
            None
        }
    } else {
        None
    }
}

/// The registry that a JSON value stands for: an object with a text
/// `default_stack` and an array `registered_stack_files` of texts.
pub open spec fn registry_of(j: JsonView) -> Option<RegistryView> {
    if j is Object {
        let m = j->Object_0;
        let default_stack = text_under(m, "default_stack"@);
        let files = texts_under(m, "registered_stack_files"@);
        if default_stack is Some && files is Some {
            Some(
                RegistryView {
                    default_stack: default_stack->Some_0,
                    registered_stack_files: files->Some_0,
                },
            )
        } else {
            None
        }
    } else {
        None
    }
}

/// The stack document that a text stands for: the text has to be JSON, and
/// the JSON value a stack document.
pub open spec fn stack_of_text(text: Seq<char>) -> Option<StackView> {
    match json_of(text) {
        Some(tree) => stack_of(tree),
        None => None,
    }
}

/// The registry that a text stands for: the text has to be JSON, and the
/// JSON value a registry.
pub open spec fn registry_of_text(text: Seq<char>) -> Option<RegistryView> {
    match json_of(text) {
        Some(tree) => registry_of(tree),
        None => None,
    }
}

fn read_text(members: &Vec<Member>, key: &str) -> (found: Option<String>)
    ensures
        match found {
            Some(t) => text_under(member_views(members@), key@) == Some(t@),
            None => text_under(member_views(members@), key@) is None,
        },
{
    match find_member(members, key) {
        Some(value) => match value.as_text() {
            Some(t) => Some(t.clone()),
            None => None,
        },
        None => None,
    }
}

fn read_text_or_empty(members: &Vec<Member>, key: &str) -> (found: Option<String>)
    ensures
        match found {
            Some(t) => text_under_or_empty(member_views(members@), key@) == Some(t@),
            None => text_under_or_empty(member_views(members@), key@) is None,
        },
{
    match find_member(members, key) {
        Some(value) => match value.as_text() {
            Some(t) => Some(t.clone()),
            None => None,
        },
        None => Some(String::new()),
    }
}

fn read_texts_in(items: &Vec<Json>) -> (found: Option<Vec<String>>)
    ensures
        match found {
            Some(list) => texts_in(item_views(items@)) == Some(texts(list@)),
            None => texts_in(item_views(items@)) is None,
        },
{
    let ghost views = item_views(items@);
    let mut list: Vec<String> = Vec::new();
    let mut at: usize = 0;
    while at < items.len()
        invariant
            at <= items@.len(),
            views == item_views(items@),
            list@.len() == at,
            forall|j: int| 0 <= j < at ==> views[j] == JsonView::Text(#[trigger] list@[j]@),
        decreases items.len() - at,
    {
        match items[at].as_text() {
            Some(t) => {
                list.push(t.clone());
            },
            None => {
                assert(!(views[at as int] is Text));
                return None;
            },
        }
        at = at + 1;
    }
    proof {
        assert forall|i: int| 0 <= i < views.len() implies (#[trigger] views[i]) is Text by {
            assert(views[i] == JsonView::Text(list@[i]@));
        }
        assert(views.map_values(|j: JsonView| j->Text_0) =~= texts(list@));
    }
    Some(list)
}

fn read_texts_or_empty(members: &Vec<Member>, key: &str) -> (found: Option<
    Vec<String>,
>)
    ensures
        match found {
            Some(list) => texts_under_or_empty(member_views(members@), key@) == Some(
                texts(list@),
            ),
            None => texts_under_or_empty(member_views(members@), key@) is None,
        },
{
    match find_member(members, key) {
        Some(value) => match value.as_array() {
            Some(items) => read_texts_in(items),
            None => None,
        },
        None => {
            let list: Vec<String> = Vec::new();
            assert(texts(list@) =~= Seq::<Seq<char>>::empty());
            Some(list)
        },
    }
}

fn read_texts(members: &Vec<Member>, key: &str) -> (found: Option<Vec<String>>)
    ensures
        match found {
            Some(list) => texts_under(member_views(members@), key@) == Some(
                texts(list@),
            ),
            None => texts_under(member_views(members@), key@) is None,
        },
{
    match find_member(members, key) {
        Some(value) => match value.as_array() {
            Some(items) => read_texts_in(items),
            None => None,
        },
        None => None,
    }
}

fn read_items<'a>(members: &'a Vec<Member>, key: &str) -> (found: Option<
    &'a Vec<Json>,
>)
    ensures
        match found {
            Some(items) => items_under(member_views(members@), key@) == Some(
                item_views(items@),
            ),
            None => items_under(member_views(members@), key@) is None,
        },
{
    match find_member(members, key) {
        Some(value) => value.as_array(),
        None => None,
    }
}

/// Reads a JSON value as a stage.
pub fn read_stage(value: &Json) -> (found: Option<StageConfig>)
    ensures
        match found {
            Some(stage) => stage_of(value@) == Some(stage@),
            None => stage_of(value@) is None,
        },
{
    let members = match value.as_object() {
        Some(members) => members,
        None => {
            return None;
        },
    };
    let stage_name = match read_text(members, "stage_name") {
        Some(t) => t,
        None => {
            return None;
        },
    };
    let stage_description = match read_text_or_empty(members, "stage_description") {
        Some(t) => t,
        None => {
            return None;
        },
    };
    let prerequisites = match read_texts_or_empty(members, "prerequisites") {
        Some(t) => t,
        None => {
            return None;
        },
    };
    let commands = match read_texts_or_empty(members, "commands") {
        Some(t) => t,
        None => {
            return None;
        },
    };
    Some(StageConfig { stage_name, stage_description, prerequisites, commands })
}

fn read_stages_in(items: &Vec<Json>) -> (found: Option<Vec<StageConfig>>)
    ensures
        match found {
            Some(list) => stages_in(item_views(items@)) == Some(
                list@.map_values(|s: StageConfig| s@),
            ),
            None => stages_in(item_views(items@)) is None,
        },
{
    let ghost views = item_views(items@);
    let mut list: Vec<StageConfig> = Vec::new();
    let mut at: usize = 0;
    while at < items.len()
        invariant
            at <= items@.len(),
            views == item_views(items@),
            list@.len() == at,
            forall|j: int| 0 <= j < at ==> stage_of(views[j]) == Some(#[trigger] list@[j]@),
        decreases items.len() - at,
    {
        match read_stage(&items[at]) {
            Some(stage) => {
                list.push(stage);
            },
            None => {
                assert(stage_of(views[at as int]) is None);
                return None;
            },
        }
        at = at + 1;
    }
    proof {
        assert forall|i: int| 0 <= i < views.len() implies stage_of(#[trigger] views[i])
            is Some by {
            assert(stage_of(views[i]) == Some(list@[i]@));
        }
        assert(views.map_values(|j: JsonView| stage_of(j)->Some_0) =~= list@.map_values(
            |s: StageConfig| s@,
        ));
    }
    Some(list)
}

/// Reads a JSON value as a project.
pub fn read_project(value: &Json) -> (found: Option<ProjectConfig>)
    ensures
        match found {
            Some(project) => project_of(value@) == Some(project@),
            None => project_of(value@) is None,
        },
{
    let members = match value.as_object() {
        Some(members) => members,
        None => {
            return None;
        },
    };
    let project_name = match read_text(members, "project_name") {
        Some(t) => t,
        None => {
            return None;
        },
    };
    let project_description = match read_text_or_empty(members, "project_description") {
        Some(t) => t,
        None => {
            return None;
        },
    };
    let stages = match read_items(members, "stages") {
        Some(items) => match read_stages_in(items) {
            Some(list) => list,
            None => {
                return None;
            },
        },
        None => {
            return None;
        },
    };
    Some(ProjectConfig { project_name, project_description, stages })
}

fn read_projects_in(items: &Vec<Json>) -> (found: Option<Vec<ProjectConfig>>)
    ensures
        match found {
            Some(list) => projects_in(item_views(items@)) == Some(
                list@.map_values(|p: ProjectConfig| p@),
            ),
            None => projects_in(item_views(items@)) is None,
        },
{
    let ghost views = item_views(items@);
    let mut list: Vec<ProjectConfig> = Vec::new();
    let mut at: usize = 0;
    while at < items.len()
        invariant
            at <= items@.len(),
            views == item_views(items@),
            list@.len() == at,
            forall|j: int| 0 <= j < at ==> project_of(views[j]) == Some(#[trigger] list@[j]@),
        decreases items.len() - at,
    {
        match read_project(&items[at]) {
            Some(project) => {
                list.push(project);
            },
            None => {
                assert(project_of(views[at as int]) is None);
                return None;
            },
        }
        at = at + 1;
    }
    proof {
        assert forall|i: int| 0 <= i < views.len() implies project_of(#[trigger] views[i])
            is Some by {
            assert(project_of(views[i]) == Some(list@[i]@));
        }
        assert(views.map_values(|j: JsonView| project_of(j)->Some_0) =~= list@.map_values(
            |p: ProjectConfig| p@,
        ));
    }
    Some(list)
}

/// Reads a JSON value as a script.
pub fn read_script(value: &Json) -> (found: Option<ScriptConfig>)
    ensures
        match found {
            Some(script) => script_of(value@) == Some(script@),
            None => script_of(value@) is None,
        },
{
    let members = match value.as_object() {
        Some(members) => members,
        None => {
            return None;
        },
    };
    let script_name = match read_text(members, "script_name") {
        Some(t) => t,
        None => {
            return None;
        },
    };
    let script_description = match read_text_or_empty(members, "script_description") {
        Some(t) => t,
        None => {
            return None;
        },
    };
    let commands = match read_texts_or_empty(members, "commands") {
        Some(t) => t,
        None => {
            return None;
        },
    };
    Some(ScriptConfig { script_name, script_description, commands })
}

fn read_scripts_in(items: &Vec<Json>) -> (found: Option<Vec<ScriptConfig>>)
    ensures
        match found {
            Some(list) => scripts_in(item_views(items@)) == Some(
                list@.map_values(|s: ScriptConfig| s@),
            ),
            None => scripts_in(item_views(items@)) is None,
        },
{
    let ghost views = item_views(items@);
    let mut list: Vec<ScriptConfig> = Vec::new();
    let mut at: usize = 0;
    while at < items.len()
        invariant
            at <= items@.len(),
            views == item_views(items@),
            list@.len() == at,
            forall|j: int| 0 <= j < at ==> script_of(views[j]) == Some(#[trigger] list@[j]@),
        decreases items.len() - at,
    {
        match read_script(&items[at]) {
            Some(script) => {
                list.push(script);
            },
            None => {
                assert(script_of(views[at as int]) is None);
                return None;
            },
        }
        at = at + 1;
    }
    proof {
        assert forall|i: int| 0 <= i < views.len() implies script_of(#[trigger] views[i])
            is Some by {
            assert(script_of(views[i]) == Some(list@[i]@));
        }
        assert(views.map_values(|j: JsonView| script_of(j)->Some_0) =~= list@.map_values(
            |s: ScriptConfig| s@,
        ));
    }
    Some(list)
}

/// Reads a JSON value as a stack document.
pub fn read_stack(value: &Json) -> (found: Option<StackConfig>)
    ensures
        match found {
            Some(doc) => stack_of(value@) == Some(doc@),
            None => stack_of(value@) is None,
        },
{
    let members = match value.as_object() {
        Some(members) => members,
        None => {
            return None;
        },
    };
    let version = match read_text_or_empty(members, "version") {
        Some(t) => t,
        None => {
            return None;
        },
    };
    let stack_name = match read_text(members, "stack_name") {
        Some(t) => t,
        None => {
            return None;
        },
    };
    let description = match read_text_or_empty(members, "description") {
        Some(t) => t,
        None => {
            return None;
        },
    };
    let projects = match read_items(members, "projects") {
        Some(items) => match read_projects_in(items) {
            Some(list) => list,
            None => {
                return None;
            },
        },
        None => {
            return None;
        },
    };
    let scripts = match read_items(members, "scripts") {
        Some(items) => match read_scripts_in(items) {
            Some(list) => list,
            None => {
                return None;
            },
        },
        None => {
            return None;
        },
    };
    Some(StackConfig { version, stack_name, description, projects, scripts })
}

/// Reads a JSON value as a registry.
pub fn read_registry(value: &Json) -> (found: Option<Configuration>)
    ensures
        match found {
            Some(config) => registry_of(value@) == Some(config@),
            None => registry_of(value@) is None,
        },
{
    let members = match value.as_object() {
        Some(members) => members,
        None => {
            return None;
        },
    };
    let default_stack = match read_text(members, "default_stack") {
        Some(t) => t,
        None => {
            return None;
        },
    };
    let registered_stack_files = match read_texts(members, "registered_stack_files") {
        Some(t) => t,
        None => {
            return None;
        },
    };
    Some(Configuration { default_stack, registered_stack_files })
}

/// What reading a stack file gave. `contents` is the file's text, or `None`
/// where the file could not be read.
pub fn get_ldot_stack_config(contents: Option<&str>) -> (document: Result<
    StackConfig,
    ReadFailure,
>)
    ensures
        match contents {
            None => document == Err::<StackConfig, ReadFailure>(ReadFailure::Unreadable),
            Some(text) => match stack_of_text(text@) {
                Some(doc) => document is Ok && document->Ok_0@ == doc,
                None => document == Err::<StackConfig, ReadFailure>(
                    ReadFailure::MalformedDocument,
                ),
            },
        },
{
    let text = match contents {
        Some(text) => text,
        None => {
            return Err(ReadFailure::Unreadable);
        },
    };
    let tree = match parse_json(text) {
        Some(tree) => tree,
        None => {
            return Err(ReadFailure::MalformedDocument);
        },
    };
    match read_stack(&tree) {
        Some(doc) => Ok(doc),
        None => Err(ReadFailure::MalformedDocument),
    }
}

/// What a stack file holds, where that is a valid stack document.
/// `contents` is the file's text, or `None` where the file could not be
/// read. Otherwise the first of these that holds is reported: the file could
/// not be read, its text is no stack document, the document breaks a rule.
pub fn validate_ldot_stack(contents: Option<&str>) -> (checked: Result<StackConfig, RegistryError>)
    ensures
        match contents {
            None => checked == Err::<StackConfig, RegistryError>(
                RegistryError::Unusable(ReadFailure::Unreadable),
            ),
            Some(text) => match stack_of_text(text@) {
                None => checked == Err::<StackConfig, RegistryError>(
                    RegistryError::Unusable(ReadFailure::MalformedDocument),
                ),
                Some(doc) => match violation(doc) {
                    None => checked is Ok && checked->Ok_0@ == doc,
                    Some(broken) => checked matches Err(RegistryError::Invalid(e)) && e@ == broken,
                },
            },
        },
{
    match get_ldot_stack_config(contents) {
        Ok(doc) => match validate(doc) {
            Ok(valid) => {
                proof {
                    lemma_valid_iff_no_violation(valid@);
                }
                Ok(valid)
            },
            Err(broken) => Err(RegistryError::Invalid(broken)),
        },
        Err(failure) => Err(RegistryError::Unusable(failure)),
    }
}

/// A registered file as a candidate for resolution: its path, and what
/// reading it gave.
pub fn read_candidate(path: String, contents: Option<&str>) -> (candidate: Candidate)
    ensures
        candidate.path == path,
        match contents {
            None => candidate.document == Err::<StackConfig, ReadFailure>(ReadFailure::Unreadable),
            Some(text) => match stack_of_text(text@) {
                Some(doc) => candidate.document is Ok && candidate.document->Ok_0@ == doc,
                None => candidate.document == Err::<StackConfig, ReadFailure>(
                    ReadFailure::MalformedDocument,
                ),
            },
        },
{
    Candidate { path, document: get_ldot_stack_config(contents) }
}

/// The registry file could not be understood.
#[derive(Debug, Clone, Copy, PartialEq, Eq, Structural)]
pub struct CorruptRegistry;

/// A registry as it was read, and whether it has to be written.
#[derive(Debug, PartialEq, Eq)]
pub struct LoadedRegistry {
    pub config: Configuration,
    /// The registry file was missing: `config` is a new, empty registry that
    /// is not on disk yet.
    pub created: bool,
}

/// The registry. `contents` is the text of the registry file, or `None`
/// where there is no such file: then the registry starts empty, and the
/// answer says that it was created. A file that is there and is no registry
/// is reported, and nothing is made up in its place.
pub fn get_configuration(contents: Option<&str>) -> (loaded: Result<
    LoadedRegistry,
    CorruptRegistry,
>)
    ensures
        match contents {
            None => loaded is Ok && loaded->Ok_0.created && loaded->Ok_0.config@ == (RegistryView {
                default_stack: Seq::<char>::empty(),
                registered_stack_files: Seq::<Seq<char>>::empty(),
            }),
            Some(text) => match registry_of_text(text@) {
                Some(registry) => loaded is Ok && !loaded->Ok_0.created && loaded->Ok_0.config@
                    == registry,
                None => loaded is Err,
            },
        },
{
    let text = match contents {
        Some(text) => text,
        None => {
            return Ok(LoadedRegistry { config: regenerate_configuration(), created: true });
        },
    };
    let tree = match parse_json(text) {
        Some(tree) => tree,
        None => {
            return Err(CorruptRegistry);
        },
    };
    match read_registry(&tree) {
        Some(config) => Ok(LoadedRegistry { config, created: false }),
        None => Err(CorruptRegistry),
    }
}

} // verus!
