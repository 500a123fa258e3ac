//! The two files as JSON, the other way round: the JSON value that stands
//! for a stack document or a registry. What is written here is read back
//! unchanged.

use vstd::prelude::*;
use crate::document::{
    ProjectConfig,
    ProjectView,
    ScriptConfig,
    ScriptView,
    StackConfig,
    StackView,
    StageConfig,
    StageView,
};
use crate::json::{
    item_views,
    keys,
    member,
    member_views,
    Json,
    JsonView,
    Member,
    MemberView,
};
use crate::registry::{Configuration, RegistryView};
use crate::search::lemma_first_place;
use crate::text::texts;
use crate::wire::{project_of, registry_of, script_of, stack_of, stage_of, stages_in, texts_in};

verus! {

/// A member of an object.
pub open spec fn entry(key: Seq<char>, value: JsonView) -> MemberView {
    MemberView { key, value }
}

/// An array of texts.
pub open spec fn text_items(list: Seq<Seq<char>>) -> JsonView {
    JsonView::Array(list.map_values(|t: Seq<char>| JsonView::Text(t)))
}

/// The JSON value that stands for a stage.
pub open spec fn stage_json(stage: StageView) -> JsonView {
    JsonView::Object(
        seq![
            entry("stage_name"@, JsonView::Text(stage.stage_name)),
            entry("stage_description"@, JsonView::Text(stage.stage_description)),
            entry("prerequisites"@, text_items(stage.prerequisites)),
            entry("commands"@, text_items(stage.commands)),
        ],
    )
}

/// The JSON value that stands for a project.
pub open spec fn project_json(project: ProjectView) -> JsonView {
    JsonView::Object(
        seq![
            entry("project_name"@, JsonView::Text(project.project_name)),
            entry("project_description"@, JsonView::Text(project.project_description)),
            entry(
                "stages"@,
                JsonView::Array(project.stages.map_values(|s: StageView| stage_json(s))),
            ),
        ],
    )
}

/// The JSON value that stands for a script.
pub open spec fn script_json(script: ScriptView) -> JsonView {
    JsonView::Object(
        seq![
            entry("script_name"@, JsonView::Text(script.script_name)),
            entry("script_description"@, JsonView::Text(script.script_description)),
            entry("commands"@, text_items(script.commands)),
        ],
    )
}

/// The JSON value that stands for a stack document.
pub open spec fn stack_json(doc: StackView) -> JsonView {
    JsonView::Object(
        seq![
            entry("version"@, JsonView::Text(doc.version)),
            entry("stack_name"@, JsonView::Text(doc.stack_name)),
            entry("description"@, JsonView::Text(doc.description)),
            entry(
                "projects"@,
                JsonView::Array(doc.projects.map_values(|p: ProjectView| project_json(p))),
            ),
            entry(
                "scripts"@,
                JsonView::Array(doc.scripts.map_values(|s: ScriptView| script_json(s))),
            ),
        ],
    )
}

/// The JSON value that stands for a registry.
pub open spec fn registry_json(registry: RegistryView) -> JsonView {
    JsonView::Object(
        seq![
            entry("default_stack"@, JsonView::Text(registry.default_stack)),
            entry("registered_stack_files"@, text_items(registry.registered_stack_files)),
        ],
    )
}

/// An array of texts is read back as those texts.
pub proof fn lemma_texts_read_back(list: Seq<Seq<char>>)
    ensures
        texts_in(text_items(list)->Array_0) == Some(list),
{
    let items = text_items(list)->Array_0;
    assert(items.map_values(|j: JsonView| j->Text_0) =~= list);
}

/// In an object whose keys differ from one another, the value under the
/// key at `place` is the value of the member at `place`.
pub proof fn lemma_member_at(members: Seq<MemberView>, place: int)
    requires
        0 <= place < members.len(),
        forall|j: int| 0 <= j < place ==> members[j].key != members[place].key,
    ensures
        member(members, members[place].key) == Some(members[place].value),
{
    let names = keys(members);
    assert forall|j: int| 0 <= j < place implies names[j] != names[place] by {
        assert(names[j] == members[j].key);
    }
    lemma_first_place(names, members[place].key, place);
}

/// The keys of a stage differ from one another.
proof fn lemma_stage_keys()
    ensures
        "stage_name"@ != "stage_description"@,
        "stage_name"@ != "prerequisites"@,
        "stage_name"@ != "commands"@,
        "stage_description"@ != "prerequisites"@,
        "stage_description"@ != "commands"@,
        "prerequisites"@ != "commands"@,
{
    reveal_strlit("stage_name");
    assert("stage_name"@.len() == 10);
    reveal_strlit("stage_description");
    assert("stage_description"@.len() == 17);
    reveal_strlit("prerequisites");
    assert("prerequisites"@.len() == 13);
    reveal_strlit("commands");
    assert("commands"@.len() == 8);
}

/// The keys of a project differ from one another.
proof fn lemma_project_keys()
    ensures
        "project_name"@ != "project_description"@,
        "project_name"@ != "stages"@,
        "project_description"@ != "stages"@,
{
    reveal_strlit("project_name");
    assert("project_name"@.len() == 12);
    reveal_strlit("project_description");
    assert("project_description"@.len() == 19);
    reveal_strlit("stages");
    assert("stages"@.len() == 6);
}

/// The keys of a script differ from one another.
proof fn lemma_script_keys()
    ensures
        "script_name"@ != "script_description"@,
        "script_name"@ != "commands"@,
        "script_description"@ != "commands"@,
{
    reveal_strlit("script_name");
    assert("script_name"@.len() == 11);
    reveal_strlit("script_description");
    assert("script_description"@.len() == 18);
    reveal_strlit("commands");
    assert("commands"@.len() == 8);
}

/// The keys of a stack document differ from one another.
proof fn lemma_stack_keys()
    ensures
        "version"@ != "stack_name"@,
        "version"@ != "description"@,
        "version"@ != "projects"@,
        "version"@ != "scripts"@,
        "stack_name"@ != "description"@,
        "stack_name"@ != "projects"@,
        "stack_name"@ != "scripts"@,
        "description"@ != "projects"@,
        "description"@ != "scripts"@,
        "projects"@ != "scripts"@,
{
    reveal_strlit("version");
    assert("version"@.len() == 7);
    reveal_strlit("stack_name");
    assert("stack_name"@.len() == 10);
    reveal_strlit("description");
    assert("description"@.len() == 11);
    reveal_strlit("projects");
    assert("projects"@.len() == 8);
    reveal_strlit("scripts");
    assert("scripts"@.len() == 7);
    assert("version"@[0] != "scripts"@[0]);
}

/// The keys of a registry differ from one another.
proof fn lemma_registry_keys()
    ensures
        "default_stack"@ != "registered_stack_files"@,
{
    reveal_strlit("default_stack");
    assert("default_stack"@.len() == 13);
    reveal_strlit("registered_stack_files");
    assert("registered_stack_files"@.len() == 22);
}

/// A stage that was written is read back unchanged.
pub proof fn lemma_stage_read_back(stage: StageView)
    ensures
        stage_of(stage_json(stage)) == Some(stage),
{
    let m = stage_json(stage)->Object_0;
    lemma_stage_keys();
    lemma_member_at(m, 0);
    lemma_member_at(m, 1);
    lemma_member_at(m, 2);
    lemma_member_at(m, 3);
    lemma_texts_read_back(stage.prerequisites);
    lemma_texts_read_back(stage.commands);
}

/// Stages that were written are read back unchanged.
pub proof fn lemma_stages_read_back(stages: Seq<StageView>)
    ensures
        stages_in(stages.map_values(|s: StageView| stage_json(s))) == Some(stages),
{
    let items = stages.map_values(|s: StageView| stage_json(s));
    assert forall|i: int| 0 <= i < items.len() implies stage_of(#[trigger] items[i]) == Some(
        stages[i],
    ) by {
        lemma_stage_read_back(stages[i]);
    }
    assert(items.map_values(|j: JsonView| stage_of(j)->Some_0) =~= stages);
}

/// A project that was written is read back unchanged.
pub proof fn lemma_project_read_back(project: ProjectView)
    ensures
        project_of(project_json(project)) == Some(project),
{
    let m = project_json(project)->Object_0;
    lemma_project_keys();
    lemma_member_at(m, 0);
    lemma_member_at(m, 1);
    lemma_member_at(m, 2);
    lemma_stages_read_back(project.stages);
}

/// A script that was written is read back unchanged.
pub proof fn lemma_script_read_back(script: ScriptView)
    ensures
        script_of(script_json(script)) == Some(script),
{
    let m = script_json(script)->Object_0;
    lemma_script_keys();
    lemma_member_at(m, 0);
    lemma_member_at(m, 1);
    lemma_member_at(m, 2);
    lemma_texts_read_back(script.commands);
}

/// A stack document that was written is read back unchanged.
pub proof fn lemma_stack_read_back(doc: StackView)
    ensures
        stack_of(stack_json(doc)) == Some(doc),
{
    let m = stack_json(doc)->Object_0;
    lemma_stack_keys();
    lemma_member_at(m, 0);
    lemma_member_at(m, 1);
    lemma_member_at(m, 2);
    lemma_member_at(m, 3);
    lemma_member_at(m, 4);
    let projects = doc.projects.map_values(|p: ProjectView| project_json(p));
    assert forall|i: int| 0 <= i < projects.len() implies project_of(#[trigger] projects[i])
        == Some(doc.projects[i]) by {
        lemma_project_read_back(doc.projects[i]);
    }
    assert(projects.map_values(|j: JsonView| project_of(j)->Some_0) =~= doc.projects);
    let scripts = doc.scripts.map_values(|s: ScriptView| script_json(s));
    assert forall|i: int| 0 <= i < scripts.len() implies script_of(#[trigger] scripts[i])
        == Some(doc.scripts[i]) by {
        lemma_script_read_back(doc.scripts[i]);
    }
    assert(scripts.map_values(|j: JsonView| script_of(j)->Some_0) =~= doc.scripts);
}

/// A registry that was written is read back unchanged.
pub proof fn lemma_registry_read_back(registry: RegistryView)
    ensures
        registry_of(registry_json(registry)) == Some(registry),
{
    let m = registry_json(registry)->Object_0;
    lemma_registry_keys();
    lemma_member_at(m, 0);
    lemma_member_at(m, 1);
    lemma_texts_read_back(registry.registered_stack_files);
}

/// The object with the members `members`.
pub fn object_of(members: Vec<Member>) -> (tree: Json)
    ensures
        tree@ == JsonView::Object(member_views(members@)),
{
    let tree = Json::Object(members);
    assert(tree@->Object_0 =~= member_views(members@));
    tree
}

/// The array with the items `items`.
pub fn array_of(items: Vec<Json>) -> (tree: Json)
    ensures
        tree@ == JsonView::Array(item_views(items@)),
{
    let tree = Json::Array(items);
    assert(tree@->Array_0 =~= item_views(items@));
    tree
}

/// The member that holds the text `text` under `key`.
pub fn text_member(key: &str, text: &String) -> (made: Member)
    ensures
        made.key@ == key@,
        made.value@ == JsonView::Text(text@),
{
    Member { key: key.to_owned(), value: Json::Text(text.clone()) }
}

/// The member that holds `value` under `key`.
pub fn member_of(key: &str, value: Json) -> (made: Member)
    ensures
        made.key@ == key@,
        made.value == value,
{
    Member { key: key.to_owned(), value }
}

/// The array of the texts of `list`.
pub fn text_array(list: &Vec<String>) -> (tree: Json)
    ensures
        tree@ == text_items(texts(list@)),
{
    let mut items: Vec<Json> = Vec::new();
    let mut at: usize = 0;
    while at < list.len()
        invariant
            at <= list@.len(),
            items@.len() == at,
            forall|i: int| 0 <= i < at ==> (#[trigger] items@[i])@ == JsonView::Text(list@[i]@),
        decreases list.len() - at,
    {
        items.push(Json::Text(list[at].clone()));
        at = at + 1;
    }
    proof {
        assert(item_views(items@) =~= text_items(texts(list@))->Array_0);
    }
    array_of(items)
}

impl StageConfig {
    /// The JSON value that stands for the stage.
    pub fn serialize(&self) -> (tree: Json)
        ensures
            tree@ == stage_json(self@),
    {
        let mut members: Vec<Member> = Vec::new();
        members.push(text_member("stage_name", &self.stage_name));
        members.push(text_member("stage_description", &self.stage_description));
        members.push(member_of("prerequisites", text_array(&self.prerequisites)));
        members.push(member_of("commands", text_array(&self.commands)));
        proof {
            assert(member_views(members@) =~= stage_json(self@)->Object_0);
        }
        object_of(members)
    }
}

impl ProjectConfig {
    /// The JSON value that stands for the project.
    pub fn serialize(&self) -> (tree: Json)
        ensures
            tree@ == project_json(self@),
    {
        let mut stages: Vec<Json> = Vec::new();
        let mut at: usize = 0;
        while at < self.stages.len()
            invariant
                at <= self.stages@.len(),
                stages@.len() == at,
                forall|i: int|
                    0 <= i < at ==> (#[trigger] stages@[i])@ == stage_json(self.stages@[i]@),
            decreases self.stages.len() - at,
        {
            stages.push(self.stages[at].serialize());
            at = at + 1;
        }
        proof {
            assert(item_views(stages@) =~= self@.stages.map_values(|s: StageView| stage_json(s)));
        }
        let mut members: Vec<Member> = Vec::new();
        members.push(text_member("project_name", &self.project_name));
        members.push(text_member("project_description", &self.project_description));
        members.push(member_of("stages", array_of(stages)));
        proof {
            assert(member_views(members@) =~= project_json(self@)->Object_0);
        }
        object_of(members)
    }
}

impl ScriptConfig {
    /// The JSON value that stands for the script.
    pub fn serialize(&self) -> (tree: Json)
        ensures
            tree@ == script_json(self@),
    {
        let mut members: Vec<Member> = Vec::new();
        members.push(text_member("script_name", &self.script_name));
        members.push(text_member("script_description", &self.script_description));
        members.push(member_of("commands", text_array(&self.commands)));
        proof {
            assert(member_views(members@) =~= script_json(self@)->Object_0);
        }
        object_of(members)
    }
}

impl StackConfig {
    /// The JSON value that stands for the document. Reading it gives the
    /// document back.
    pub fn serialize(&self) -> (tree: Json)
        ensures
            tree@ == stack_json(self@),
            stack_of(tree@) == Some(self@),
    {
        let mut projects: Vec<Json> = Vec::new();
        let mut at: usize = 0;
        while at < self.projects.len()
            invariant
                at <= self.projects@.len(),
                projects@.len() == at,
                forall|i: int|
                    0 <= i < at ==> (#[trigger] projects@[i])@ == project_json(
                        self.projects@[i]@,
                    ),
            decreases self.projects.len() - at,
        {
            projects.push(self.projects[at].serialize());
            at = at + 1;
        }
        let mut scripts: Vec<Json> = Vec::new();
        let mut at: usize = 0;
        while at < self.scripts.len()
            invariant
                at <= self.scripts@.len(),
                scripts@.len() == at,
                forall|i: int|
                    0 <= i < at ==> (#[trigger] scripts@[i])@ == script_json(self.scripts@[i]@),
            decreases self.scripts.len() - at,
        {
            scripts.push(self.scripts[at].serialize());
            at = at + 1;
        }
        proof {
            assert(item_views(projects@) =~= self@.projects.map_values(
                |p: ProjectView| project_json(p),
            ));
            assert(item_views(scripts@) =~= self@.scripts.map_values(
                |s: ScriptView| script_json(s),
            ));
        }
        let mut members: Vec<Member> = Vec::new();
        members.push(text_member("version", &self.version));
        members.push(text_member("stack_name", &self.stack_name));
        members.push(text_member("description", &self.description));
        members.push(member_of("projects", array_of(projects)));
        members.push(member_of("scripts", array_of(scripts)));
        proof {
            assert(member_views(members@) =~= stack_json(self@)->Object_0);
            lemma_stack_read_back(self@);
        }
        object_of(members)
    }
}

impl Configuration {
    /// The JSON value that stands for the registry. Reading it gives the
    /// registry back.
    pub fn serialize(&self) -> (tree: Json)
        ensures
            tree@ == registry_json(self@),
            registry_of(tree@) == Some(self@),
    {
        let mut members: Vec<Member> = Vec::new();
        members.push(text_member("default_stack", &self.default_stack));
        members.push(member_of("registered_stack_files", text_array(&self.registered_stack_files)));
        proof {
            assert(member_views(members@) =~= registry_json(self@)->Object_0);
            lemma_registry_read_back(self@);
        }
        object_of(members)
    }
}

} // verus!
