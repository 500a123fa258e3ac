//! The rules a stack document has to meet, and the check that reports the
//! first rule it breaks.

use vstd::prelude::*;
use vstd::string::StringExecFns;
use crate::document::{or_default, starter_stack, StackConfig, StackView};
use crate::text::{has_space, list_holds, separator, texts};

verus! {

/// Whose name a broken rule speaks of.
#[derive(Debug, Clone, Copy, PartialEq, Eq, Structural)]
pub enum NameOf {
    Stack,
    Project,
    Script,
}

/// The first rule that a document breaks.
#[derive(Debug, Clone, PartialEq, Eq)]
pub enum ValidationError {
    /// A name is empty.
    EmptyName { of: NameOf },
    /// A name holds a space.
    NameHasSpace { of: NameOf, name: String },
    /// A project or script has the name of an earlier one.
    DuplicateName { of: NameOf, name: String },
}

/// What a `ValidationError` says.
pub enum Violation {
    EmptyName { of: NameOf },
    NameHasSpace { of: NameOf, name: Seq<char> },
    DuplicateName { of: NameOf, name: Seq<char> },
}

impl View for ValidationError {
    type V = Violation;

    open spec fn view(&self) -> Violation {
        match self {
            ValidationError::EmptyName { of } => Violation::EmptyName { of: *of },
            ValidationError::NameHasSpace { of, name } => Violation::NameHasSpace {
                of: *of,
                name: name@,
            },
            ValidationError::DuplicateName { of, name } => Violation::DuplicateName {
                of: *of,
                name: name@,
            },
        }
    }
}

/// The word for whose name a broken rule speaks of.
pub open spec fn subject_word(of: NameOf) -> Seq<char> {
    match of {
        NameOf::Stack => "Stack"@,
        NameOf::Project => "Project"@,
        NameOf::Script => "Script"@,
    }
}

/// A broken rule in words. The name that breaks the rule is given, but for
/// a stack name with a space.
pub open spec fn violation_text(violation: Violation) -> Seq<char> {
    match violation {
        Violation::EmptyName { of } => subject_word(of) + " name is empty"@,
        Violation::NameHasSpace { of, name } => if of == NameOf::Stack {
            "Stack name contains a space"@
        } else {
            subject_word(of) + " name contains a space: "@ + name
        },
        Violation::DuplicateName { of, name } => subject_word(of) + " name not unique: "@ + name,
    }
}

impl NameOf {
    /// The word for whose name a broken rule speaks of.
    pub fn word(&self) -> (text: &'static str)
        ensures
            text@ == subject_word(*self),
    {
        match self {
            NameOf::Stack => "Stack",
            NameOf::Project => "Project",
            NameOf::Script => "Script",
        }
    }
}

impl ValidationError {
    /// The broken rule in words.
    pub fn message(&self) -> (text: String)
        ensures
            text@ == violation_text(self@),
    {
        match self {
            ValidationError::EmptyName { of } => of.word().to_owned().concat(" name is empty"),
            ValidationError::NameHasSpace { of, name } => match of {
                NameOf::Stack => "Stack name contains a space".to_owned(),
                _ => of.word().to_owned().concat(" name contains a space: ").concat(
                    name.as_str(),
                ),
            },
            ValidationError::DuplicateName { of, name } => of.word().to_owned().concat(
                " name not unique: ",
            ).concat(name.as_str()),
        }
    }
}

/// The rule that the name at `at` breaks, given the names before it: it is
/// empty, or else holds a space, or else repeats an earlier name.
pub open spec fn name_fault(names: Seq<Seq<char>>, at: int, of: NameOf) -> Option<Violation> {
    let name = names[at];
    if name.len() == 0 {
        Some(Violation::EmptyName { of })
    } else if name.contains(separator()) {
        Some(Violation::NameHasSpace { of, name })
    } else if names.take(at).contains(name) {
        Some(Violation::DuplicateName { of, name })
    } else {
        None
    }
}

/// The fault of the first name at or after `from` that has one.
pub open spec fn first_fault_from(names: Seq<Seq<char>>, of: NameOf, from: int) -> Option<
    Violation,
>
    decreases names.len() - from,
{
    if from < 0 || from >= names.len() {
        None
    } else {
        match name_fault(names, from, of) {
            Some(fault) => Some(fault),
            None => first_fault_from(names, of, from + 1),
        }
    }
}

/// The fault of the first name that has one.
pub open spec fn first_fault(names: Seq<Seq<char>>, of: NameOf) -> Option<Violation> {
    first_fault_from(names, of, 0)
}

/// The first rule that a document breaks: the stack's name is looked at
/// first, then the projects' names in order, then the scripts' names in
/// order. Stages and prerequisites are under no rule.
pub open spec fn violation(doc: StackView) -> Option<Violation> {
    if doc.stack_name.len() == 0 {
        Some(Violation::EmptyName { of: NameOf::Stack })
    } else if doc.stack_name.contains(separator()) {
        Some(Violation::NameHasSpace { of: NameOf::Stack, name: doc.stack_name })
    } else {
        match first_fault(doc.project_names(), NameOf::Project) {
            Some(fault) => Some(fault),
            None => first_fault(doc.script_names(), NameOf::Script),
        }
    }
}

/// A usable name: not empty, and without a space.
pub open spec fn plain_name(name: Seq<char>) -> bool {
    name.len() > 0 && !name.contains(separator())
}

/// Usable names, no two of them the same.
pub open spec fn plain_distinct_names(names: Seq<Seq<char>>) -> bool {
    &&& forall|i: int| 0 <= i < names.len() ==> plain_name(#[trigger] names[i])
    &&& names.no_duplicates()
}

/// A valid document: the stack, each project and each script has a usable
/// name, no two projects share a name, and no two scripts do.
pub open spec fn is_valid(doc: StackView) -> bool {
    &&& plain_name(doc.stack_name)
    &&& plain_distinct_names(doc.project_names())
    &&& plain_distinct_names(doc.script_names())
}

/// From `from` on no name has a fault exactly when none of those names is
/// empty, holds a space or repeats an earlier name.
pub proof fn lemma_no_fault_from(names: Seq<Seq<char>>, of: NameOf, from: int)
    requires
        0 <= from,
    ensures
        first_fault_from(names, of, from) is None <==> forall|i: int|
            from <= i < names.len() ==> name_fault(names, i, of) is None,
    decreases names.len() - from,
{
    if from < names.len() {
        lemma_no_fault_from(names, of, from + 1);
        if first_fault_from(names, of, from) is None {
            assert forall|i: int| from <= i < names.len() implies name_fault(names, i, of)
                is None by {
                if i > from {
                    assert(from + 1 <= i);
                }
            }
        } else {
            if name_fault(names, from, of) is None {
                assert(first_fault_from(names, of, from + 1) is Some);
            }
        }
    }
}

/// A list of names is without fault exactly when its names are usable and
/// distinct.
pub proof fn lemma_no_fault_is_plain_distinct(names: Seq<Seq<char>>, of: NameOf)
    ensures
        first_fault(names, of) is None <==> plain_distinct_names(names),
{
    lemma_no_fault_from(names, of, 0);
    if first_fault(names, of) is None {
        assert forall|i: int| 0 <= i < names.len() implies plain_name(#[trigger] names[i]) by {
            assert(name_fault(names, i, of) is None);
        }
        assert forall|i: int, j: int|
            0 <= i < names.len() && 0 <= j < names.len() && i != j implies names[i]
            != names[j] by {
            let (lo, hi) = if i < j {
                (i, j)
            } else {
                (j, i)
            };
            assert(name_fault(names, hi, of) is None);
            if names[lo] == names[hi] {
                assert(names.take(hi)[lo] == names[hi]);
            }
        }
    }
    if plain_distinct_names(names) {
        assert forall|i: int| 0 <= i < names.len() implies name_fault(names, i, of) is None by {
            assert(plain_name(names[i]));
            if names.take(i).contains(names[i]) {
                let j = choose|j: int| 0 <= j < names.take(i).len() && names.take(i)[j] == names[i];
                assert(names[j] == names[i]);
            }
        }
    }
}

/// A document breaks no rule exactly when it is valid.
pub proof fn lemma_valid_iff_no_violation(doc: StackView)
    ensures
        violation(doc) is None <==> is_valid(doc),
{
    lemma_no_fault_is_plain_distinct(doc.project_names(), NameOf::Project);
    lemma_no_fault_is_plain_distinct(doc.script_names(), NameOf::Script);
}

/// The document that a new stack starts from is valid, where the name asked
/// for is empty, and so replaced by the default, or usable.
pub proof fn lemma_starter_is_valid(name: Seq<char>, version: Seq<char>, description: Seq<char>)
    requires
        name.len() == 0 || plain_name(name),
    ensures
        is_valid(starter_stack(name, version, description)),
{
    reveal_strlit("stack");
    reveal_strlit("some_project");
    reveal_strlit("script_name");
    let doc = starter_stack(name, version, description);
    assert(plain_name("stack"@)) by {
        if "stack"@.contains(separator()) {
            let k = choose|k: int| 0 <= k < "stack"@.len() && "stack"@[k] == separator();
        }
    }
    assert(plain_name("some_project"@)) by {
        if "some_project"@.contains(separator()) {
            let k = choose|k: int|
                0 <= k < "some_project"@.len() && "some_project"@[k] == separator();
        }
    }
    assert(plain_name("script_name"@)) by {
        if "script_name"@.contains(separator()) {
            let k = choose|k: int|
                0 <= k < "script_name"@.len() && "script_name"@[k] == separator();
        }
    }
    assert(doc.project_names() =~= seq!["some_project"@]);
    assert(doc.script_names() =~= seq!["script_name"@]);
    assert(plain_name(or_default(name, "stack"@)));
}

/// The rule that `name` breaks when it comes after the names `earlier`.
fn check_name(name: &String, earlier: &Vec<String>, of: NameOf) -> (fault: Option<ValidationError>)
    ensures
        match fault {
            Some(e) => name_fault(texts(earlier@).push(name@), earlier@.len() as int, of) == Some(
                e@,
            ),
            None => name_fault(texts(earlier@).push(name@), earlier@.len() as int, of) is None,
        },
{
    proof {
        let names = texts(earlier@).push(name@);
        assert(names.take(earlier@.len() as int) =~= texts(earlier@));
    }
    if name.as_str().is_empty() {
        Some(ValidationError::EmptyName { of })
    } else if has_space(name.as_str()) {
        Some(ValidationError::NameHasSpace { of, name: name.clone() })
    } else if list_holds(earlier, name.as_str()) {
        Some(ValidationError::DuplicateName { of, name: name.clone() })
    } else {
        None
    }
}

/// Looks for the first rule that a document breaks: the stack's name first,
/// then the projects' names in order, then the scripts' names in order.
/// Nothing after the first broken rule is looked at.
pub fn find_violation(stack_config: &StackConfig) -> (found: Option<ValidationError>)
    ensures
        found is None <==> is_valid(stack_config@),
        match found {
            Some(e) => violation(stack_config@) == Some(e@),
            None => violation(stack_config@) is None,
        },
{
    proof {
        lemma_valid_iff_no_violation(stack_config@);
    }
    if stack_config.stack_name.as_str().is_empty() {
        return Some(ValidationError::EmptyName { of: NameOf::Stack });
    }
    if has_space(stack_config.stack_name.as_str()) {
        return Some(
            ValidationError::NameHasSpace {
                of: NameOf::Stack,
                name: stack_config.stack_name.clone(),
            },
        );
    }
    let ghost project_names = stack_config@.project_names();
    let mut seen: Vec<String> = Vec::new();
    let mut at: usize = 0;
    while at < stack_config.projects.len()
        invariant
            at <= stack_config.projects@.len(),
            plain_name(stack_config@.stack_name),
            project_names == stack_config@.project_names(),
            texts(seen@) == project_names.take(at as int),
            first_fault(project_names, NameOf::Project) == first_fault_from(
                project_names,
                NameOf::Project,
                at as int,
            ),
        decreases stack_config.projects.len() - at,
    {
        let name = &stack_config.projects[at].project_name;
        proof {
            assert(project_names[at as int] == name@);
            assert(texts(seen@).push(name@) =~= project_names.take(at as int + 1));
            assert(project_names.take(at as int + 1).take(at as int) =~= project_names.take(
                at as int,
            ));
        }
        let fault = check_name(name, &seen, NameOf::Project);
        if fault.is_some() {
            return fault;
        }
        proof {
            assert(texts(seen@.push(*name)) =~= texts(seen@).push(name@));
        }
        seen.push(name.clone());
        at = at + 1;
    }
    let ghost script_names = stack_config@.script_names();
    let mut seen: Vec<String> = Vec::new();
    let mut at: usize = 0;
    while at < stack_config.scripts.len()
        invariant
            at <= stack_config.scripts@.len(),
            plain_name(stack_config@.stack_name),
            project_names == stack_config@.project_names(),
            script_names == stack_config@.script_names(),
            texts(seen@) == script_names.take(at as int),
            first_fault(project_names, NameOf::Project) is None,
            first_fault(script_names, NameOf::Script) == first_fault_from(
                script_names,
                NameOf::Script,
                at as int,
            ),
        decreases stack_config.scripts.len() - at,
    {
        let name = &stack_config.scripts[at].script_name;
        proof {
            assert(script_names[at as int] == name@);
            assert(texts(seen@).push(name@) =~= script_names.take(at as int + 1));
            assert(script_names.take(at as int + 1).take(at as int) =~= script_names.take(
                at as int,
            ));
        }
        let fault = check_name(name, &seen, NameOf::Script);
        if fault.is_some() {
            return fault;
        }
        proof {
            assert(texts(seen@.push(*name)) =~= texts(seen@).push(name@));
        }
        seen.push(name.clone());
        at = at + 1;
    }
    None
}

/// Checks a document against the rules. A valid document comes back as it
/// was; of any other, the first rule that it breaks is reported.
pub fn validate(stack_config: StackConfig) -> (checked: Result<
    StackConfig,
    ValidationError,
>)
    ensures
        checked is Ok <==> is_valid(stack_config@),
        match checked {
            Ok(same) => same == stack_config,
            Err(e) => violation(stack_config@) == Some(e@),
        },
{
    match find_violation(&stack_config) {
        Some(e) => Err(e),
        None => Ok(stack_config),
    }
}

} // verus!
