//! The registry of stack files, and the resolution of a stack name to one of
//! them.

use vstd::prelude::*;
use crate::document::StackConfig;
use crate::search::{lemma_first_place, lemma_no_place};
use crate::text::{same_text, texts};
use crate::validation::{find_violation, is_valid, violation, ValidationError};

verus! {

/// The registry: the stack that is used when none is named, and the files of
/// the registered stack documents in the order of their registration.
#[derive(Debug, Clone, PartialEq, Eq)]
pub struct Configuration {
    /// Empty when no default is selected.
    pub default_stack: String,
    /// Canonical paths. Registration adds a path only where it is not yet
    /// present.
    pub registered_stack_files: Vec<String>,
}

/// What a registry says.
pub struct RegistryView {
    pub default_stack: Seq<char>,
    pub registered_stack_files: Seq<Seq<char>>,
}

impl View for Configuration {
    type V = RegistryView;

    open spec fn view(&self) -> RegistryView {
        RegistryView {
            default_stack: self.default_stack@,
            registered_stack_files: texts(self.registered_stack_files@),
        }
    }
}

/// Why a file gave no document.
#[derive(Debug, Clone, Copy, PartialEq, Eq, Structural)]
pub enum ReadFailure {
    /// The file could not be read.
    Unreadable,
    /// The file's text is not a stack document.
    MalformedDocument,
}

/// Why a stack file, or a stack name, was refused.
#[derive(Debug, Clone, PartialEq, Eq)]
pub enum RegistryError {
    /// The path names no file that exists.
    PathUnresolvable,
    /// The file gave no document.
    Unusable(ReadFailure),
    /// The document breaks a rule.
    Invalid(ValidationError),
    /// The path is registered already.
    DuplicateRegistration,
    /// The path is not registered.
    NotRegistered,
    /// No registered valid document declares the name.
    UnknownStackName,
}

/// A registered file together with what reading it gave.
#[derive(Debug, PartialEq, Eq)]
pub struct Candidate {
    pub path: String,
    pub document: Result<StackConfig, ReadFailure>,
}

impl Candidate {
    /// Whether the file gave a valid document for the stack `name`.
    pub open spec fn declares(self, name: Seq<char>) -> bool {
        &&& self.document is Ok
        &&& is_valid(self.document->Ok_0@)
        &&& self.document->Ok_0@.stack_name == name
    }

    /// Whether the file gave a valid document for the stack `name`.
    pub fn is_stack(&self, name: &str) -> (yes: bool)
        ensures
            yes == self.declares(name@),
    {
        match &self.document {
            Ok(doc) => find_violation(doc).is_none() && same_text(doc.stack_name.as_str(), name),
            Err(_) => false,
        }
    }

    /// Why the candidate is passed over when a stack is looked for, if it is:
    /// the file gave no document, or the document breaks a rule.
    pub fn defect(&self) -> (found: Option<RegistryError>)
        ensures
            match self.document {
                Ok(doc) => match found {
                    Some(RegistryError::Invalid(e)) => violation(doc@) == Some(e@),
                    Some(_) => false,
                    None => is_valid(doc@),
                },
                Err(failure) => found == Some(RegistryError::Unusable(failure)),
            },
    {
        match &self.document {
            Ok(doc) => match find_violation(doc) {
                Some(e) => Some(RegistryError::Invalid(e)),
                None => None,
            },
            Err(failure) => Some(RegistryError::Unusable(*failure)),
        }
    }
}

/// For each candidate, whether it gave a valid document for the stack `name`.
pub open spec fn declaring(candidates: Seq<Candidate>, name: Seq<char>) -> Seq<bool> {
    candidates.map_values(|c: Candidate| c.declares(name))
}

/// The candidate that a stack name resolves to: the first one that gave a
/// valid document for that stack. Candidates that gave no document, or one
/// that breaks a rule, are passed over.
pub open spec fn resolved(candidates: Seq<Candidate>, name: Seq<char>) -> Option<int> {
    declaring(candidates, name).index_of_first(true)
}

/// A name that may be the default: the empty name, which selects nothing, or
/// one that resolves.
pub open spec fn selectable(candidates: Seq<Candidate>, name: Seq<char>) -> bool {
    name.len() == 0 || resolved(candidates, name) is Some
}

impl RegistryView {
    /// The registry after `path` was registered, or why it cannot be.
    pub open spec fn register(self, path: Seq<char>) -> Result<RegistryView, RegistryError> {
        if self.registered_stack_files.contains(path) {
            Err(RegistryError::DuplicateRegistration)
        } else {
            Ok(
                RegistryView {
                    default_stack: self.default_stack,
                    registered_stack_files: self.registered_stack_files.push(path),
                },
            )
        }
    }

    /// The registry after the first entry `path` was taken out, or why none
    /// can be.
    pub open spec fn unregister(self, path: Seq<char>) -> Result<RegistryView, RegistryError> {
        match self.registered_stack_files.index_of_first(path) {
            Some(place) => Ok(
                RegistryView {
                    default_stack: self.default_stack,
                    registered_stack_files: self.registered_stack_files.remove(place),
                },
            ),
            None => Err(RegistryError::NotRegistered),
        }
    }

    /// The registry with another default.
    pub open spec fn with_default(self, name: Seq<char>) -> RegistryView {
        RegistryView {
            default_stack: name,
            registered_stack_files: self.registered_stack_files,
        }
    }

    /// No path is registered twice.
    pub open spec fn distinct(self) -> bool {
        self.registered_stack_files.no_duplicates()
    }

    /// How often `path` is registered.
    pub open spec fn times_registered(self, path: Seq<char>) -> nat {
        self.registered_stack_files.to_multiset().count(path)
    }
}

/// A registry with no default and no registered file.
pub fn regenerate_configuration() -> (config: Configuration)
    ensures
        config@.default_stack == Seq::<char>::empty(),
        config@.registered_stack_files == Seq::<Seq<char>>::empty(),
{
    let config = Configuration { default_stack: String::new(), registered_stack_files: Vec::new() };
    assert(config@.registered_stack_files =~= Seq::<Seq<char>>::empty());
    config
}

impl Configuration {
    /// The place of the first entry `path`, if there is one.
    pub fn position(&self, path: &str) -> (found: Option<usize>)
        ensures
            match found {
                Some(place) => place < self.registered_stack_files@.len()
                    && self@.registered_stack_files.index_of_first(path@) == Some(place as int),
                None => self@.registered_stack_files.index_of_first(path@) is None,
            },
    {
        let ghost files = self@.registered_stack_files;
        let mut at: usize = 0;
        while at < self.registered_stack_files.len()
            invariant
                at <= self.registered_stack_files@.len(),
                files == self@.registered_stack_files,
                forall|j: int| 0 <= j < at ==> files[j] != path@,
            decreases self.registered_stack_files.len() - at,
        {
            if same_text(self.registered_stack_files[at].as_str(), path) {
                proof {
                    lemma_first_place(files, path@, at as int);
                }
                return Some(at);
            }
            at = at + 1;
        }
        proof {
            lemma_no_place(files, path@);
        }
        None
    }

    /// Registers a canonical path: it is added behind the others, unless it
    /// is registered already; then nothing changes.
    pub fn register(&mut self, canonical_path: String) -> (done: Result<(), RegistryError>)
        ensures
            match old(self)@.register(canonical_path@) {
                Ok(next) => done is Ok && final(self)@ == next,
                Err(e) => done == Err::<(), RegistryError>(e) && *final(self) == *old(self),
            },
            old(self)@.distinct() ==> final(self)@.distinct(),
    {
        proof {
            self@.registered_stack_files.index_of_first_ensures(canonical_path@);
            if self@.distinct() && self@.register(canonical_path@) is Ok {
                lemma_register_keeps_distinct(self@, canonical_path@);
            }
        }
        if self.position(canonical_path.as_str()).is_some() {
            return Err(RegistryError::DuplicateRegistration);
        }
        proof {
            assert(texts(self.registered_stack_files@.push(canonical_path)) =~= texts(
                self.registered_stack_files@,
            ).push(canonical_path@));
        }
        self.registered_stack_files.push(canonical_path);
        Ok(())
    }

    /// Takes the first entry `canonical_path` out of the registry. Where the
    /// path is not registered, nothing changes.
    pub fn unregister(&mut self, canonical_path: &str) -> (done: Result<(), RegistryError>)
        ensures
            match old(self)@.unregister(canonical_path@) {
                Ok(next) => done is Ok && final(self)@ == next,
                Err(e) => done == Err::<(), RegistryError>(e) && *final(self) == *old(self),
            },
            old(self)@.distinct() ==> final(self)@.distinct(),
            done is Ok && old(self)@.distinct() ==> !final(self)@.registered_stack_files.contains(
                canonical_path@,
            ),
    {
        proof {
            lemma_unregister(self@, canonical_path@);
        }
        match self.position(canonical_path) {
            Some(place) => {
                proof {
                    assert(texts(self.registered_stack_files@.remove(place as int)) =~= texts(
                        self.registered_stack_files@,
                    ).remove(place as int));
                }
                self.registered_stack_files.remove(place);
                Ok(())
            },
            None => Err(RegistryError::NotRegistered),
        }
    }
}

/// Looks through the candidates, in the order given, for the first that gave
/// a valid document for the stack `stack_name`.
pub fn resolve(candidates: &Vec<Candidate>, stack_name: &str) -> (found: Option<usize>)
    ensures
        match found {
            Some(place) => place < candidates@.len() && resolved(candidates@, stack_name@) == Some(
                place as int,
            ),
            None => resolved(candidates@, stack_name@) is None,
        },
{
    let ghost hits = declaring(candidates@, stack_name@);
    let mut at: usize = 0;
    while at < candidates.len()
        invariant
            at <= candidates@.len(),
            hits == declaring(candidates@, stack_name@),
            forall|j: int| 0 <= j < at ==> !hits[j],
        decreases candidates.len() - at,
    {
        if candidates[at].is_stack(stack_name) {
            proof {
                lemma_first_place(hits, true, at as int);
            }
            return Some(at);
        }
        at = at + 1;
    }
    proof {
        lemma_no_place(hits, true);
    }
    None
}

/// Whether `stack_name` may be the default: it comes back where it is empty
/// or resolves among the candidates, and is refused as unknown otherwise.
pub fn validate_stack_names<'a>(candidates: &Vec<Candidate>, stack_name: &'a str) -> (checked:
    Result<&'a str, RegistryError>)
    ensures
        checked is Ok <==> selectable(candidates@, stack_name@),
        match checked {
            Ok(same) => same@ == stack_name@,
            Err(e) => e == RegistryError::UnknownStackName,
        },
{
    if stack_name.is_empty() || resolve(candidates, stack_name).is_some() {
        Ok(stack_name)
    } else {
        Err(RegistryError::UnknownStackName)
    }
}

/// Makes `desired_stack` the default, where it is empty or resolves among the
/// candidates. An unknown name is refused and nothing changes.
pub fn set_default_stack(
    config: &mut Configuration,
    candidates: &Vec<Candidate>,
    desired_stack: &str,
) -> (done: Result<(), RegistryError>)
    ensures
        done is Ok <==> selectable(candidates@, desired_stack@),
        match done {
            Ok(_) => final(config)@ == old(config)@.with_default(desired_stack@),
            Err(e) => e == RegistryError::UnknownStackName && *final(config) == *old(config),
        },
        selectable(candidates@, old(config)@.default_stack) ==> selectable(
            candidates@,
            final(config)@.default_stack,
        ),
{
    match validate_stack_names(candidates, desired_stack) {
        Ok(name) => {
            config.default_stack = name.to_owned();
            Ok(())
        },
        Err(e) => Err(e),
    }
}

/// Gives up a default that no candidate stands for any more. The answer says
/// whether the registry was changed, and so has to be written back.
pub fn drop_unknown_default(config: &mut Configuration, candidates: &Vec<Candidate>) -> (changed:
    bool)
    ensures
        changed == !selectable(candidates@, old(config)@.default_stack),
        selectable(candidates@, final(config)@.default_stack),
        changed ==> final(config)@ == old(config)@.with_default(Seq::<char>::empty()),
        !changed ==> *final(config) == *old(config),
{
    let known = validate_stack_names(candidates, config.default_stack.as_str()).is_ok();
    if known {
        false
    } else {
        config.default_stack = String::new();
        true
    }
}

/// Registers a stack file. `canonical_path` is the file's canonical path,
/// or `None` where the path names no file; `document` is what reading the
/// file gave. The file is registered where it gave a valid document and is
/// not registered yet; otherwise the registry stays as it is, and the first
/// of these that holds is reported: the path is unresolvable, the file gave
/// no document, the document breaks a rule, the path is registered already.
pub fn load_ldot_stack(
    config: &mut Configuration,
    canonical_path: Option<String>,
    document: &Result<StackConfig, ReadFailure>,
) -> (done: Result<(), RegistryError>)
    ensures
        done is Ok <==> {
            &&& canonical_path is Some
            &&& document is Ok
            &&& is_valid(document->Ok_0@)
            &&& !old(config)@.registered_stack_files.contains(canonical_path->Some_0@)
        },
        match done {
            Ok(_) => Ok::<RegistryView, RegistryError>(final(config)@) == old(config)@.register(
                canonical_path->Some_0@,
            ),
            Err(e) => *final(config) == *old(config) && match e {
                RegistryError::PathUnresolvable => canonical_path is None,
                RegistryError::Unusable(failure) => canonical_path is Some && *document == Err::<
                    StackConfig,
                    ReadFailure,
                >(failure),
                RegistryError::Invalid(broken) => canonical_path is Some && document is Ok
                    && violation(document->Ok_0@) == Some(broken@),
                RegistryError::DuplicateRegistration => canonical_path is Some && document is Ok
                    && is_valid(document->Ok_0@),
                _ => false,
            },
        },
        old(config)@.distinct() ==> final(config)@.distinct(),
{
    let path = match canonical_path {
        Some(path) => path,
        None => {
            return Err(RegistryError::PathUnresolvable);
        },
    };
    match document {
        Ok(doc) => match find_violation(doc) {
            Some(broken) => Err(RegistryError::Invalid(broken)),
            None => config.register(path),
        },
        Err(failure) => Err(RegistryError::Unusable(*failure)),
    }
}

/// Takes a stack file out of the registry. `canonical_path` is the file's
/// canonical path, or `None` where the path names no file. The file itself
/// is not touched.
pub fn unload_ldot_stack(config: &mut Configuration, canonical_path: Option<String>) -> (done:
    Result<(), RegistryError>)
    ensures
        match canonical_path {
            Some(path) => match old(config)@.unregister(path@) {
                Ok(next) => done is Ok && final(config)@ == next,
                Err(e) => done == Err::<(), RegistryError>(e) && *final(config) == *old(config),
            },
            None => *final(config) == *old(config) && done == Err::<(), RegistryError>(
                RegistryError::PathUnresolvable,
            ),
        },
        old(config)@.distinct() ==> final(config)@.distinct(),
{
    match canonical_path {
        Some(path) => config.unregister(path.as_str()),
        None => Err(RegistryError::PathUnresolvable),
    }
}

/// A path that was registered with success stands in the registry exactly
/// once, and registering it again is refused as a duplicate.
pub proof fn lemma_register_once(registry: RegistryView, path: Seq<char>)
    requires
        registry.register(path) is Ok,
    ensures
        registry.register(path)->Ok_0.registered_stack_files.contains(path),
        registry.register(path)->Ok_0.times_registered(path) == 1,
        registry.register(path)->Ok_0.register(path) == Err::<RegistryView, RegistryError>(
            RegistryError::DuplicateRegistration,
        ),
{
    let before = registry.registered_stack_files;
    let after = registry.register(path)->Ok_0.registered_stack_files;
    assert(after == before.push(path));
    assert(after[after.len() - 1] == path);
    vstd::seq_lib::to_multiset_build(before, path);
    vstd::seq_lib::to_multiset_contains(before, path);
}

/// Registration keeps a registry free of duplicates.
pub proof fn lemma_register_keeps_distinct(registry: RegistryView, path: Seq<char>)
    requires
        registry.distinct(),
        registry.register(path) is Ok,
    ensures
        registry.register(path)->Ok_0.distinct(),
{
    let before = registry.registered_stack_files;
    let after = before.push(path);
    assert forall|i: int, j: int| 0 <= i < after.len() && 0 <= j < after.len() && i != j implies
        after[i] != after[j] by {
        if i < before.len() && j < before.len() {
            assert(before[i] != before[j]);
        } else if i < before.len() {
            assert(before.contains(before[i]));
        } else {
            assert(before.contains(before[j]));
        }
    }
}

/// Unregistering a path that was just registered gives back the registry as
/// it was before, so the path is no longer in it.
pub proof fn lemma_unregister_undoes_register(registry: RegistryView, path: Seq<char>)
    requires
        registry.register(path) is Ok,
    ensures
        registry.register(path)->Ok_0.unregister(path) == Ok::<RegistryView, RegistryError>(
            registry,
        ),
        !registry.register(path)->Ok_0.unregister(path)->Ok_0.registered_stack_files.contains(
            path,
        ),
{
    let before = registry.registered_stack_files;
    let after = before.push(path);
    assert forall|j: int| 0 <= j < before.len() implies after[j] != path by {
        assert(before.contains(before[j]));
    }
    lemma_first_place(after, path, before.len() as int);
    assert(after.remove(before.len() as int) =~= before);
}

/// Unregistering a path that is not registered is refused, and a path that
/// was unregistered with success leaves a registry free of duplicates
/// without that path.
pub proof fn lemma_unregister(registry: RegistryView, path: Seq<char>)
    ensures
        registry.unregister(path) is Ok <==> registry.registered_stack_files.contains(path),
        registry.unregister(path) is Err ==> registry.unregister(path) == Err::<
            RegistryView,
            RegistryError,
        >(RegistryError::NotRegistered),
        registry.unregister(path) is Ok && registry.distinct() ==> {
            &&& registry.unregister(path)->Ok_0.distinct()
            &&& !registry.unregister(path)->Ok_0.registered_stack_files.contains(path)
        },
{
    let before = registry.registered_stack_files;
    before.index_of_first_ensures(path);
    if registry.unregister(path) is Ok && registry.distinct() {
        let place = before.index_of_first(path)->Some_0;
        let after = before.remove(place);
        assert forall|i: int| 0 <= i < after.len() implies after[i] == before[if i < place {
            i
        } else {
            i + 1
        }] by {}
        assert forall|i: int| 0 <= i < after.len() implies after[i] != path by {
            let k = if i < place {
                i
            } else {
                i + 1
            };
            assert(after[i] == before[k]);
            assert(before[k] != before[place]);
        }
        lemma_no_place(after, path);
        assert forall|i: int, j: int|
            0 <= i < after.len() && 0 <= j < after.len() && i != j implies after[i]
            != after[j] by {
            let ki = if i < place {
                i
            } else {
                i + 1
            };
            let kj = if j < place {
                j
            } else {
                j + 1
            };
            assert(after[i] == before[ki]);
            assert(after[j] == before[kj]);
        }
    }
}

/// Of the candidates that gave a valid document for one stack name, only
/// the first is resolved to: a later one never is.
pub proof fn lemma_earliest_wins(
    candidates: Seq<Candidate>,
    name: Seq<char>,
    earlier: int,
    later: int,
)
    requires
        0 <= earlier < later < candidates.len(),
        candidates[earlier].declares(name),
        candidates[later].declares(name),
    ensures
        resolved(candidates, name) is Some,
        resolved(candidates, name)->Some_0 <= earlier,
        resolved(candidates, name) != Some(later),
{
    let hits = declaring(candidates, name);
    hits.index_of_first_ensures(true);
    assert(hits[earlier]);
    assert(hits.contains(true));
    let first = hits.index_of_first(true)->Some_0;
    if first > earlier {
        assert(hits[earlier] != true);
    }
}

/// Resolution answers with a candidate that gave a valid document for the
/// stack, and passes over no earlier one that did.
pub proof fn lemma_resolved(candidates: Seq<Candidate>, name: Seq<char>)
    ensures
        match resolved(candidates, name) {
            Some(place) => {
                &&& 0 <= place < candidates.len()
                &&& candidates[place].declares(name)
                &&& forall|j: int| 0 <= j < place ==> !(#[trigger] candidates[j]).declares(name)
            },
            None => forall|j: int|
                0 <= j < candidates.len() ==> !(#[trigger] candidates[j]).declares(name),
        },
{
    let hits = declaring(candidates, name);
    hits.index_of_first_ensures(true);
    match resolved(candidates, name) {
        Some(place) => {
            assert(hits[place]);
            assert forall|j: int| 0 <= j < place implies !(#[trigger] candidates[j]).declares(
                name,
            ) by {
                assert(hits[j] != true);
            }
        },
        None => {
            assert forall|j: int| 0 <= j < candidates.len() implies !(
            #[trigger] candidates[j]).declares(name) by {
                if candidates[j].declares(name) {
                    assert(hits[j]);
                    assert(hits.contains(true));
                }
            }
        },
    }
}

} // verus!
