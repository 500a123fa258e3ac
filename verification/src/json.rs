//! JSON values as trees, and the reading of a text into one.

use vstd::prelude::*;
use crate::search::{lemma_first_place, lemma_no_place};
use crate::text::same_text;

verus! {

/// A JSON value. A number is kept as its text.
#[derive(Debug, PartialEq, Eq)]
pub enum Json {
    Null,
    Bool(bool),
    Number(String),
    Text(String),
    Array(Vec<Json>),
    Object(Vec<Member>),
}

/// A member of a JSON object.
#[derive(Debug, PartialEq, Eq)]
pub struct Member {
    pub key: String,
    pub value: Json,
}

/// What a JSON value says.
pub enum JsonView {
    Null,
    Bool(bool),
    Number(Seq<char>),
    Text(Seq<char>),
    Array(Seq<JsonView>),
    Object(Seq<MemberView>),
}

/// What a member of a JSON object says.
pub struct MemberView {
    pub key: Seq<char>,
    pub value: JsonView,
}

impl View for Json {
    type V = JsonView;

    open spec fn view(&self) -> JsonView
        decreases self,
    {
        match self {
            Json::Null => JsonView::Null,
            Json::Bool(b) => JsonView::Bool(*b),
            Json::Number(n) => JsonView::Number(n@),
            Json::Text(t) => JsonView::Text(t@),
            Json::Array(items) => JsonView::Array(
                Seq::new(
                    items@.len(),
                    |i: int|
                        if 0 <= i < items@.len() {
                            items@[i].view()
                        } else {
                            JsonView::Null
                        },
                ),
            ),
            Json::Object(members) => JsonView::Object(
                Seq::new(
                    members@.len(),
                    |i: int|
                        if 0 <= i < members@.len() {
                            MemberView { key: members@[i].key@, value: members@[i].value.view() }
                        } else {
                            MemberView { key: Seq::<char>::empty(), value: JsonView::Null }
                        },
                ),
            ),
        }
    }
}

/// The views of the items of an array, in order.
pub open spec fn item_views(items: Seq<Json>) -> Seq<JsonView> {
    items.map_values(|j: Json| j@)
}

/// The views of the members of an object, in order.
pub open spec fn member_views(members: Seq<Member>) -> Seq<MemberView> {
    members.map_values(|m: Member| MemberView { key: m.key@, value: m.value@ })
}

/// The keys of the members of an object, in order.
pub open spec fn keys(members: Seq<MemberView>) -> Seq<Seq<char>> {
    members.map_values(|m: MemberView| m.key)
}

/// The value that an object has under `key`: that of its first member with
/// that key.
pub open spec fn member(members: Seq<MemberView>, key: Seq<char>) -> Option<JsonView> {
    match keys(members).index_of_first(key) {
        Some(place) => Some(members[place].value),
        None => None,
    }
}

/// `serde_json::Value`, a JSON value as `serde_json` holds it. Nothing inside
/// one is visible here; `top_layer` hands out what it holds.
#[verifier::external_type_specification]
#[verifier::external_body]
pub struct ExValue(serde_json::Value);

/// The tree that a `serde_json::Value` holds.
pub uninterp spec fn value_tree(value: serde_json::Value) -> JsonView;

/// How many levels the tree of a `serde_json::Value` has.
pub uninterp spec fn value_depth(value: serde_json::Value) -> nat;

/// The JSON value that `serde_json::from_str` reads from a text, if the text
/// is JSON.
pub uninterp spec fn json_of(text: Seq<char>) -> Option<JsonView>;

/// A member of an object of `serde_json`: its key, and the value under it.
pub struct Entry<'a> {
    pub key: String,
    pub value: &'a serde_json::Value,
}

/// The top level of a `serde_json::Value`: what kind of value it is, and the
/// values directly inside it.
pub enum Layer<'a> {
    Null,
    Bool(bool),
    Number(String),
    Text(String),
    Array(Vec<&'a serde_json::Value>),
    Object(Vec<Entry<'a>>),
}

impl<'a> Layer<'a> {
    /// The tree of a value with this top level.
    pub open spec fn tree(self) -> JsonView {
        match self {
            Layer::Null => JsonView::Null,
            Layer::Bool(b) => JsonView::Bool(b),
            Layer::Number(n) => JsonView::Number(n@),
            Layer::Text(t) => JsonView::Text(t@),
            Layer::Array(items) => JsonView::Array(
                items@.map_values(|v: &serde_json::Value| value_tree(*v)),
            ),
            Layer::Object(entries) => JsonView::Object(
                entries@.map_values(
                    |e: Entry| MemberView { key: e.key@, value: value_tree(*e.value) },
                ),
            ),
        }
    }

    /// Whether each value directly inside has fewer levels than `depth`.
    pub open spec fn inside(self, depth: nat) -> bool {
        match self {
            Layer::Array(items) => forall|i: int|
                0 <= i < items@.len() ==> value_depth(*#[trigger] items@[i]) < depth,
            Layer::Object(entries) => forall|i: int|
                0 <= i < entries@.len() ==> value_depth(*(#[trigger] entries@[i]).value) < depth,
            _ => true,
        }
    }
}

/// `serde_json::from_str`, asked for a `serde_json::Value`. The value, or
/// the refusal, depends on the text alone; the contract names it and says
/// nothing of what it is.
#[verifier::external_body]
pub(crate) fn read_value(text: &str) -> (read: Option<serde_json::Value>)
    ensures
        match read {
            Some(value) => json_of(text@) == Some(value_tree(value)),
            None => json_of(text@) is None,
        },
{
    serde_json::from_str::<serde_json::Value>(text).ok()
}

/// Tells the variants of `serde_json::Value` apart and hands out what the
/// value holds: a number as the text that its `Display` gives, a text as a
/// copy, the items of an array and the members of an object in the order in
/// which the value yields them. Each value inside lies one level deeper.
#[verifier::external_body]
pub(crate) fn top_layer<'a>(value: &'a serde_json::Value) -> (layer: Layer<'a>)
    ensures
        layer.tree() == value_tree(*value),
        layer.inside(value_depth(*value)),
{
    match value {
        serde_json::Value::Null => Layer::Null,
        serde_json::Value::Bool(b) => Layer::Bool(*b),
        serde_json::Value::Number(n) => Layer::Number(n.to_string()),
        serde_json::Value::String(s) => Layer::Text(s.clone()),
        serde_json::Value::Array(a) => Layer::Array(a.iter().collect()),
        serde_json::Value::Object(m) => Layer::Object(
            m.iter().map(|(k, v)| Entry { key: k.clone(), value: v }).collect(),
        ),
    }
}

/// The tree of a `serde_json::Value`, as a `Json`.
pub fn tree_of(value: &serde_json::Value) -> (tree: Json)
    ensures
        tree@ == value_tree(*value),
    decreases value_depth(*value),
{
    match top_layer(value) {
        Layer::Null => Json::Null,
        Layer::Bool(b) => Json::Bool(b),
        Layer::Number(n) => Json::Number(n),
        Layer::Text(t) => Json::Text(t),
        Layer::Array(items) => {
            let mut list: Vec<Json> = Vec::new();
            let mut at: usize = 0;
            while at < items.len()
                invariant
                    at <= items@.len(),
                    list@.len() == at,
                    forall|i: int|
                        0 <= i < items@.len() ==> value_depth(*#[trigger] items@[i]) < value_depth(
                            *value,
                        ),
                    forall|i: int| 0 <= i < at ==> (#[trigger] list@[i])@ == value_tree(*items@[i]),
                decreases items.len() - at,
            {
                let item = tree_of(items[at]);
                list.push(item);
                at = at + 1;
            }
            let tree = Json::Array(list);
            proof {
                assert(tree@->Array_0 =~= items@.map_values(
                    |v: &serde_json::Value| value_tree(*v),
                ));
            }
            tree
        },
        Layer::Object(entries) => {
            let mut list: Vec<Member> = Vec::new();
            let mut at: usize = 0;
            while at < entries.len()
                invariant
                    at <= entries@.len(),
                    list@.len() == at,
                    forall|i: int|
                        0 <= i < entries@.len() ==> value_depth(*(#[trigger] entries@[i]).value)
                            < value_depth(*value),
                    forall|i: int|
                        0 <= i < at ==> (#[trigger] list@[i]).key@ == entries@[i].key@
                            && list@[i].value@ == value_tree(*entries@[i].value),
                decreases entries.len() - at,
            {
                let member = Member {
                    key: entries[at].key.clone(),
                    value: tree_of(entries[at].value),
                };
                list.push(member);
                at = at + 1;
            }
            let tree = Json::Object(list);
            proof {
                assert(tree@->Object_0 =~= entries@.map_values(
                    |e: Entry| MemberView { key: e.key@, value: value_tree(*e.value) },
                ));
            }
            tree
        },
    }
}

/// Reads a text as JSON. `None` where the text is not JSON. The members of
/// an object come as `serde_json` holds them.
pub fn parse_json(text: &str) -> (parsed: Option<Json>)
    ensures
        match parsed {
            Some(tree) => json_of(text@) == Some(tree@),
            None => json_of(text@) is None,
        },
{
    match read_value(text) {
        Some(value) => Some(tree_of(&value)),
        None => None,
    }
}

impl Json {
    /// The text, where the value is one.
    pub fn as_text(&self) -> (text: Option<&String>)
        ensures
            match text {
                Some(t) => self@ == JsonView::Text(t@),
                None => !(self@ is Text),
            },
    {
        match self {
            Json::Text(t) => Some(t),
            _ => None,
        }
    }

    /// The items, where the value is an array.
    pub fn as_array(&self) -> (items: Option<&Vec<Json>>)
        ensures
            match items {
                Some(list) => self@ == JsonView::Array(item_views(list@)),
                None => !(self@ is Array),
            },
    {
        match self {
            Json::Array(list) => {
                assert(self@->Array_0 =~= item_views(list@));
                Some(list)
            },
            _ => None,
        }
    }

    /// The members, where the value is an object.
    pub fn as_object(&self) -> (members: Option<&Vec<Member>>)
        ensures
            match members {
                Some(list) => self@ == JsonView::Object(member_views(list@)),
                None => !(self@ is Object),
            },
    {
        match self {
            Json::Object(list) => {
                assert(self@->Object_0 =~= member_views(list@));
                Some(list)
            },
            _ => None,
        }
    }
}

/// The value that the members of an object have under `key`.
pub fn find_member<'a>(members: &'a Vec<Member>, key: &str) -> (found: Option<&'a Json>)
    ensures
        match found {
            Some(value) => member(member_views(members@), key@) == Some(value@),
            None => member(member_views(members@), key@) is None,
        },
{
    let ghost names = keys(member_views(members@));
    let mut at: usize = 0;
    while at < members.len()
        invariant
            at <= members@.len(),
            names == keys(member_views(members@)),
            forall|j: int| 0 <= j < at ==> names[j] != key@,
        decreases members.len() - at,
    {
        if same_text(members[at].key.as_str(), key) {
            proof {
                lemma_first_place(names, key@, at as int);
            }
            return Some(&members[at].value);
        }
        at = at + 1;
    }
    proof {
        lemma_no_place(names, key@);
    }
    None
}

} // verus!
