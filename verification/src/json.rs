//! JSON documents as the library sees them: a value of `serde_json` is read
//! through a handful of calls, and the contracts speak of the tree that the
//! value holds.

use vstd::prelude::*;

verus! {

/// What a JSON value holds. The members of an object stand in the order in
/// which the object hands them out. A number carries nothing: no rule of
/// this library reads one.
pub enum JsonTree {
    Null,
    Bool(bool),
    Number,
    Text(Seq<char>),
    Array(Seq<JsonTree>),
    Object(Seq<(Seq<char>, JsonTree)>),
}

/// The value of the first member named `key`, or `Null` where there is none.
pub open spec fn lookup(members: Seq<(Seq<char>, JsonTree)>, key: Seq<char>) -> JsonTree
    decreases members.len(),
{
    if members.len() == 0 {
        JsonTree::Null
    } else if members[0].0 == key {
        members[0].1
    } else {
        lookup(members.drop_first(), key)
    }
}

impl JsonTree {
    /// The members of an object; anything else has none.
    pub open spec fn members(self) -> Seq<(Seq<char>, JsonTree)> {
        match self {
            JsonTree::Object(members) => members,
            _ => Seq::empty(),
        }
    }

    /// The member named `key` of an object; `Null` where the tree is no
    /// object or has no such member.
    pub open spec fn member(self, key: Seq<char>) -> JsonTree {
        lookup(self.members(), key)
    }

    /// The text of a string.
    pub open spec fn text(self) -> Option<Seq<char>> {
        match self {
            JsonTree::Text(t) => Some(t),
            _ => None,
        }
    }

    /// The value of a boolean.
    pub open spec fn flag(self) -> Option<bool> {
        match self {
            JsonTree::Bool(b) => Some(b),
            _ => None,
        }
    }
}

/// The number of objects and leaves under a tree, the tree included; what is
/// inside an array is not counted.
pub open spec fn tree_size(tree: JsonTree) -> nat
    decreases tree,
{
    match tree {
        JsonTree::Object(members) => 1 + members_size(members),
        _ => 1,
    }
}

/// The sizes of the members' values, added up.
pub open spec fn members_size(members: Seq<(Seq<char>, JsonTree)>) -> nat
    decreases members,
{
    if members.len() == 0 {
        0
    } else {
        tree_size(members.last().1) + members_size(members.drop_last())
    }
}

/// An object found by `lookup` is smaller than the members it was found in.
pub proof fn lemma_lookup_size(members: Seq<(Seq<char>, JsonTree)>, key: Seq<char>)
    ensures
        lookup(members, key) is Object ==> tree_size(lookup(members, key)) <= members_size(members),
    decreases members.len(),
{
    if members.len() > 0 {
        lemma_member_size(members, 0);
        if members[0].0 != key {
            let rest = members.drop_first();
            lemma_lookup_size(rest, key);
            lemma_members_size_drop_first(members);
        }
    }
}

/// Each member's value is no larger than the members together.
pub proof fn lemma_member_size(members: Seq<(Seq<char>, JsonTree)>, i: int)
    requires
        0 <= i < members.len(),
    ensures
        tree_size(members[i].1) <= members_size(members),
    decreases members.len(),
{
    if i < members.len() - 1 {
        lemma_member_size(members.drop_last(), i);
    }
}

/// The size of the members is that of the first and that of the rest.
pub proof fn lemma_members_size_drop_first(members: Seq<(Seq<char>, JsonTree)>)
    requires
        members.len() > 0,
    ensures
        members_size(members) == tree_size(members[0].1) + members_size(members.drop_first()),
    decreases members.len(),
{
    if members.len() == 1 {
        assert(members.drop_last() =~= members.drop_first());
    } else {
        lemma_members_size_drop_first(members.drop_last());
        assert(members.drop_last().drop_first() =~= members.drop_first().drop_last());
    }
}

#[verifier::external_type_specification]
#[verifier::external_body]
pub struct ExValue(serde_json::Value);

#[verifier::external_type_specification]
#[verifier::external_body]
#[verifier::reject_recursive_types(K)]
#[verifier::reject_recursive_types(V)]
pub struct ExMap<K, V>(serde_json::Map<K, V>);

#[verifier::external_type_specification]
#[verifier::external_body]
pub struct ExJsonError(serde_json::Error);

/// The tree that a JSON value holds.
pub uninterp spec fn json_tree(value: serde_json::Value) -> JsonTree;

/// The members that a JSON object holds, in the order in which it hands
/// them out.
pub uninterp spec fn json_members(map: serde_json::Map<String, serde_json::Value>) -> Seq<
    (Seq<char>, JsonTree),
>;

/// The tree that a text reads as, where it is a JSON document.
pub uninterp spec fn parsed_json(text: Seq<char>) -> Option<JsonTree>;

/// `serde_json::from_str`, reading a `serde_json::Value`: whether the text
/// is a JSON document, and the tree of the value it reads as, depend on the
/// text alone.
#[verifier::external_body]
pub(crate) fn json_from_str(text: &str) -> (r: Result<serde_json::Value, serde_json::Error>)
    ensures
        parsed_json(text@) == (match r {
            Ok(value) => Some(json_tree(value)),
            Err(_) => None,
        }),
{
    serde_json::from_str::<serde_json::Value>(text)
}

/// Indexing a `serde_json::Value` by a string: the member of that name
/// where the value is an object that has one, and a null value otherwise.
#[verifier::external_body]
pub(crate) fn json_index<'a>(value: &'a serde_json::Value, key: &str) -> (r: &'a serde_json::Value)
    ensures
        json_tree(*r) == json_tree(*value).member(key@),
{
    &value[key]
}

/// `serde_json::Value::as_object`: the map of an object, and nothing for
/// any other value.
#[verifier::external_body]
pub(crate) fn json_as_object<'a>(value: &'a serde_json::Value) -> (r: Option<
    &'a serde_json::Map<String, serde_json::Value>,
>)
    ensures
        match r {
            Some(map) => json_tree(*value) == JsonTree::Object(json_members(*map)),
            None => !(json_tree(*value) is Object),
        },
{
    value.as_object()
}

/// `serde_json::Value::as_str`: the text of a string, and nothing for any
/// other value.
#[verifier::external_body]
pub(crate) fn json_as_str<'a>(value: &'a serde_json::Value) -> (r: Option<&'a str>)
    ensures
        json_tree(*value).text() == (match r {
            Some(text) => Some(text@),
            None => None,
        }),
{
    value.as_str()
}

/// `serde_json::Value::as_bool`: the value of a boolean, and nothing for
/// any other value.
#[verifier::external_body]
pub(crate) fn json_as_bool(value: &serde_json::Value) -> (r: Option<bool>)
    ensures
        r == json_tree(*value).flag(),
{
    value.as_bool()
}

/// `serde_json::Map::iter`, collected: the members of the map, each a key
/// and a value, in the order in which the map hands them out.
#[verifier::external_body]
pub(crate) fn json_entries<'a>(map: &'a serde_json::Map<String, serde_json::Value>) -> (r: Vec<
    (&'a String, &'a serde_json::Value),
>)
    ensures
        r@.len() == json_members(*map).len(),
        forall|i: int|
            0 <= i < r@.len() ==> (#[trigger] r@[i]).0@ == json_members(*map)[i].0 && json_tree(
                *r@[i].1,
            ) == json_members(*map)[i].1,
{
    map.iter().collect()
}

} // verus!
