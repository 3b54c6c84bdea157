//! Shortcut overrides as the settings file holds them.

use serde_json::Value;

use vstd::prelude::*;

use crate::strings;

verus! {

/// `serde_json::Value`: any JSON value.
#[verifier::external_type_specification]
#[verifier::external_body]
pub struct ExValue(serde_json::Value);

/// `serde_json::Map`: a JSON object.
#[verifier::external_type_specification]
#[verifier::external_body]
#[verifier::reject_recursive_types(K)]
#[verifier::reject_recursive_types(V)]
pub struct ExMap<K, V>(serde_json::Map<K, V>);

/// The items of a JSON array; none for a value that is no array.
pub uninterp spec fn json_array(value: Value) -> Option<Seq<Value>>;

/// The text of a JSON string; none for a value that is no string.
pub uninterp spec fn json_text(value: Value) -> Option<Seq<char>>;

/// The members of a JSON object, in the order in which it is walked.
pub uninterp spec fn json_members(map: serde_json::Map<String, Value>) -> Seq<(Seq<char>, Value)>;

/// `serde_json::Value::as_array`: the items of an array, None for any other value.
#[verifier::external_body]
fn array_items(value: &Value) -> (items: Option<&Vec<Value>>)
    ensures
        match items {
            Some(list) => json_array(*value) == Some(list@),
            None => json_array(*value) is None,
        },
{
    value.as_array()
}

/// `serde_json::Value::as_str`: the text of a string, None for any other value.
#[verifier::external_body]
fn string_text(value: &Value) -> (text: Option<&str>)
    ensures
        match text {
            Some(found) => json_text(*value) == Some(found@),
            None => json_text(*value) is None,
        },
{
    value.as_str()
}

/// `serde_json::Map::iter`: every member with its key, in the order of the object.
#[verifier::external_body]
fn object_members(map: &serde_json::Map<String, Value>) -> (members: Vec<(&String, &Value)>)
    ensures
        members@.map_values(|member: (&String, &Value)| (member.0@, *member.1)) == json_members(
            *map,
        ),
{
    map.iter().collect()
}

/// The strings among the items of an array, in order.
pub open spec fn texts_among(items: Seq<Value>) -> Seq<Seq<char>>
    decreases items.len(),
{
    if items.len() == 0 {
        Seq::empty()
    } else {
        let before = texts_among(items.drop_last());
        match json_text(items.last()) {
            Some(text) => before.push(text),
            None => before,
        }
    }
}

/// The strings a value lists; a value that is no array lists none.
pub open spec fn listed_texts(value: Value) -> Seq<Seq<char>> {
    match json_array(value) {
        Some(items) => texts_among(items),
        None => Seq::empty(),
    }
}

/// What an object lists under each of its keys.
pub open spec fn listed_members(members: Seq<(Seq<char>, Value)>) -> Seq<(Seq<char>, Seq<Seq<char>>)> {
    members.map_values(|member: (Seq<char>, Value)| (member.0, listed_texts(member.1)))
}

fn string_list(value: &Value) -> (list: Vec<String>)
    ensures
        strings::spellings(list@) == listed_texts(*value),
{
    let mut list: Vec<String> = Vec::new();
    assert(strings::spellings(list@) =~= Seq::empty());
    match array_items(value) {
        Some(items) => {
            let mut index: usize = 0;
            assert(items@.take(0) =~= Seq::empty());
            while index < items.len()
                invariant
                    index <= items.len(),
                    strings::spellings(list@) == texts_among(items@.take(index as int)),
                decreases items.len() - index,
            {
                let ghost before = strings::spellings(list@);
                assert(items@.take(index + 1).drop_last() =~= items@.take(index as int));
                match string_text(&items[index]) {
                    Some(text) => {
                        list.push(text.to_owned());
                        assert(strings::spellings(list@) =~= before.push(text@));
                    },
                    None => {},
                }
                index += 1;
            }
            assert(items@.take(index as int) =~= items@);
        },
        None => {},
    }
    list
}

/// The shortcuts of the settings file: under each action's name, the texts it lists.
pub struct Overrides {
    pub lists: Vec<(String, Vec<String>)>,
}

pub open spec fn list_models(lists: Seq<(String, Vec<String>)>) -> Seq<(Seq<char>, Seq<Seq<char>>)> {
    lists.map_values(|list: (String, Vec<String>)| (list.0@, strings::spellings(list.1@)))
}

impl View for Overrides {
    type V = Seq<(Seq<char>, Seq<Seq<char>>)>;

    open spec fn view(&self) -> Seq<(Seq<char>, Seq<Seq<char>>)> {
        list_models(self.lists@)
    }
}

/// The overrides a settings object stands for.
pub open spec fn optional_members(map: Option<&serde_json::Map<String, Value>>) -> Option<
    Seq<(Seq<char>, Seq<Seq<char>>)>,
> {
    match map {
        Some(found) => Some(listed_members(json_members(*found))),
        None => None,
    }
}

/// The overrides behind an optional list of them.
pub open spec fn optional_lists(overrides: Option<Overrides>) -> Option<
    Seq<(Seq<char>, Seq<Seq<char>>)>,
> {
    match overrides {
        Some(found) => Some(found@),
        None => None,
    }
}

impl Overrides {
    /// Reads a settings object; values that list no texts count as empty lists.
    pub fn from_map(map: &serde_json::Map<String, Value>) -> (overrides: Self)
        ensures
            overrides@ == listed_members(json_members(*map)),
    {
        let members = object_members(map);
        let ghost models = json_members(*map);
        let mut lists: Vec<(String, Vec<String>)> = Vec::new();
        let mut index: usize = 0;
        while index < members.len()
            invariant
                models == members@.map_values(
                    |member: (&String, &Value)| (member.0@, *member.1),
                ),
                index <= members.len(),
                list_models(lists@) == listed_members(models.take(index as int)),
            decreases members.len() - index,
        {
            let ghost before = list_models(lists@);
            let (name, value) = members[index];
            let list = string_list(value);
            let ghost entry = (name@, strings::spellings(list@));
            lists.push((name.clone(), list));
            assert(models[index as int] == (name@, *value));
            assert(list_models(lists@) =~= before.push(entry));
            assert(listed_members(models.take(index + 1)) =~= listed_members(
                models.take(index as int),
            ).push(entry));
            index += 1;
        }
        assert(models.take(index as int) =~= models);
        Overrides { lists }
    }

    /// The overrides of a settings object that may be missing.
    pub fn from_optional(map: Option<&serde_json::Map<String, Value>>) -> (overrides: Option<Self>)
        ensures
            optional_lists(overrides) == optional_members(map),
    {
        match map {
            Some(found) => Some(Overrides::from_map(found)),
            None => None,
        }
    }
}

} // verus!
