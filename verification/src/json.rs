//! The JSON that the broker reads and writes, through `serde_json`.
//!
//! The library looks at a JSON document as a map from member names to items, and only at
//! the items it has a use for: strings, unsigned integers and `null`. Parsing and printing
//! are `serde_json`'s work. Their results are named here, not computed.

use vstd::prelude::*;

verus! {

/// A JSON value of `serde_json`, carried through as it is.
#[verifier::external_type_specification]
#[verifier::external_body]
pub struct ExJsonValue(serde_json::Value);

/// The error of `serde_json`, carried through as it is.
#[verifier::external_type_specification]
#[verifier::external_body]
pub struct ExJsonError(serde_json::Error);

/// One member of a JSON object, as far as the library reads it.
#[derive(Clone, Debug, PartialEq, Eq)]
pub enum JsonField {
    /// A JSON string.
    Text(String),
    /// A JSON number that is an integer from 0 to `u64::MAX`.
    Unsigned(u64),
    /// JSON `null`.
    Null,
    /// Any other JSON value.
    Other,
}

/// The mathematical form of a [`JsonField`].
pub ghost enum JsonItem {
    Text(Seq<char>),
    Unsigned(u64),
    Null,
    Other,
}

impl View for JsonField {
    type V = JsonItem;

    open spec fn view(&self) -> JsonItem {
        match self {
            JsonField::Text(s) => JsonItem::Text(s@),
            JsonField::Unsigned(n) => JsonItem::Unsigned(*n),
            JsonField::Null => JsonItem::Null,
            JsonField::Other => JsonItem::Other,
        }
    }
}

/// The members of a JSON value: for an object, its members by name; for any other value,
/// none.
pub uninterp spec fn json_members(value: serde_json::Value) -> Map<Seq<char>, JsonItem>;

/// The members of the JSON value that `text` spells, where it spells one.
pub uninterp spec fn json_parsed(text: Seq<char>) -> Option<Map<Seq<char>, JsonItem>>;

/// The text of the JSON object whose members are the given names with the given strings as
/// values.
pub uninterp spec fn json_object_text(members: Seq<(Seq<char>, Seq<char>)>) -> Seq<char>;

/// Whether `name` is one of the two member names that `serde_json` keeps for its own use.
/// An object that begins with such a name is not read back as an object.
pub open spec fn reserved_name(name: Seq<char>) -> bool {
    name == "$serde_json::private::RawValue"@ || name == "$serde_json::private::Number"@
}

/// Whether `names` can be the member names of one object that is written and read back:
/// no two are alike and none is reserved.
pub open spec fn writable_names(names: Seq<Seq<char>>) -> bool {
    &&& forall|i: int, j: int| 0 <= i < j < names.len() ==> names[i] != names[j]
    &&& forall|i: int| 0 <= i < names.len() ==> !reserved_name(#[trigger] names[i])
}

/// The names of a list of members, in order.
pub open spec fn names_of<V>(entries: Seq<(Seq<char>, V)>) -> Seq<Seq<char>> {
    Seq::new(entries.len(), |i: int| entries[i].0)
}

/// Names that differ from each other and are shorter than the reserved ones can be
/// written.
pub proof fn lemma_writable_names(names: Seq<Seq<char>>)
    requires
        forall|i: int, j: int| 0 <= i < j < names.len() ==> names[i] != names[j],
        forall|i: int| 0 <= i < names.len() ==> (#[trigger] names[i]).len() < 28,
    ensures
        writable_names(names),
{
    reveal_strlit("$serde_json::private::RawValue");
    reveal_strlit("$serde_json::private::Number");
}

/// The members that a list of names and strings makes up.
pub open spec fn members_of(entries: Seq<(Seq<char>, Seq<char>)>) -> Map<Seq<char>, JsonItem>
    decreases entries.len(),
{
    if entries.len() == 0 {
        Map::empty()
    } else {
        members_of(entries.drop_last()).insert(entries.last().0, JsonItem::Text(entries.last().1))
    }
}

/// The names and values of `members` as character sequences.
pub open spec fn members_view(members: Seq<(String, String)>) -> Seq<(Seq<char>, Seq<char>)> {
    members.map_values(|member: (String, String)| (member.0@, member.1@))
}

/// `serde_json::from_str` at the type `serde_json::Value`: the value that `text` spells, or
/// the error where `text` is not one JSON value. Whether it is one, and what its members
/// are, depends on `text` alone.
#[verifier::external_body]
pub(crate) fn parse_json(text: &str) -> (parsed: Result<serde_json::Value, serde_json::Error>)
    ensures
        match parsed {
            Ok(value) => json_parsed(text@) == Some(json_members(value)),
            Err(_) => json_parsed(text@) is None,
        },
{
    serde_json::from_str::<serde_json::Value>(text)
}

/// `serde_json::Value::get` with a string index: the member of `value` named `key`, where
/// `value` is an object that has one.
#[verifier::external_body]
pub(crate) fn member(value: &serde_json::Value, key: &str) -> (field: Option<JsonField>)
    ensures
        match field {
            Some(found) => json_members(*value).contains_key(key@) && json_members(*value)[key@]
                == found@,
            None => !json_members(*value).contains_key(key@),
        },
{
    match value.get(key) {
        None => None,
        Some(serde_json::Value::Null) => Some(JsonField::Null),
        Some(serde_json::Value::String(text)) => Some(JsonField::Text(text.clone())),
        Some(serde_json::Value::Number(number)) => Some(
            number.as_u64().map_or(JsonField::Other, JsonField::Unsigned),
        ),
        Some(_) => Some(JsonField::Other),
    }
}

/// `serde_json::Value::to_string` on the object made of `members`: its JSON text, which
/// spells an object with just these members again. The names must differ from each other,
/// and none may be one that `serde_json` reads as something else than a member.
#[verifier::external_body]
pub(crate) fn object_text(members: &Vec<(String, String)>) -> (text: String)
    requires
        writable_names(names_of(members_view(members@))),
    ensures
        text@ == json_object_text(members_view(members@)),
        json_parsed(text@) == Some(members_of(members_view(members@))),
{
    let object: serde_json::Map<String, serde_json::Value> = members.iter().map(
        |member| (member.0.clone(), serde_json::Value::String(member.1.clone())),
    ).collect();
    serde_json::Value::Object(object).to_string()
}

/// The string that `members` holds under `key`; `fallback` where it holds none there.
pub open spec fn text_member(
    members: Map<Seq<char>, JsonItem>,
    key: Seq<char>,
    fallback: Seq<char>,
) -> Seq<char> {
    if members.contains_key(key) && members[key] is Text {
        members[key]->Text_0
    } else {
        fallback
    }
}

/// The string member `key` of `value`, or a copy of `fallback`.
pub(crate) fn text_or(value: &serde_json::Value, key: &str, fallback: &str) -> (text: String)
    ensures
        text@ == text_member(json_members(*value), key@, fallback@),
{
    match member(value, key) {
        Some(JsonField::Text(found)) => found,
        _ => fallback.to_owned(),
    }
}

} // verus!
