//! The JSON object in which a batch read hands back what it found.
use vstd::prelude::*;

verus! {

#[verifier::external_type_specification]
#[verifier::external_body]
pub struct ExJsonValue(serde_json::Value);

#[verifier::external_type_specification]
#[verifier::external_body]
#[verifier::reject_recursive_types(K)]
#[verifier::reject_recursive_types(V)]
pub struct ExJsonMap<K, V>(serde_json::Map<K, V>);

pub type JsonObject = serde_json::Map<String, serde_json::Value>;

/// The names of all members of a JSON object.
pub uninterp spec fn json_member_keys(m: serde_json::Map<String, serde_json::Value>) -> Set<Seq<char>>;

/// The members of a JSON object whose value is a JSON string, with that
/// string's text.
pub uninterp spec fn json_string_members(m: serde_json::Map<String, serde_json::Value>) -> Map<
    Seq<char>,
    Seq<char>,
>;

/// Relies on serde_json::Map::new: a new object has no member.
pub assume_specification[ serde_json::Map::<String, serde_json::Value>::new ]() -> (r: serde_json::Map<String, serde_json::Value>)
    ensures
        json_member_keys(r) == Set::<Seq<char>>::empty(),
        json_string_members(r).dom() == Set::<Seq<char>>::empty(),
;

/// Relies on serde_json::Map::insert: afterwards the member `key` is the JSON
/// string `value`, replacing any earlier member of that name; the other
/// members stay.
#[verifier::external_body]
pub(crate) fn insert_string(
    m: &mut serde_json::Map<String, serde_json::Value>,
    key: String,
    value: String,
)
    ensures
        json_member_keys(*final(m)) == json_member_keys(*old(m)).insert(key@),
        json_string_members(*final(m)) == json_string_members(*old(m)).insert(key@, value@),
{
    m.insert(key, serde_json::Value::String(value));
}

} // verus!
