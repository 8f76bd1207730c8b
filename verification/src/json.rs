//! JSON documents as serde_json reads, edits and writes them.

use vstd::prelude::*;

verus! {

/// The members of a JSON object: each name with the compact text of its
/// value. `depth` is how many arrays and objects its values are nested deep.
pub struct JsonObject {
    pub fields: Map<Seq<char>, Seq<u8>>,
    pub depth: nat,
}

/// A JSON document: an object by its members, anything else by its compact
/// text and how deep it is nested.
pub enum JsonDocument {
    Object(JsonObject),
    Other { text: Seq<u8>, depth: nat },
}

/// How many arrays and objects are nested in one another.
pub open spec fn nesting(document: JsonDocument) -> nat {
    match document {
        JsonDocument::Object(object) => object.depth + 1,
        JsonDocument::Other { depth, .. } => depth,
    }
}

/// The nesting that serde_json's parser still accepts.
pub open spec fn max_nesting() -> nat {
    127
}

#[verifier::external_type_specification]
#[verifier::external_body]
pub struct ExJsonValue(serde_json::Value);

#[verifier::external_type_specification]
#[verifier::external_body]
#[verifier::reject_recursive_types(K)]
#[verifier::reject_recursive_types(V)]
pub struct ExJsonMap<K, V>(serde_json::Map<K, V>);

/// What a `serde_json::Value` holds.
pub uninterp spec fn value_document(value: serde_json::Value) -> JsonDocument;

/// What a `serde_json::Map` holds.
pub uninterp spec fn map_object(map: serde_json::Map<String, serde_json::Value>) -> JsonObject;

/// The document that `serde_json::from_slice` reads from `bytes`, or the
/// message that tells why it reads none.
pub uninterp spec fn parsed_document(bytes: Seq<u8>) -> Result<JsonDocument, Seq<char>>;

/// The compact text that `serde_json::to_vec` writes for an object with these
/// members.
pub uninterp spec fn object_text(fields: Map<Seq<char>, Seq<u8>>) -> Seq<u8>;

pub open spec fn document_text(document: JsonDocument) -> Seq<u8> {
    match document {
        JsonDocument::Object(object) => object_text(object.fields),
        JsonDocument::Other { text, .. } => text,
    }
}

/// `n` in decimal, without leading zeros.
pub open spec fn decimal(n: nat) -> Seq<u8>
    decreases n,
{
    if n < 10 {
        seq![(48 + n) as u8]
    } else {
        decimal(n / 10).push((48 + n % 10) as u8)
    }
}

/// Whether a member's text is a JSON string or an unsigned 32-bit integer.
pub open spec fn is_string_or_u32(text: Seq<u8>) -> bool {
    (text.len() > 0 && text[0] == 34) || exists|n: u32| text == #[trigger] decimal(n as nat)
}

/// Whether `text` parses as an object with these members, of which strings and
/// unsigned 32-bit integers have kept their text.
pub open spec fn reads_back(text: Seq<u8>, fields: Map<Seq<char>, Seq<u8>>) -> bool {
    &&& parsed_document(text) matches Ok(JsonDocument::Object(read))
    &&& read.fields.dom() == fields.dom()
    &&& forall|key: Seq<char>| #[trigger]
        fields.contains_key(key) && is_string_or_u32(fields[key]) ==> read.fields[key]
            == fields[key]
}

/// Calls `serde_json::from_slice` for a `Value`, and turns its error into the
/// error's message. Trusted: the outcome, the message included, is a function
/// of the bytes, and what is read is not nested deeper than the parser's limit.
#[verifier::external_body]
pub(crate) fn from_slice(bytes: &[u8]) -> (res: Result<serde_json::Value, String>)
    ensures
        match res {
            Ok(value) => parsed_document(bytes@) == Ok::<JsonDocument, Seq<char>>(
                value_document(value),
            ),
            Err(cause) => parsed_document(bytes@) == Err::<JsonDocument, Seq<char>>(cause@),
        },
        res matches Ok(value) ==> nesting(value_document(value)) <= max_nesting(),
{
    match serde_json::from_slice(bytes) {
        Ok(value) => Ok(value),
        Err(e) => Err(e.to_string()),
    }
}

/// Calls `Value::as_object_mut`. Trusted: it hands out the members exactly
/// where the value is an object, and the value then holds what they become.
#[verifier::external_body]
pub(crate) fn as_object_mut(value: &mut serde_json::Value) -> (res: Option<
    &mut serde_json::Map<String, serde_json::Value>,
>)
    ensures
        match res {
            Some(map) => {
                &&& value_document(*old(value)) == JsonDocument::Object(map_object(*map))
                &&& value_document(*final(value)) == JsonDocument::Object(map_object(*final(map)))
            },
            None => {
                &&& value_document(*old(value)) is Other
                &&& value_document(*final(value)) == value_document(*old(value))
            },
        },
{
    value.as_object_mut()
}

/// Calls `Value::from` for a `u32`. Trusted: the value is the number.
#[verifier::external_body]
pub(crate) fn number_value(number: u32) -> (res: serde_json::Value)
    ensures
        value_document(res) == (JsonDocument::Other { text: decimal(number as nat), depth: 0 }),
{
    serde_json::Value::from(number)
}

/// Calls `Map::insert`. Trusted: the member `key` is set to the value, every
/// other member stays, nothing is nested deeper than the members before and
/// the value, and the member's former value is returned if there was one.
#[verifier::external_body]
pub(crate) fn insert_member(
    map: &mut serde_json::Map<String, serde_json::Value>,
    key: String,
    value: serde_json::Value,
) -> (res: Option<serde_json::Value>)
    ensures
        map_object(*final(map)).fields == map_object(*old(map)).fields.insert(
            key@,
            document_text(value_document(value)),
        ),
        map_object(*final(map)).depth <= map_object(*old(map)).depth || map_object(
            *final(map),
        ).depth <= nesting(value_document(value)),
        match res {
            Some(former) => {
                &&& map_object(*old(map)).fields.contains_key(key@)
                &&& document_text(value_document(former)) == map_object(*old(map)).fields[key@]
            },
            None => !map_object(*old(map)).fields.contains_key(key@),
        },
{
    map.insert(key, value)
}

/// Calls `serde_json::to_vec` on a `Value`, and turns its error into the
/// error's message. Trusted: writing a value never fails and its text is a
/// function of what it holds. Read back, an object has the same members, with
/// the same text for strings and unsigned 32-bit integers. What becomes of the
/// text of other members (a fractional number may change in its last place) is
/// not stated. Values nested deeper than the parser accepts are left out:
/// writing one recurses as deep.
#[verifier::external_body]
pub(crate) fn to_vec(value: &serde_json::Value) -> (res: Result<Vec<u8>, String>)
    requires
        nesting(value_document(*value)) <= max_nesting(),
    ensures
        res is Ok,
        value_document(*value) matches JsonDocument::Object(object) ==> res->Ok_0@ == object_text(
            object.fields,
        ),
        value_document(*value) matches JsonDocument::Other { text, .. } ==> res->Ok_0@ == text,
        value_document(*value) matches JsonDocument::Object(object) ==> reads_back(
            res->Ok_0@,
            object.fields,
        ),
{
    match serde_json::to_vec(value) {
        Ok(text) => Ok(text),
        Err(e) => Err(e.to_string()),
    }
}

} // verus!
