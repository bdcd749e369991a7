//! A JSON document as the Sui balance lookup reads it.
use vstd::prelude::*;

verus! {

/// A JSON value. An object keeps its members in a vector; its keys are
/// distinct, as in a parsed document where a repeated key keeps its last value.
pub enum JsonValue {
    Null,
    Bool(bool),
    /// A number, with its value when that is a signed 64-bit integer.
    Number(Option<i64>),
    Text(String),
    Array(Vec<JsonValue>),
    Object(Vec<(String, JsonValue)>),
}

/// The position of the first member of `fields` named `key`.
pub open spec fn member_index(fields: Seq<(String, JsonValue)>, key: Seq<char>) -> Option<int>
    decreases fields.len(),
{
    if fields.len() == 0 {
        None
    } else if fields[0].0@ == key {
        Some(0)
    } else {
        match member_index(fields.drop_first(), key) {
            Some(i) => Some(i + 1),
            None => None,
        }
    }
}

/// The member `key` of an object; nothing for any other value.
pub open spec fn json_get(v: JsonValue, key: Seq<char>) -> Option<JsonValue> {
    match v {
        JsonValue::Object(fields) => match member_index(fields@, key) {
            Some(i) => Some(fields@[i].1),
            None => None,
        },
        _ => None,
    }
}

/// The text of a string value.
pub open spec fn json_text(v: Option<JsonValue>) -> Option<Seq<char>> {
    match v {
        Some(JsonValue::Text(s)) => Some(s@),
        _ => None,
    }
}

/// The value of a number that is a signed 64-bit integer.
pub open spec fn json_i64(v: Option<JsonValue>) -> Option<i64> {
    match v {
        Some(JsonValue::Number(n)) => n,
        _ => None,
    }
}

/// The elements of an array.
pub open spec fn json_items(v: Option<JsonValue>) -> Option<Seq<JsonValue>> {
    match v {
        Some(JsonValue::Array(items)) => Some(items@),
        _ => None,
    }
}

proof fn lemma_member_index_bounds(fields: Seq<(String, JsonValue)>, key: Seq<char>)
    ensures
        member_index(fields, key) matches Some(i) ==> 0 <= i < fields.len() && fields[i].0@ == key
            && forall|j: int| 0 <= j < i ==> fields[j].0@ != key,
        member_index(fields, key) is None ==> forall|j: int|
            0 <= j < fields.len() ==> fields[j].0@ != key,
    decreases fields.len(),
{
    if fields.len() > 0 {
        lemma_member_index_bounds(fields.drop_first(), key);
        assert forall|j: int| 1 <= j < fields.len() implies fields[j] == fields.drop_first()[j
            - 1] by {}
    }
}

impl JsonValue {
    /// The member `key` of an object (what `serde_json::Value::get` gives for a
    /// string key); nothing when the value is not an object.
    pub fn get<'a>(&'a self, key: &str) -> (r: Option<&'a JsonValue>)
        ensures
            match r {
                Some(x) => json_get(*self, key@) == Some(*x),
                None => json_get(*self, key@) is None,
            },
    {
        match self {
            JsonValue::Object(fields) => {
                let mut i: usize = 0;
                proof {
                    lemma_member_index_bounds(fields@, key@);
                }
                while i < fields.len()
                    invariant
                        *self == JsonValue::Object(*fields),
                        i <= fields.len(),
                        forall|j: int| 0 <= j < i ==> fields@[j].0@ != key@,
                        member_index(fields@, key@) matches Some(m) ==> 0 <= m < fields@.len()
                            && fields@[m].0@ == key@ && forall|j: int|
                            0 <= j < m ==> fields@[j].0@ != key@,
                        member_index(fields@, key@) is None ==> forall|j: int|
                            0 <= j < fields@.len() ==> fields@[j].0@ != key@,
                    decreases fields.len() - i,
                {
                    let name = String::from_str(key);
                    if fields[i].0 == name {
                        proof {
                            assert(fields@[i as int].0@ == key@);
                            assert(member_index(fields@, key@) == Some(i as int));
                        }
                        return Some(&fields[i].1);
                    }
                    i = i + 1;
                }
                None
            },
            _ => None,
        }
    }

    /// The text of a string value (what `serde_json::Value::as_str` gives).
    pub fn as_text(&self) -> (r: Option<&String>)
        ensures
            match r {
                Some(s) => json_text(Some(*self)) == Some(s@),
                None => json_text(Some(*self)) is None,
            },
    {
        match self {
            JsonValue::Text(s) => Some(s),
            _ => None,
        }
    }

    /// The value of a number that is a signed 64-bit integer (what
    /// `serde_json::Value::as_i64` gives).
    pub fn as_i64(&self) -> (r: Option<i64>)
        ensures
            r == json_i64(Some(*self)),
    {
        match self {
            JsonValue::Number(n) => *n,
            _ => None,
        }
    }

    /// The elements of an array (what `serde_json::Value::as_array` gives).
    pub fn as_array(&self) -> (r: Option<&Vec<JsonValue>>)
        ensures
            match r {
                Some(items) => json_items(Some(*self)) == Some(items@),
                None => json_items(Some(*self)) is None,
            },
    {
        match self {
            JsonValue::Array(items) => Some(items),
            _ => None,
        }
    }
}

/// `serde_json::Value`, a parsed JSON document, carried as it is.
#[verifier::external_type_specification]
#[verifier::external_body]
pub struct ExValue(serde_json::Value);

/// The document that `serde_json::from_str::<serde_json::Value>` parses from a
/// text, moved into a `JsonValue`; nothing when the text is not JSON.
pub uninterp spec fn parsed_document(text: Seq<char>) -> Option<JsonValue>;

/// Moves a `serde_json::Value` into a `JsonValue`, variant for variant; a
/// number keeps what `serde_json::Number::as_i64` gives.
#[verifier::external_body]
fn document_from_value(v: serde_json::Value) -> JsonValue {
    match v {
        serde_json::Value::Null => JsonValue::Null,
        serde_json::Value::Bool(b) => JsonValue::Bool(b),
        serde_json::Value::Number(n) => JsonValue::Number(n.as_i64()),
        serde_json::Value::String(t) => JsonValue::Text(t),
        serde_json::Value::Array(a) => JsonValue::Array(a.into_iter().map(document_from_value).collect()),
        serde_json::Value::Object(m) => JsonValue::Object(m.into_iter().map(|(k, x)| (k, document_from_value(x))).collect()),
    }
}

/// Parses a text as a JSON document (`serde_json::from_str::<serde_json::Value>`):
/// the document, or nothing when the text is not JSON.
#[verifier::external_body]
pub(crate) fn parse_json(text: &str) -> (r: Option<JsonValue>)
    ensures
        r == parsed_document(text@),
{
    match serde_json::from_str::<serde_json::Value>(text) {
        Ok(v) => Some(document_from_value(v)),
        Err(_) => None,
    }
}

} // verus!
