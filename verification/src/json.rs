//! JSON values, as the notes and their stored payloads are written in.
use vstd::prelude::*;

verus! {

/// A JSON value. Numbers are kept as their text; an object keeps its
/// members in order.
pub enum JsonValue {
    Null,
    Bool(bool),
    Number(String),
    Str(String),
    Array(Vec<JsonValue>),
    Object(Vec<(String, JsonValue)>),
}

/// serde_json's JSON tree, carried as it is.
#[verifier::external_type_specification]
#[verifier::external_body]
pub struct ExJsonTree(serde_json::Value);

/// The JSON value that serde_json's `from_slice` reads from `bytes`, as a
/// `JsonValue` (an object's members in the order of serde_json's map), or
/// `None` where the bytes are not a JSON text that serde_json accepts.
pub uninterp spec fn json_parsed(bytes: Seq<u8>) -> Option<JsonValue>;

/// Writes a serde_json tree as a `JsonValue`, variant for variant: a
/// number as its text, an object's members in the map's order. Nothing is
/// claimed of the result here; `parse_json` states what it is.
#[verifier::external_body]
fn json_tree(v: &serde_json::Value) -> JsonValue {
    match v {
        serde_json::Value::Null => JsonValue::Null,
        serde_json::Value::Bool(b) => JsonValue::Bool(*b),
        serde_json::Value::Number(n) => JsonValue::Number(n.to_string()),
        serde_json::Value::String(s) => JsonValue::Str(s.clone()),
        serde_json::Value::Array(a) => JsonValue::Array(a.iter().map(json_tree).collect()),
        serde_json::Value::Object(m) => JsonValue::Object(m.iter().map(|(k, x)| (k.clone(), json_tree(x))).collect()),
    }
}

/// Calls serde_json's `from_slice` into a `serde_json::Value` and writes the
/// tree as a `JsonValue`. Claims: the result is `json_parsed` of the bytes,
/// failing exactly where `json_parsed` has no value (serde_json is
/// deterministic in its input).
#[verifier::external_body]
pub(crate) fn parse_json(bytes: &[u8]) -> (r: Result<JsonValue, serde_json::Error>)
    ensures
        match r {
            Ok(v) => json_parsed(bytes@) == Some(v),
            Err(_) => json_parsed(bytes@) is None,
        },
{
    match serde_json::from_slice::<serde_json::Value>(bytes) {
        Ok(v) => Ok(json_tree(&v)),
        Err(e) => Err(e),
    }
}

/// The value of the first member of `fields` named `key`.
pub open spec fn first_member(fields: Seq<(String, JsonValue)>, key: Seq<char>) -> Option<JsonValue>
    decreases fields.len(),
{
    if fields.len() == 0 {
        None
    } else if fields[0].0@ == key {
        Some(fields[0].1)
    } else {
        first_member(fields.drop_first(), key)
    }
}

/// The member `key` of an object; nothing for other values.
pub open spec fn json_get(j: JsonValue, key: Seq<char>) -> Option<JsonValue> {
    match j {
        JsonValue::Object(fields) => first_member(fields@, key),
        _ => None,
    }
}

/// The text of the member `key`, where it is a string.
pub open spec fn json_str(j: JsonValue, key: Seq<char>) -> Option<Seq<char>> {
    match json_get(j, key) {
        Some(JsonValue::Str(s)) => Some(s@),
        _ => None,
    }
}

/// The member `key`, where it is a boolean.
pub open spec fn json_bool(j: JsonValue, key: Seq<char>) -> Option<bool> {
    match json_get(j, key) {
        Some(JsonValue::Bool(b)) => Some(b),
        _ => None,
    }
}

impl JsonValue {
    /// The member `key` of an object, as `serde_json::Value::get` finds it.
    pub fn get(&self, key: &str) -> (r: Option<&JsonValue>)
        ensures
            match r {
                Some(v) => json_get(*self, key@) == Some(*v),
                None => json_get(*self, key@) is None,
            },
    {
        match self {
            JsonValue::Object(fields) => {
                let mut i: usize = 0;
                assert(fields@.skip(0) =~= fields@);
                while i < fields.len()
                    invariant
                        i <= fields.len(),
                        first_member(fields@, key@) == first_member(fields@.skip(i as int), key@),
                        json_get(*self, key@) == first_member(fields@, key@),
                    decreases fields.len() - i,
                {
                    assert(fields@.skip(i as int)[0] == fields@[i as int]);
                    assert(fields@.skip(i as int).drop_first() =~= fields@.skip(i + 1));
                    let same = fields[i].0.as_str().to_owned() == key.to_owned();
                    assert(same == (fields@[i as int].0@ == key@));
                    if same {
                        assert(fields@.skip(i as int).len() > 0);
                        assert(first_member(fields@.skip(i as int), key@) == Some(fields@[i as int].1));
                        return Some(&fields[i].1);
                    }
                    i += 1;
                }
                None
            },
            _ => None,
        }
    }

    /// The text of this value, where it is a string.
    pub fn as_str(&self) -> (r: Option<&String>)
        ensures
            match *self {
                JsonValue::Str(s) => r == Some(&s),
                _ => r is None,
            },
    {
        match self {
            JsonValue::Str(s) => Some(s),
            _ => None,
        }
    }

    /// This value, where it is a boolean.
    pub fn as_bool(&self) -> (r: Option<bool>)
        ensures
            match *self {
                JsonValue::Bool(b) => r == Some(b),
                _ => r is None,
            },
    {
        match self {
            JsonValue::Bool(b) => Some(*b),
            _ => None,
        }
    }

    /// The text of the member `key`, where it is a string.
    pub fn str_member(&self, key: &str) -> (r: Option<String>)
        ensures
            match r {
                Some(s) => json_str(*self, key@) == Some(s@),
                None => json_str(*self, key@) is None,
            },
    {
        match self.get(key) {
            Some(v) => match v.as_str() {
                Some(s) => Some(s.clone()),
                None => None,
            },
            None => None,
        }
    }

    /// The member `key`, where it is a boolean.
    pub fn bool_member(&self, key: &str) -> (r: Option<bool>)
        ensures
            r == json_bool(*self, key@),
    {
        match self.get(key) {
            Some(v) => v.as_bool(),
            None => None,
        }
    }
}

/// The first member named `key` of `f` is the one at `i`, where no member
/// before it has that name.
pub(crate) proof fn lemma_member_at(f: Seq<(String, JsonValue)>, i: int, key: Seq<char>)
    requires
        0 <= i < f.len(),
        f[i].0@ == key,
        forall|k: int| 0 <= k < i ==> f[k].0@ != key,
    ensures
        first_member(f, key) == Some(f[i].1),
    decreases i,
{
    if i > 0 {
        let d = f.drop_first();
        assert forall|k: int| 0 <= k < i - 1 implies d[k].0@ != key by {
            assert(d[k] == f[k + 1]);
        }
        lemma_member_at(d, i - 1, key);
        assert(f[0].0@ != key);
    }
}

} // verus!
