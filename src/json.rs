use vstd::prelude::*;

verus! {

/// A JSON document, as the probe prints it.
#[derive(Debug)]
pub enum Json {
    Null,
    Bool(bool),
    /// A number, in the decimal text that denotes it.
    Number(String),
    Str(String),
    Array(Vec<Json>),
    /// The members of an object, each key once.
    Object(Vec<(String, Json)>),
}

/// The value of the first member of `entries` named `key`.
pub open spec fn member(entries: Seq<(String, Json)>, key: Seq<char>) -> Option<Json>
    decreases entries.len(),
{
    if entries.len() == 0 {
        None
    } else if entries[0].0@ == key {
        Some(entries[0].1)
    } else {
        member(entries.drop_first(), key)
    }
}

/// The member `key` of `v`, when `v` is an object that has one.
pub open spec fn field(v: Json, key: Seq<char>) -> Option<Json> {
    match v {
        Json::Object(entries) => member(entries@, key),
        _ => None,
    }
}

/// The first element of `v`, when `v` is a non-empty array.
pub open spec fn first_element(v: Json) -> Option<Json> {
    match v {
        Json::Array(items) => if items@.len() > 0 {
            Some(items@[0])
        } else {
            None
        },
        _ => None,
    }
}

pub open spec fn is_object(v: Json) -> bool {
    v is Object
}

/// The characters of `v`, when `v` is a string.
pub open spec fn text(v: Json) -> Option<Seq<char>> {
    match v {
        Json::Str(s) => Some(s@),
        _ => None,
    }
}

/// The member `key` of `v`, when it is a string.
pub open spec fn text_field(v: Json, key: Seq<char>) -> Option<Seq<char>> {
    match field(v, key) {
        Some(x) => text(x),
        None => None,
    }
}

/// The document that serde_json reads from `bytes`, when they hold one.
pub uninterp spec fn parsed_json(bytes: Seq<u8>) -> Option<Json>;

/// The document could not be read as JSON.
#[derive(Debug, Clone, Copy, PartialEq, Eq, Structural)]
pub struct JsonError;

#[verifier::external_type_specification]
#[verifier::external_body]
pub struct ExJsonValue(serde_json::Value);

#[verifier::external_type_specification]
#[verifier::external_body]
pub struct ExJsonError(serde_json::Error);

/// Relies on serde_json::from_slice: it reads a JSON document from bytes,
/// and fails when they hold none; what it reads depends on the bytes alone.
#[verifier::external_body]
fn read_json(bytes: &[u8]) -> (r: Result<Json, serde_json::Error>)
    ensures
        r is Ok <==> parsed_json(bytes@) is Some,
        r is Ok ==> parsed_json(bytes@) == Some(r->Ok_0),
{
    serde_json::from_slice::<serde_json::Value>(bytes).map(json_from_value)
}

/// Relies on serde_json::Value's variants, on serde_json::Map::into_iter
/// (each key once) and on serde_json::Number's decimal text: each value is
/// moved into the matching variant of `Json`.
#[verifier::external_body]
fn json_from_value(v: serde_json::Value) -> Json {
    match v {
        serde_json::Value::Null => Json::Null,
        serde_json::Value::Bool(b) => Json::Bool(b),
        serde_json::Value::Number(n) => Json::Number(n.to_string()),
        serde_json::Value::String(s) => Json::Str(s),
        serde_json::Value::Array(a) => Json::Array(a.into_iter().map(json_from_value).collect()),
        serde_json::Value::Object(m) => Json::Object(
            m.into_iter().map(|(k, x)| (k, json_from_value(x))).collect(),
        ),
    }
}

/// Reads a JSON document from bytes.
pub fn parse_json(bytes: &[u8]) -> (r: Result<Json, JsonError>)
    ensures
        r is Err <==> parsed_json(bytes@) is None,
        r is Ok ==> parsed_json(bytes@) == Some(r->Ok_0),
{
    match read_json(bytes) {
        Ok(v) => Ok(v),
        Err(_) => Err(JsonError),
    }
}

proof fn lemma_member_skip(entries: Seq<(String, Json)>, key: Seq<char>, i: int)
    requires
        0 <= i <= entries.len(),
        forall|j: int| 0 <= j < i ==> entries[j].0@ != key,
    ensures
        member(entries, key) == member(entries.subrange(i, entries.len() as int), key),
    decreases i,
{
    if i > 0 {
        lemma_member_skip(entries.drop_first(), key, i - 1);
        assert(entries.drop_first().subrange(i - 1, entries.len() - 1) =~= entries.subrange(
            i,
            entries.len() as int,
        ));
    } else {
        assert(entries.subrange(0, entries.len() as int) =~= entries);
    }
}

impl Json {
    /// The member `key` of this value, when it is an object that has one.
    pub fn get(&self, key: &str) -> (r: Option<&Json>)
        ensures
            r matches Some(x) ==> field(*self, key@) == Some(*x),
            r is None ==> field(*self, key@) is None,
    {
        match self {
            Json::Object(entries) => {
                let n = entries.len();
                let mut i: usize = 0;
                while i < n
                    invariant
                        n == entries@.len(),
                        i <= n,
                        field(*self, key@) == member(entries@, key@),
                        forall|j: int| 0 <= j < i ==> entries@[j].0@ != key@,
                    decreases n - i,
                {
                    if crate::metadata::str_equals(entries[i].0.as_str(), key) {
                        proof {
                            lemma_member_skip(entries@, key@, i as int);
                            let rest = entries@.subrange(i as int, n as int);
                            assert(rest[0] == entries@[i as int]);
                        }
                        return Some(&entries[i].1);
                    }
                    i = i + 1;
                }
                proof {
                    lemma_member_skip(entries@, key@, n as int);
                }
                None
            },
            _ => None,
        }
    }

    /// The characters of this value, when it is a string.
    pub fn as_str(&self) -> (r: Option<&str>)
        ensures
            r matches Some(s) ==> text(*self) == Some(s@),
            r is None ==> text(*self) is None,
    {
        match self {
            Json::Str(s) => Some(s.as_str()),
            _ => None,
        }
    }

    /// The first element of this value, when it is a non-empty array.
    pub fn first(&self) -> (r: Option<&Json>)
        ensures
            r matches Some(x) ==> first_element(*self) == Some(*x),
            r is None ==> first_element(*self) is None,
    {
        match self {
            Json::Array(items) => if items.len() > 0 {
                Some(&items[0])
            } else {
                None
            },
            _ => None,
        }
    }

    /// Whether this value is an object.
    pub fn is_object(&self) -> (r: bool)
        ensures
            r == is_object(*self),
    {
        match self {
            Json::Object(_) => true,
            _ => false,
        }
    }
}

} // verus!
