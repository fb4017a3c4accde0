//! A plain model of a parsed JSON document, together with the fallible
//! navigation steps the crawler performs on it. Documents are produced by
//! `parse_document`, which leans on serde_json; everything that reads a
//! document afterwards is verified against the spec functions here.

use vstd::prelude::*;

verus! {

/// A parsed JSON value. Numbers carry no payload: the crawler only ever
/// reads strings, arrays and objects, and parses numerals out of string
/// fields itself.
pub enum JsonVal {
    Null,
    Bool(bool),
    Num,
    Str(String),
    Arr(Vec<JsonVal>),
    Obj(Vec<(String, JsonVal)>),
}

/// The first binding of key `k` among `fields`, if any.
pub open spec fn lookup_fields(fields: Seq<(String, JsonVal)>, k: Seq<char>) -> Option<JsonVal>
    decreases fields.len(),
{
    if fields.len() == 0 {
        None
    } else if fields[0].0@ == k {
        Some(fields[0].1)
    } else {
        lookup_fields(fields.drop_first(), k)
    }
}

/// Key access: defined on objects, absent everywhere else.
pub open spec fn get_key(v: JsonVal, k: Seq<char>) -> Option<JsonVal> {
    match v {
        JsonVal::Obj(fields) => lookup_fields(fields@, k),
        _ => None,
    }
}

/// Index access: defined on arrays, absent everywhere else.
pub open spec fn get_idx(v: JsonVal, i: int) -> Option<JsonVal> {
    match v {
        JsonVal::Arr(items) => if 0 <= i && i < items@.len() {
            Some(items@[i])
        } else {
            None
        },
        _ => None,
    }
}

/// Key access lifted to an optional value, so navigation steps compose.
pub open spec fn get_opt(o: Option<JsonVal>, k: Seq<char>) -> Option<JsonVal> {
    match o {
        Some(v) => get_key(v, k),
        None => None,
    }
}

/// Index access lifted to an optional value.
pub open spec fn idx_opt(o: Option<JsonVal>, i: int) -> Option<JsonVal> {
    match o {
        Some(v) => get_idx(v, i),
        None => None,
    }
}

/// The character content of an optional value, when it is a string.
pub open spec fn str_opt(o: Option<JsonVal>) -> Option<Seq<char>> {
    match o {
        Some(JsonVal::Str(s)) => Some(s@),
        _ => None,
    }
}

/// The elements of an optional value, when it is an array.
pub open spec fn arr_opt(o: Option<JsonVal>) -> Option<Seq<JsonVal>> {
    match o {
        Some(JsonVal::Arr(items)) => Some(items@),
        _ => None,
    }
}

/// Forgets the reference layer of an optional borrowed value.
pub open spec fn deref_opt(o: Option<&JsonVal>) -> Option<JsonVal> {
    match o {
        Some(v) => Some(*v),
        None => None,
    }
}

proof fn lemma_lookup_skip(fields: Seq<(String, JsonVal)>, k: Seq<char>, i: int)
    requires
        0 <= i <= fields.len(),
        forall|j: int| 0 <= j < i ==> #[trigger] fields[j].0@ != k,
    ensures
        lookup_fields(fields, k) == lookup_fields(fields.skip(i), k),
    decreases i,
{
    if i > 0 {
        lemma_lookup_skip(fields, k, i - 1);
        assert(fields.skip(i - 1).drop_first() =~= fields.skip(i));
        assert(fields.skip(i - 1)[0] == fields[i - 1]);
    } else {
        assert(fields.skip(0) =~= fields);
    }
}

impl JsonVal {
    /// The value under key `k`, if this value is an object that binds `k`.
    pub fn get<'a>(&'a self, k: &str) -> (r: Option<&'a JsonVal>)
        ensures
            deref_opt(r) == get_key(*self, k@),
    {
        match self {
            JsonVal::Obj(fields) => {
                let key: String = k.to_owned();
                let n = fields.len();
                for i in 0..n
                    invariant
                        *self == JsonVal::Obj(*fields),
                        n == fields@.len(),
                        key@ == k@,
                        forall|j: int| 0 <= j < i ==> #[trigger] fields@[j].0@ != k@,
                {
                    if fields[i].0 == key {
                        proof {
                            lemma_lookup_skip(fields@, k@, i as int);
                            assert(fields@[i as int].0@ == k@);
                            assert(fields@.skip(i as int).len() > 0);
                            assert(fields@.skip(i as int)[0] == fields@[i as int]);
                            assert(lookup_fields(fields@.skip(i as int), k@)
                                == Some(fields@.skip(i as int)[0].1));
                        }
                        return Some(&fields[i].1);
                    }
                }
                proof {
                    lemma_lookup_skip(fields@, k@, n as int);
                    assert(fields@.skip(n as int) =~= Seq::<(String, JsonVal)>::empty());
                }
                None
            },
            _ => None,
        }
    }

    /// The element at index `i`, if this value is an array long enough.
    pub fn at<'a>(&'a self, i: usize) -> (r: Option<&'a JsonVal>)
        ensures
            deref_opt(r) == get_idx(*self, i as int),
    {
        match self {
            JsonVal::Arr(items) => {
                if i < items.len() {
                    Some(&items[i])
                } else {
                    None
                }
            },
            _ => None,
        }
    }
}

/// One key-access step on an optional value.
pub fn getp<'a>(o: Option<&'a JsonVal>, k: &str) -> (r: Option<&'a JsonVal>)
    ensures
        deref_opt(r) == get_opt(deref_opt(o), k@),
{
    match o {
        Some(v) => v.get(k),
        None => None,
    }
}

/// One index-access step on an optional value.
pub fn idxp<'a>(o: Option<&'a JsonVal>, i: usize) -> (r: Option<&'a JsonVal>)
    ensures
        deref_opt(r) == idx_opt(deref_opt(o), i as int),
{
    match o {
        Some(v) => v.at(i),
        None => None,
    }
}

/// The string content of an optional value.
pub fn strp<'a>(o: Option<&'a JsonVal>) -> (r: Option<&'a String>)
    ensures
        match r {
            Some(s) => str_opt(deref_opt(o)) == Some(s@),
            None => str_opt(deref_opt(o)) is None,
        },
{
    match o {
        Some(JsonVal::Str(s)) => Some(s),
        _ => None,
    }
}

/// The elements of an optional value, when it is an array.
pub fn arrp<'a>(o: Option<&'a JsonVal>) -> (r: Option<&'a Vec<JsonVal>>)
    ensures
        match r {
            Some(items) => arr_opt(deref_opt(o)) == Some(items@),
            None => arr_opt(deref_opt(o)) is None,
        },
{
    match o {
        Some(JsonVal::Arr(items)) => Some(items),
        _ => None,
    }
}

/// What parsing a piece of text as JSON yields: a document for well-formed
/// JSON, nothing otherwise. serde_json's result is a function of the text
/// alone, so the document can be named without being written out.
pub uninterp spec fn json_of(s: Seq<char>) -> Option<JsonVal>;

#[verifier::external_type_specification]
#[verifier::external_body]
pub struct ExValue(serde_json::Value);

/// Relies on the shape of serde_json::Value: the six variants are copied
/// one for one into the library's model, numbers losing their payload.
#[verifier::external_body]
fn value_to_model(v: &serde_json::Value) -> JsonVal {
    match v {
        serde_json::Value::Null => JsonVal::Null,
        serde_json::Value::Bool(b) => JsonVal::Bool(*b),
        serde_json::Value::Number(_) => JsonVal::Num,
        serde_json::Value::String(s) => JsonVal::Str(s.clone()),
        serde_json::Value::Array(items) => JsonVal::Arr(items.iter().map(value_to_model).collect()),
        serde_json::Value::Object(fields) => JsonVal::Obj(
            fields.iter().map(|(k, x)| (k.clone(), value_to_model(x))).collect(),
        ),
    }
}

/// Relies on serde_json::from_str: it succeeds exactly on well-formed JSON
/// text and its result depends on that text alone.
#[verifier::external_body]
pub fn parse_document(s: &str) -> (r: Option<JsonVal>)
    ensures
        r == json_of(s@),
{
    serde_json::from_str::<serde_json::Value>(s).ok().map(|v| value_to_model(&v))
}

} // verus!
