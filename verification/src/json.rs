//! A plain model of a parsed JSON document, and the trusted parser call.
//!
//! The upstream body is generic JSON; the core reads only a little of it
//! (an object's `hits` array, and text-valued fields of each element), but
//! the parsed tree itself is modelled in full as a plain datatype so that
//! the projection logic can be verified over it.

use vstd::prelude::*;

verus! {

/// A parsed JSON value as plain data. A number is kept as its decimal
/// rendering; object members are kept in document order.
pub enum JsonVal {
    Null,
    Bool(bool),
    Num(String),
    Text(String),
    Arr(Vec<JsonVal>),
    Obj(Vec<(String, JsonVal)>),
}

#[verifier::external_type_specification]
#[verifier::external_body]
pub struct ExJsonValue(serde_json::Value);

/// The value a well-formed JSON text denotes, or `None` where the text is
/// not valid JSON. What a given text parses to depends on the text alone.
pub uninterp spec fn parsed_json(s: Seq<char>) -> Option<JsonVal>;

/// Relies on serde_json::Value being a public enum whose variants carry the
/// document's values; this translates each variant into the plain model,
/// rendering numbers with serde_json's own decimal formatter.
#[verifier::external_body]
fn json_val_of(v: &serde_json::Value) -> JsonVal {
    match v {
        serde_json::Value::Null => JsonVal::Null,
        serde_json::Value::Bool(b) => JsonVal::Bool(*b),
        serde_json::Value::Number(n) => JsonVal::Num(n.to_string()),
        serde_json::Value::String(s) => JsonVal::Text(s.clone()),
        serde_json::Value::Array(a) => JsonVal::Arr(a.iter().map(json_val_of).collect()),
        serde_json::Value::Object(m) => JsonVal::Obj(
            m.iter().map(|(k, x)| (k.clone(), json_val_of(x))).collect(),
        ),
    }
}

/// Relies on serde_json::from_str: parses the text as generic JSON, which
/// succeeds exactly on valid JSON and yields a value determined by the text
/// alone (named `parsed_json`); the error text is the parser's message.
#[verifier::external_body]
pub(crate) fn parse_json(s: &str) -> (r: Result<JsonVal, String>)
    ensures
        match r {
            Ok(v) => parsed_json(s@) == Some(v),
            Err(_) => parsed_json(s@) is None,
        },
{
    match serde_json::from_str::<serde_json::Value>(s) {
        Ok(v) => Ok(json_val_of(&v)),
        Err(e) => Err(format!("JSON parse error: {}", e)),
    }
}

/// The value under the first member named `k`, if any.
pub open spec fn spec_obj_get(es: Seq<(String, JsonVal)>, k: Seq<char>) -> Option<JsonVal>
    decreases es.len(),
{
    if es.len() == 0 {
        None
    } else if es[0].0@ == k {
        Some(es[0].1)
    } else {
        spec_obj_get(es.drop_first(), k)
    }
}

/// Looks a member up by name, first match wins.
pub fn obj_get<'a>(es: &'a Vec<(String, JsonVal)>, key: &String) -> (r: Option<&'a JsonVal>)
    ensures
        match r {
            Some(v) => spec_obj_get(es@, key@) == Some(*v),
            None => spec_obj_get(es@, key@) is None,
        },
{
    let n = es.len();
    proof {
        assert(es@.skip(0) =~= es@);
    }
    for i in 0..n
        invariant
            n == es.len(),
            spec_obj_get(es@, key@) == spec_obj_get(es@.skip(i as int), key@),
            forall|k: int| 0 <= k < i ==> (#[trigger] es@[k]).0@ != key@,
    {
        let ghost rest = es@.skip(i as int);
        proof {
            assert(rest.len() > 0);
            assert(rest[0] == es@[i as int]);
            assert(rest.drop_first() =~= es@.skip(i + 1 as int));
        }
        if es[i].0 == *key {
            return Some(&es[i].1);
        }
    }
    proof {
        assert(es@.skip(n as int) =~= Seq::<(String, JsonVal)>::empty());
    }
    None
}

} // verus!
