//! Ingestion: projecting a parsed upstream body into records.
//!
//! The network request itself lives outside the core; this module receives
//! the body text (or the transport failure) and performs everything after:
//! parsing, `hits` extraction, and the five-field projection.

use vstd::prelude::*;
use crate::errors::ApiError;
use crate::json::{JsonVal, parse_json, parsed_json, spec_obj_get, obj_get};
use crate::record::{Record, opt_text_view};

verus! {

/// The elements of the body's `hits` array; a missing or non-array `hits`
/// member — or a body that is no object — counts as an empty array, not
/// an error.
pub open spec fn spec_hits(v: JsonVal) -> Seq<JsonVal> {
    match v {
        JsonVal::Obj(es) => match spec_obj_get(es@, "hits"@) {
            Some(h) => match h {
                JsonVal::Arr(a) => a@,
                _ => Seq::empty(),
            },
            None => Seq::empty(),
        },
        _ => Seq::empty(),
    }
}

/// The text under field `k` of a hit: present exactly when the hit is an
/// object whose first member named `k` holds a JSON string.
pub open spec fn spec_field_text(h: JsonVal, k: Seq<char>) -> Option<Seq<char>> {
    match h {
        JsonVal::Obj(es) => match spec_obj_get(es@, k) {
            Some(v) => match v {
                JsonVal::Text(s) => Some(s@),
                _ => None,
            },
            None => None,
        },
        _ => None,
    }
}

/// Whether a record is the five-field projection of a hit.
pub open spec fn record_matches_hit(r: Record, h: JsonVal) -> bool {
    &&& opt_text_view(r.country) == spec_field_text(h, "country"@)
    &&& opt_text_view(r.category) == spec_field_text(h, "category"@)
    &&& opt_text_view(r.currency) == spec_field_text(h, "currency"@)
    &&& opt_text_view(r.name) == spec_field_text(h, "name"@)
    &&& opt_text_view(r.kind) == spec_field_text(h, "type"@)
}

/// Whether `out` is the ordered projection of the body's hits.
pub open spec fn ingest_post(v: JsonVal, out: Seq<Record>) -> bool {
    &&& out.len() == spec_hits(v).len()
    &&& forall|i: int| 0 <= i < out.len() ==> record_matches_hit(#[trigger] out[i], spec_hits(v)[i])
}

/// The text under field `key` of a hit, if it holds a JSON string.
fn field_text(h: &JsonVal, key: &String) -> (r: Option<String>)
    ensures
        opt_text_view(r) == spec_field_text(*h, key@),
{
    match h {
        JsonVal::Obj(es) => match obj_get(es, key) {
            Some(v) => match v {
                JsonVal::Text(s) => Some(s.clone()),
                _ => None,
            },
            None => None,
        },
        _ => None,
    }
}

/// Projects one hit into a record: the five named fields are copied where
/// they hold text, and every other shape becomes an absent field.
pub fn record_of_hit(h: &JsonVal) -> (r: Record)
    ensures
        record_matches_hit(r, *h),
{
    Record {
        country: field_text(h, &"country".to_owned()),
        category: field_text(h, &"category".to_owned()),
        currency: field_text(h, &"currency".to_owned()),
        name: field_text(h, &"name".to_owned()),
        kind: field_text(h, &"type".to_owned()),
    }
}

/// Projects a parsed body into records, one per hit, in input order.
pub fn records_of_json(v: &JsonVal) -> (out: Vec<Record>)
    ensures
        ingest_post(*v, out@),
{
    let mut out: Vec<Record> = Vec::new();
    match v {
        JsonVal::Obj(es) => {
            match obj_get(es, &"hits".to_owned()) {
                Some(h) => match h {
                    JsonVal::Arr(a) => {
                        proof {
                            assert(spec_hits(*v) == a@);
                        }
                        let n = a.len();
                        for i in 0..n
                            invariant
                                n == a.len(),
                                spec_hits(*v) == a@,
                                out@.len() == i,
                                forall|j: int|
                                    0 <= j < i ==> record_matches_hit(
                                        #[trigger] out@[j],
                                        a@[j],
                                    ),
                        {
                            out.push(record_of_hit(&a[i]));
                        }
                    },
                    _ => {},
                },
                None => {},
            }
        },
        _ => {},
    }
    out
}

/// Ingests a fetched body: parses it as JSON and projects each element of
/// its `hits` array into a record, preserving input order. Returns `Ok`
/// exactly when the body is valid JSON; a malformed body yields `Parse`
/// with the parser's message.
pub fn ingest_records(body: &str) -> (r: Result<Vec<Record>, ApiError>)
    ensures
        match r {
            Ok(rs) => parsed_json(body@) is Some && ingest_post(parsed_json(body@).unwrap(), rs@),
            Err(e) => e is Parse && parsed_json(body@) is None,
        },
{
    match parse_json(body) {
        Ok(v) => Ok(records_of_json(&v)),
        Err(m) => Err(ApiError::Parse(m)),
    }
}

} // verus!
