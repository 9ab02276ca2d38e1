//! The row shape produced by ingestion and consumed by the query engine.

use vstd::prelude::*;

verus! {

/// One ingested entity: the five fields retained from an upstream hit,
/// each an optional text value. A field whose upstream value is missing,
/// null, or not a JSON string is recorded as `None`.
pub struct Record {
    pub country: Option<String>,
    pub category: Option<String>,
    pub currency: Option<String>,
    pub name: Option<String>,
    /// The upstream field is named `type`.
    pub kind: Option<String>,
}

/// The text of an optional field, as a sequence of characters.
pub open spec fn opt_text_view(o: Option<String>) -> Option<Seq<char>> {
    match o {
        Some(s) => Some(s@),
        None => None,
    }
}

/// The `category` field of a record, as text.
pub open spec fn category_of(r: Record) -> Option<Seq<char>> {
    opt_text_view(r.category)
}

/// The `name` field of a record, as text.
pub open spec fn name_of(r: Record) -> Option<Seq<char>> {
    opt_text_view(r.name)
}

/// A copy of an optional text field that denotes the same value.
pub fn clone_opt_text(o: &Option<String>) -> (r: Option<String>)
    ensures
        r == *o,
{
    match o {
        Some(s) => Some(s.clone()),
        None => None,
    }
}

impl Clone for Record {
    fn clone(&self) -> (r: Self)
        ensures
            r == *self,
    {
        Record {
            country: clone_opt_text(&self.country),
            category: clone_opt_text(&self.category),
            currency: clone_opt_text(&self.currency),
            name: clone_opt_text(&self.name),
            kind: clone_opt_text(&self.kind),
        }
    }
}

/// Whether an optional text field holds exactly the given text.
pub fn opt_text_is(o: &Option<String>, t: &String) -> (b: bool)
    ensures
        b == (opt_text_view(*o) == Some(t@)),
{
    match o {
        Some(s) => *s == *t,
        None => false,
    }
}

} // verus!
