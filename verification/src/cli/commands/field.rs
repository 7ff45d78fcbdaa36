//! `field list` and `field resolve`: what they print.

use vstd::prelude::*;
use crate::api::field::FieldMeta;
use crate::json::{entries_view, Json, JsonV};

verus! {

pub open spec fn opt_json(o: Option<Json>) -> JsonV {
    match o {
        Some(j) => j@,
        None => JsonV::Null,
    }
}

pub open spec fn str_array(v: Seq<String>) -> JsonV {
    JsonV::Array(v.map_values(|s: String| JsonV::Str(s@)))
}

fn opt_copy(o: &Option<Json>) -> (r: Json)
    ensures
        r@ == opt_json(*o),
{
    match o {
        Some(j) => j.deep_copy(),
        None => Json::Null,
    }
}

/// One line of `field list`: id, name, custom, schema and clause names.
pub fn field_line(m: &FieldMeta) -> (r: Json)
    ensures
        r@ == JsonV::Object(seq![
            ("id"@, JsonV::Str(m.id@)),
            ("name"@, JsonV::Str(m.name@)),
            ("custom"@, JsonV::Bool(m.custom)),
            ("schema"@, opt_json(m.schema)),
            ("clauseNames"@, str_array(m.clause_names@)),
        ]),
{
    let mut e: Vec<(String, Json)> = Vec::new();
    e.push(("id".to_owned(), Json::Str(m.id.clone())));
    e.push(("name".to_owned(), Json::Str(m.name.clone())));
    e.push(("custom".to_owned(), Json::Bool(m.custom)));
    e.push(("schema".to_owned(), opt_copy(&m.schema)));
    e.push(("clauseNames".to_owned(), Json::string_array(&m.clause_names)));
    proof {
        assert(entries_view(e@) =~= seq![
            ("id"@, JsonV::Str(m.id@)),
            ("name"@, JsonV::Str(m.name@)),
            ("custom"@, JsonV::Bool(m.custom)),
            ("schema"@, opt_json(m.schema)),
            ("clauseNames"@, str_array(m.clause_names@)),
        ]);
    }
    Json::object(e)
}

pub open spec fn meta_json(m: FieldMeta) -> JsonV {
    JsonV::Object(seq![
        ("custom"@, JsonV::Bool(m.custom)),
        ("schema"@, opt_json(m.schema)),
        ("clauseNames"@, str_array(m.clause_names@)),
    ])
}

/// What `field resolve` prints: the id, the name asked for, and the field's
/// metadata (null when the id is not in the field list).
pub fn resolve_line(id: &str, name: &str, meta: Option<&FieldMeta>) -> (r: Json)
    ensures
        r@ == JsonV::Object(seq![
            ("id"@, JsonV::Str(id@)),
            ("name"@, JsonV::Str(name@)),
            ("meta"@, match meta { Some(m) => meta_json(*m), None => JsonV::Null }),
        ]),
{
    let mj = match meta {
        Some(m) => {
            let mut e: Vec<(String, Json)> = Vec::new();
            e.push(("custom".to_owned(), Json::Bool(m.custom)));
            e.push(("schema".to_owned(), opt_copy(&m.schema)));
            e.push(("clauseNames".to_owned(), Json::string_array(&m.clause_names)));
            proof {
                assert(entries_view(e@) =~= meta_json(*m)->Object_0);
            }
            Json::object(e)
        },
        None => Json::Null,
    };
    let mut e: Vec<(String, Json)> = Vec::new();
    e.push(("id".to_owned(), Json::string(id)));
    e.push(("name".to_owned(), Json::string(name)));
    e.push(("meta".to_owned(), mj));
    proof {
        assert(entries_view(e@) =~= seq![
            ("id"@, JsonV::Str(id@)),
            ("name"@, JsonV::Str(name@)),
            ("meta"@, match meta { Some(m) => meta_json(*m), None => JsonV::Null }),
        ]);
    }
    Json::object(e)
}

} // verus!
