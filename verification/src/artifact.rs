//! An artifact node: a file the driver produced. The engine only addresses
//! it; saving and deleting are requests like any other.

use vstd::prelude::*;

use crate::json::{json_field, obj_fields, JsonData, JsonValue};

verus! {

/// A handle on an artifact node.
pub struct Artifact {
    pub guid: String,
}

impl Artifact {
    /// A handle on an artifact node.
    pub fn new(guid: String) -> (r: Artifact)
        ensures
            r.guid == guid,
    {
        Artifact { guid }
    }
}

/// The parameters of `saveAs`: the path the artifact is copied to.
pub fn save_as_params(path: &str) -> (r: JsonValue)
    ensures
        r@ == JsonData::Obj(seq![("path"@, JsonData::Str(path@))]),
{
    let r = JsonValue::obj_new().with_str_field("path", path);
    proof {
        assert(obj_fields(r@) =~= seq![("path"@, JsonData::Str(path@))]);
    }
    r
}

/// The local path a finished artifact reports, when it reports one.
pub fn path_after_finished_value(body: &JsonValue) -> (r: Option<String>)
    ensures
        match r {
            Some(p) => json_field(body@, "value"@) == Some(JsonData::Str(p@)),
            None => !(json_field(body@, "value"@) matches Some(JsonData::Str(_))),
        },
{
    match body.get("value") {
        Some(v) => match v.as_str() {
            Some(s) => Some(s.clone()),
            None => None,
        },
        None => None,
    }
}

/// The failure text an artifact reports, when its creation failed.
pub fn failure_value(body: &JsonValue) -> (r: Option<String>)
    ensures
        match r {
            Some(p) => json_field(body@, "error"@) == Some(JsonData::Str(p@)),
            None => !(json_field(body@, "error"@) matches Some(JsonData::Str(_))),
        },
{
    match body.get("error") {
        Some(v) => match v.as_str() {
            Some(s) => Some(s.clone()),
            None => None,
        },
        None => None,
    }
}

} // verus!
