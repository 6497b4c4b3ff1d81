//! A tracing node: the requests that start, chunk, group and stop a trace,
//! and the artifact a stopped chunk hands back.

use vstd::prelude::*;

use crate::json::{json_field, obj_fields, JsonData, JsonValue};

verus! {

/// A tracing handle: the guid of the tracing node it addresses.
pub struct Tracing {
    pub guid: String,
}

impl Tracing {
    /// A handle on a tracing node.
    pub fn try_new(guid: String) -> (r: Tracing)
        ensures
            r.guid == guid,
    {
        Tracing { guid }
    }

    /// A handle on a tracing node.
    pub fn new(guid: String) -> (r: Tracing)
        ensures
            r.guid == guid,
    {
        Tracing { guid }
    }
}

/// The fields of a trace-start request: every option that was set, in order.
pub open spec fn start_fields(
    name: Option<Seq<char>>,
    title: Option<Seq<char>>,
    screenshots: Option<bool>,
    snapshots: Option<bool>,
    sources: Option<bool>,
) -> Seq<(Seq<char>, JsonData)> {
    let f0: Seq<(Seq<char>, JsonData)> = match name {
        Some(n) => seq![("name"@, JsonData::Str(n))],
        None => Seq::empty(),
    };
    let f1 = match title {
        Some(t) => f0.push(("title"@, JsonData::Str(t))),
        None => f0,
    };
    let f2 = match screenshots {
        Some(b) => f1.push(("screenshots"@, JsonData::Bool(b))),
        None => f1,
    };
    let f3 = match snapshots {
        Some(b) => f2.push(("snapshots"@, JsonData::Bool(b))),
        None => f2,
    };
    match sources {
        Some(b) => f3.push(("sources"@, JsonData::Bool(b))),
        None => f3,
    }
}

/// The parameters of `tracingStart`.
pub fn start_params(
    name: Option<&str>,
    title: Option<&str>,
    screenshots: Option<bool>,
    snapshots: Option<bool>,
    sources: Option<bool>,
) -> (r: JsonValue)
    ensures
        r@ == JsonData::Obj(
            start_fields(
                match name {
                    Some(s) => Some(s@),
                    None => None,
                },
                match title {
                    Some(s) => Some(s@),
                    None => None,
                },
                screenshots,
                snapshots,
                sources,
            ),
        ),
{
    let r = JsonValue::obj_new().with_opt_str_field("name", name).with_opt_str_field(
        "title",
        title,
    ).with_opt_bool_field("screenshots", screenshots).with_opt_bool_field(
        "snapshots",
        snapshots,
    ).with_opt_bool_field("sources", sources);
    proof {
        let nd = match name {
            Some(s) => Some(s@),
            None => None::<Seq<char>>,
        };
        let td = match title {
            Some(s) => Some(s@),
            None => None::<Seq<char>>,
        };
        assert(obj_fields(r@) =~= start_fields(nd, td, screenshots, snapshots, sources));
    }
    r
}

/// The parameters of `tracingStartChunk`.
pub fn start_chunk_params(name: Option<&str>, title: Option<&str>) -> (r: JsonValue)
    ensures
        r@ == JsonData::Obj(
            start_fields(
                match name {
                    Some(s) => Some(s@),
                    None => None,
                },
                match title {
                    Some(s) => Some(s@),
                    None => None,
                },
                None,
                None,
                None,
            ),
        ),
{
    let r = JsonValue::obj_new().with_opt_str_field("name", name).with_opt_str_field(
        "title",
        title,
    );
    proof {
        let nd = match name {
            Some(s) => Some(s@),
            None => None::<Seq<char>>,
        };
        let td = match title {
            Some(s) => Some(s@),
            None => None::<Seq<char>>,
        };
        assert(obj_fields(r@) =~= start_fields(nd, td, None, None, None));
    }
    r
}

/// The parameters of `tracingStopChunk`: the chunk is archived when a path
/// will receive it, and discarded otherwise.
pub fn stop_chunk_params(keep: bool) -> (r: JsonValue)
    ensures
        keep ==> r@ == JsonData::Obj(seq![("mode"@, JsonData::Str("archive"@))]),
        !keep ==> r@ == JsonData::Obj(seq![("mode"@, JsonData::Str("discard"@))]),
{
    let r = if keep {
        JsonValue::obj_new().with_str_field("mode", "archive")
    } else {
        JsonValue::obj_new().with_str_field("mode", "discard")
    };
    proof {
        if keep {
            assert(obj_fields(r@) =~= seq![("mode"@, JsonData::Str("archive"@))]);
        } else {
            assert(obj_fields(r@) =~= seq![("mode"@, JsonData::Str("discard"@))]);
        }
    }
    r
}

/// The parameters of `tracingGroup`.
pub fn group_params(name: &str, location: Option<&str>) -> (r: JsonValue)
    ensures
        r@ == JsonData::Obj(
            match location {
                Some(l) => seq![("name"@, JsonData::Str(name@)), ("location"@, JsonData::Str(l@))],
                None => seq![("name"@, JsonData::Str(name@))],
            },
        ),
{
    let r = JsonValue::obj_new().with_str_field("name", name).with_opt_str_field(
        "location",
        location,
    );
    proof {
        assert(obj_fields(r@) =~= (match location {
            Some(l) => seq![("name"@, JsonData::Str(name@)), ("location"@, JsonData::Str(l@))],
            None => seq![("name"@, JsonData::Str(name@))],
        }));
    }
    r
}

/// The artifact guid a stopped chunk names, when it archived one.
pub fn stop_chunk_artifact(body: &JsonValue) -> (r: Option<String>)
    ensures
        match r {
            Some(g) => match json_field(body@, "artifact"@) {
                Some(a) => json_field(a, "guid"@) == Some(JsonData::Str(g@)),
                None => false,
            },
            None => match json_field(body@, "artifact"@) {
                Some(a) => !(json_field(a, "guid"@) matches Some(JsonData::Str(_))),
                None => true,
            },
        },
{
    match body.get("artifact") {
        Some(a) => match a.get("guid") {
            Some(g) => match g.as_str() {
                Some(s) => Some(s.clone()),
                None => None,
            },
            None => None,
        },
        None => None,
    }
}

/// Options of a trace start.
pub struct StartOptions {
    pub name: Option<String>,
    pub title: Option<String>,
    pub screenshots: Option<bool>,
    pub snapshots: Option<bool>,
    pub sources: Option<bool>,
}

/// Options of a chunk start.
pub struct StartChunkOptions {
    pub name: Option<String>,
    pub title: Option<String>,
}

/// Options of a trace stop: where to save the archived chunk, if anywhere.
pub struct StopOptions {
    pub path: Option<String>,
}

/// Options of a chunk stop.
pub struct StopChunkOptions {
    pub path: Option<String>,
}

/// The spec view of an optional string option.
pub open spec fn opt_view(o: Option<String>) -> Option<Seq<char>> {
    match o {
        Some(s) => Some(s@),
        None => None,
    }
}

impl StartOptions {
    /// The `tracingStart` parameters these options stand for.
    pub fn params(&self) -> (r: JsonValue)
        ensures
            r@ == JsonData::Obj(
                start_fields(
                    opt_view(self.name),
                    opt_view(self.title),
                    self.screenshots,
                    self.snapshots,
                    self.sources,
                ),
            ),
    {
        start_params(
            match &self.name {
                Some(s) => Some(s.as_str()),
                None => None,
            },
            match &self.title {
                Some(s) => Some(s.as_str()),
                None => None,
            },
            self.screenshots,
            self.snapshots,
            self.sources,
        )
    }
}

impl StartChunkOptions {
    /// The `tracingStartChunk` parameters these options stand for.
    pub fn params(&self) -> (r: JsonValue)
        ensures
            r@ == JsonData::Obj(
                start_fields(opt_view(self.name), opt_view(self.title), None, None, None),
            ),
    {
        start_chunk_params(
            match &self.name {
                Some(s) => Some(s.as_str()),
                None => None,
            },
            match &self.title {
                Some(s) => Some(s.as_str()),
                None => None,
            },
        )
    }
}

impl StopChunkOptions {
    /// The `tracingStopChunk` parameters these options stand for: the chunk
    /// is archived exactly when a path will receive it.
    pub fn params(&self) -> (r: JsonValue)
        ensures
            self.path is Some ==> r@ == JsonData::Obj(
                seq![("mode"@, JsonData::Str("archive"@))],
            ),
            self.path is None ==> r@ == JsonData::Obj(seq![("mode"@, JsonData::Str("discard"@))]),
    {
        stop_chunk_params(self.path.is_some())
    }
}

impl StopOptions {
    /// The `tracingStopChunk` parameters a stop issues before `tracingStop`.
    pub fn chunk_params(&self) -> (r: JsonValue)
        ensures
            self.path is Some ==> r@ == JsonData::Obj(
                seq![("mode"@, JsonData::Str("archive"@))],
            ),
            self.path is None ==> r@ == JsonData::Obj(seq![("mode"@, JsonData::Str("discard"@))]),
    {
        stop_chunk_params(self.path.is_some())
    }
}

} // verus!
