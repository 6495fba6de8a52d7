//! The daemon route each terminal command maps onto, and the status kind as
//! a command-line argument.

use vstd::prelude::*;

use crate::projections::status::StatusKind;
use crate::shared::text::concat;

verus! {

/// [`StatusKind`] as a command-line argument.
#[derive(Clone, Copy, Debug, PartialEq, Eq, Structural)]
pub enum Kind {
    Unstarted,
    Started,
    Complete,
    Canceled,
}

/// The wire name of a status kind.
pub open spec fn kind_name(kind: StatusKind) -> Seq<char> {
    match kind {
        StatusKind::Unstarted => "unstarted"@,
        StatusKind::Started => "started"@,
        StatusKind::Complete => "complete"@,
        StatusKind::Canceled => "canceled"@,
    }
}

impl Kind {
    /// The status kind this argument names.
    pub open spec fn status_kind(self) -> StatusKind {
        match self {
            Kind::Unstarted => StatusKind::Unstarted,
            Kind::Started => StatusKind::Started,
            Kind::Complete => StatusKind::Complete,
            Kind::Canceled => StatusKind::Canceled,
        }
    }

    /// The wire name (matches the status kind's serialized name).
    pub fn as_str(self) -> (r: &'static str)
        ensures
            r@ == kind_name(self.status_kind()),
    {
        match self {
            Kind::Unstarted => "unstarted",
            Kind::Started => "started",
            Kind::Complete => "complete",
            Kind::Canceled => "canceled",
        }
    }
}

/// A status kind back to its wire name, for display.
pub fn kind_str(kind: &StatusKind) -> (r: &'static str)
    ensures
        r@ == kind_name(*kind),
{
    match kind {
        StatusKind::Unstarted => "unstarted",
        StatusKind::Started => "started",
        StatusKind::Complete => "complete",
        StatusKind::Canceled => "canceled",
    }
}

/// The HTTP method of a daemon call.
#[derive(Clone, Copy, Debug, PartialEq, Eq, Structural)]
pub enum Method {
    Get,
    Post,
}

/// A JSON body field: a string or null.
#[derive(Debug)]
pub enum Field {
    Text(String),
    Null,
}

/// One call to the daemon: method, route, query parameters and optional JSON
/// object body.
#[derive(Debug)]
pub struct Call {
    pub method: Method,
    pub path: String,
    pub query: Vec<(String, String)>,
    pub body: Option<Vec<(String, Field)>>,
}

/// The text of a body field (`None` for null).
pub open spec fn field_view(f: Field) -> Option<Seq<char>> {
    match f {
        Field::Text(s) => Some(s@),
        Field::Null => None,
    }
}

/// The mathematical value of a [`Call`].
pub struct CallView {
    pub method: Method,
    pub path: Seq<char>,
    pub query: Seq<(Seq<char>, Seq<char>)>,
    pub body: Option<Seq<(Seq<char>, Option<Seq<char>>)>>,
}

impl Call {
    /// The call, with its texts as character sequences.
    pub open spec fn spec_view(self) -> CallView {
        CallView {
            method: self.method,
            path: self.path@,
            query: self.query@.map_values(|q: (String, String)| (q.0@, q.1@)),
            body: match self.body {
                Some(b) => Some(b@.map_values(|f: (String, Field)| (f.0@, field_view(f.1)))),
                None => None,
            },
        }
    }
}

/// The query naming the workspace, plus `flag=true` when `on`.
pub open spec fn scoped_query(ws: Seq<char>, flag: Seq<char>, on: bool) -> Seq<(Seq<char>, Seq<char>)> {
    if on {
        seq![("workspace"@, ws), (flag, "true"@)]
    } else {
        seq![("workspace"@, ws)]
    }
}

/// The text of an optional string.
pub open spec fn opt_view(s: Option<String>) -> Option<Seq<char>> {
    match s {
        Some(v) => Some(v@),
        None => None,
    }
}

/// The query naming the workspace.
pub fn workspace_query(ws: &str) -> (r: Vec<(String, String)>)
    ensures
        r@.map_values(|q: (String, String)| (q.0@, q.1@)) == scoped_query(ws@, Seq::empty(), false),
{
    let mut q: Vec<(String, String)> = Vec::new();
    q.push((String::from_str("workspace"), String::from_str(ws)));
    proof {
        assert(q@.map_values(|q: (String, String)| (q.0@, q.1@)) =~= seq![("workspace"@, ws@)]);
    }
    q
}

/// The query naming the workspace, with `flag=true` added when `on`.
pub fn flagged_query(ws: &str, flag: &str, on: bool) -> (r: Vec<(String, String)>)
    ensures
        r@.map_values(|q: (String, String)| (q.0@, q.1@)) == scoped_query(ws@, flag@, on),
{
    let mut q = workspace_query(ws);
    if on {
        let ghost before = q@;
        let entry = (String::from_str(flag), String::from_str("true"));
        q.push(entry);
        proof {
            assert(q@ == before.push(entry));
            assert(before.map_values(|e: (String, String)| (e.0@, e.1@)) == seq![("workspace"@, ws@)]);
            assert(q@.map_values(|e: (String, String)| (e.0@, e.1@)) =~= before.map_values(
                |e: (String, String)| (e.0@, e.1@),
            ).push((flag@, "true"@)));
        }
    }
    q
}

/// A body with one string field.
pub fn body1(key: &str, value: &str) -> (r: Vec<(String, Field)>)
    ensures
        r@.map_values(|f: (String, Field)| (f.0@, field_view(f.1))) == seq![(key@, Some(value@))],
{
    let mut b: Vec<(String, Field)> = Vec::new();
    b.push((String::from_str(key), Field::Text(String::from_str(value))));
    proof {
        assert(b@.map_values(|f: (String, Field)| (f.0@, field_view(f.1))) =~= seq![(key@, Some(value@))]);
    }
    b
}

/// A body field holding an optional string (null when absent).
pub fn opt_field(value: &Option<String>) -> (r: Field)
    ensures
        field_view(r) == opt_view(*value),
{
    match value {
        Some(v) => Field::Text(v.clone()),
        None => Field::Null,
    }
}

/// `<prefix><id><suffix>`: a route naming one entity.
pub fn entity_path(prefix: &str, id: &str, suffix: &str) -> (r: String)
    ensures
        r@ == prefix@ + id@ + suffix@,
{
    let head = concat(prefix, id);
    concat(head.as_str(), suffix)
}

/// The daemon call `tasks init` makes to scaffold the workspace at `path`.
pub fn init_call(path: &str) -> (r: Call)
    ensures
        r.spec_view() == (CallView {
            method: Method::Post,
            path: "/workspaces"@,
            query: Seq::empty(),
            body: Some(seq![("path"@, Some(path@))]),
        }),
{
    let r = Call {
        method: Method::Post,
        path: String::from_str("/workspaces"),
        query: Vec::new(),
        body: Some(body1("path", path)),
    };
    proof {
        assert(r.spec_view().query =~= Seq::<(Seq<char>, Seq<char>)>::empty());
    }
    r
}

/// The daemon call `tasks health` makes.
pub fn health_call() -> (r: Call)
    ensures
        r.spec_view() == (CallView { method: Method::Get, path: "/health"@, query: Seq::empty(), body: None }),
{
    let r = Call { method: Method::Get, path: String::from_str("/health"), query: Vec::new(), body: None };
    proof {
        assert(r.spec_view().query =~= Seq::<(Seq<char>, Seq<char>)>::empty());
    }
    r
}

/// Routes that share a beginning but end differently are different routes.
pub proof fn lemma_distinct_tails(head: Seq<char>, a: Seq<char>, b: Seq<char>)
    requires
        a != b,
    ensures
        head + a != head + b,
{
    assert((head + a).skip(head.len() as int) =~= a);
    assert((head + b).skip(head.len() as int) =~= b);
}

} // verus!
