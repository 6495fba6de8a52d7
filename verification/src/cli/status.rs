//! `tasks status …`: the status commands and the daemon routes they map onto
//! (`/statuses`).

use vstd::prelude::*;

use crate::cli::command::{
    lemma_distinct_tails, body1, entity_path, field_view, flagged_query, kind_name, kind_str, opt_field, opt_view, scoped_query,
    workspace_query, Call, CallView, Field, Kind, Method,
};
use crate::cli::render::{bool_text, opt, shown};
use crate::app::action::Request;
use crate::app::route::route_of;
use crate::projections::status::{clone_opt_string, Status, StatusId};

verus! {

/// A status command.
#[derive(Debug)]
pub enum Cmd {
    /// List statuses in canonical (seeds-first) order (removed ones with
    /// `removed`).
    List { removed: bool },
    /// Create a status.
    Create { name: String, kind: Kind, description: Option<String> },
    /// Rename a status.
    Rename { id: String, new_name: String },
    /// Update a status's description, or clear it with `clear` (and no
    /// description).
    Describe { id: String, description: Option<String>, clear: bool },
    /// Change a status's semantic kind.
    Kind { id: String, kind: Kind },
    /// Soft-remove a status.
    Remove { id: String },
}

/// The daemon call a status command makes in workspace `ws`.
pub open spec fn route(cmd: Cmd, ws: Seq<char>) -> CallView {
    let scoped = scoped_query(ws, Seq::empty(), false);
    match cmd {
        Cmd::List { removed } => CallView {
            method: Method::Get,
            path: "/statuses"@,
            query: scoped_query(ws, "removed"@, removed),
            body: None,
        },
        Cmd::Create { name, kind, description } => CallView {
            method: Method::Post,
            path: "/statuses"@,
            query: scoped,
            body: Some(
                seq![
                    ("name"@, Some(name@)),
                    ("kind"@, Some(kind_name(kind.status_kind()))),
                    ("description"@, opt_view(description)),
                ],
            ),
        },
        Cmd::Rename { id, new_name } => CallView {
            method: Method::Post,
            path: "/statuses/"@ + id@ + "/rename"@,
            query: scoped,
            body: Some(seq![("new_name"@, Some(new_name@))]),
        },
        Cmd::Describe { id, description, .. } => CallView {
            method: Method::Post,
            path: "/statuses/"@ + id@ + "/description"@,
            query: scoped,
            body: Some(seq![("description"@, opt_view(description))]),
        },
        Cmd::Kind { id, kind } => CallView {
            method: Method::Post,
            path: "/statuses/"@ + id@ + "/kind"@,
            query: scoped,
            body: Some(seq![("new_kind"@, Some(kind_name(kind.status_kind())))]),
        },
        Cmd::Remove { id } => CallView {
            method: Method::Post,
            path: "/statuses/"@ + id@ + "/remove"@,
            query: scoped,
            body: None,
        },
    }
}

impl Cmd {
    /// The daemon call this command makes in the workspace rooted at `ws`.
    pub fn call(&self, ws: &str) -> (r: Call)
        ensures
            r.spec_view() == route(*self, ws@),
    {
        let r = match self {
            Cmd::List { removed } => Call {
                method: Method::Get,
                path: String::from_str("/statuses"),
                query: flagged_query(ws, "removed", *removed),
                body: None,
            },
            Cmd::Create { name, kind, description } => {
                let mut body: Vec<(String, Field)> = Vec::new();
                body.push((String::from_str("name"), Field::Text(name.clone())));
                body.push((String::from_str("kind"), Field::Text(String::from_str(kind.as_str()))));
                body.push((String::from_str("description"), opt_field(description)));
                proof {
                    assert(body@.map_values(|f: (String, Field)| (f.0@, field_view(f.1))) =~= seq![
                        ("name"@, Some(name@)),
                        ("kind"@, Some(kind_name(kind.status_kind()))),
                        ("description"@, opt_view(*description)),
                    ]);
                }
                Call {
                    method: Method::Post,
                    path: String::from_str("/statuses"),
                    query: workspace_query(ws),
                    body: Some(body),
                }
            },
            Cmd::Rename { id, new_name } => Call {
                method: Method::Post,
                path: entity_path("/statuses/", id.as_str(), "/rename"),
                query: workspace_query(ws),
                body: Some(body1("new_name", new_name.as_str())),
            },
            Cmd::Describe { id, description, .. } => {
                let mut body: Vec<(String, Field)> = Vec::new();
                body.push((String::from_str("description"), opt_field(description)));
                proof {
                    assert(body@.map_values(|f: (String, Field)| (f.0@, field_view(f.1))) =~= seq![
                        ("description"@, opt_view(*description)),
                    ]);
                }
                Call {
                    method: Method::Post,
                    path: entity_path("/statuses/", id.as_str(), "/description"),
                    query: workspace_query(ws),
                    body: Some(body),
                }
            },
            Cmd::Kind { id, kind } => Call {
                method: Method::Post,
                path: entity_path("/statuses/", id.as_str(), "/kind"),
                query: workspace_query(ws),
                body: Some(body1("new_kind", kind.as_str())),
            },
            Cmd::Remove { id } => Call {
                method: Method::Post,
                path: entity_path("/statuses/", id.as_str(), "/remove"),
                query: workspace_query(ws),
                body: None,
            },
        };
        proof {
            assert(r.spec_view().query =~= route(*self, ws@).query);
            assert(r.spec_view().path =~= route(*self, ws@).path);
        }
        r
    }
}

/// The rows of the status listing: ID, name, kind and description.
pub fn list_rows(statuses: &Vec<Status>) -> (r: Vec<Vec<String>>)
    ensures
        r@.len() == statuses@.len(),
        forall|k: int|
            0 <= k < r@.len() ==> (#[trigger] r@[k])@.map_values(|c: String| c@) == seq![
                statuses@[k].id.text(),
                statuses@[k].name@,
                kind_name(statuses@[k].kind),
                shown(opt_view(statuses@[k].description)),
            ],
{
    let mut rows: Vec<Vec<String>> = Vec::new();
    let mut k: usize = 0;
    while k < statuses.len()
        invariant
            k <= statuses@.len(),
            rows@.len() == k,
            forall|j: int|
                0 <= j < k ==> (#[trigger] rows@[j])@.map_values(|c: String| c@) == seq![
                    statuses@[j].id.text(),
                    statuses@[j].name@,
                    kind_name(statuses@[j].kind),
                    shown(opt_view(statuses@[j].description)),
                ],
        decreases statuses@.len() - k,
    {
        let s = &statuses[k];
        let mut row: Vec<String> = Vec::new();
        row.push(s.id.to_string());
        row.push(s.name.clone());
        row.push(String::from_str(kind_str(&s.kind)));
        row.push(opt(clone_opt_string(&s.description)));
        proof {
            assert(row@.map_values(|c: String| c@) =~= seq![
                s.id.text(),
                s.name@,
                kind_name(s.kind),
                shown(opt_view(s.description)),
            ]);
        }
        rows.push(row);
        k = k + 1;
    }
    rows
}

/// The key-value block showing one status.
pub fn show_pairs(status: &Status) -> (r: Vec<(&'static str, String)>)
    ensures
        r@.map_values(|p: (&'static str, String)| (p.0@, p.1@)) == seq![
            ("id"@, status.id.text()),
            ("name"@, status.name@),
            ("kind"@, kind_name(status.kind)),
            ("description"@, shown(opt_view(status.description))),
            ("removed"@, if status.removed { "true"@ } else { "false"@ }),
        ],
{
    let mut pairs: Vec<(&'static str, String)> = Vec::new();
    pairs.push(("id", status.id.to_string()));
    pairs.push(("name", status.name.clone()));
    pairs.push(("kind", String::from_str(kind_str(&status.kind))));
    pairs.push(("description", opt(clone_opt_string(&status.description))));
    pairs.push(("removed", bool_text(status.removed)));
    proof {
        assert(pairs@.map_values(|p: (&'static str, String)| (p.0@, p.1@)) =~= seq![
            ("id"@, status.id.text()),
            ("name"@, status.name@),
            ("kind"@, kind_name(status.kind)),
            ("description"@, shown(opt_view(status.description))),
            ("removed"@, if status.removed { "true"@ } else { "false"@ }),
        ]);
    }
    pairs
}

/// Each command on one status reaches a route of its own: renaming,
/// describing, changing the kind of and removing it go to different daemon
/// paths, so no command can stand in for another.
pub proof fn lemma_status_commands_reach_distinct_routes(
    ws: Seq<char>,
    id: String,
    new_name: String,
    description: Option<String>,
    clear: bool,
    kind: Kind,
)
    ensures
        seq![
            route(Cmd::Rename { id, new_name }, ws).path,
            route(Cmd::Describe { id, description, clear }, ws).path,
            route(Cmd::Kind { id, kind }, ws).path,
            route(Cmd::Remove { id }, ws).path,
        ].no_duplicates(),
{
    reveal_strlit("/rename");
    reveal_strlit("/description");
    reveal_strlit("/kind");
    reveal_strlit("/remove");
    let head = "/statuses/"@ + id@;
    let tails: Seq<Seq<char>> = seq!["/rename"@, "/description"@, "/kind"@, "/remove"@];
    assert(tails[0][3] == 'n' && tails[3][3] == 'm' && tails[1].len() == 12 && tails[2].len() == 5);
    let paths = seq![
        route(Cmd::Rename { id, new_name }, ws).path,
        route(Cmd::Describe { id, description, clear }, ws).path,
        route(Cmd::Kind { id, kind }, ws).path,
        route(Cmd::Remove { id }, ws).path,
    ];
    assert forall|i: int| 0 <= i < 4 implies #[trigger] paths[i] == head + tails[i] by {}
    assert forall|i: int, j: int| 0 <= i < 4 && 0 <= j < 4 && i != j implies paths[i] != paths[j] by {
        if tails[i].len() == tails[j].len() {
            assert(tails[i][3] != tails[j][3]);
        }
        lemma_distinct_tails(head, tails[i], tails[j]);
    }
}

/// The terminal and desktop clients ask the daemon the same thing for the
/// same change to a status: changing its kind and removing it go to the
/// same method, path and query (and, for a kind change, the same body) from
/// either client.
pub proof fn lemma_clients_agree_on_status_routes(ws: Seq<char>, id: String, status_id: StatusId, kind: Kind)
    requires
        id@ == status_id.text(),
    ensures
        route(Cmd::Kind { id, kind }, ws) == route_of(
            Request::ChangeStatusKind { status_id, new_kind: kind.status_kind() },
            ws,
        ),
        route(Cmd::Remove { id }, ws).path == route_of(Request::RemoveStatus { status_id }, ws).path,
        route(Cmd::Remove { id }, ws).method == route_of(Request::RemoveStatus { status_id }, ws).method,
        route(Cmd::Remove { id }, ws).query == route_of(Request::RemoveStatus { status_id }, ws).query,
{
}

} // verus!
