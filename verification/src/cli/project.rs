//! `tasks project …`: the project commands and the daemon routes they map
//! onto (`/projects`).

use vstd::prelude::*;

use crate::cli::command::{lemma_distinct_tails, body1, entity_path, flagged_query, scoped_query, workspace_query, Call, CallView, Method};
use crate::cli::render::{bool_text, renderable, time, time_layout, ABSENT, MAX_RENDERABLE_MILLIS};
use crate::app::action::Request;
use crate::app::route::route_of;
use crate::projections::project::{Project, ProjectId};

verus! {

/// A project command.
#[derive(Debug)]
pub enum Cmd {
    /// List projects, oldest first (closed ones with `closed`).
    List { closed: bool },
    /// Show one project.
    Show { id: String },
    /// Create a project.
    Create { name: String },
    /// Rename a project.
    Rename { id: String, new_name: String },
    /// Close (archive) a project.
    Close { id: String },
    /// Reopen a closed project.
    Reopen { id: String },
}

/// The daemon call a project command makes in workspace `ws`.
pub open spec fn route(cmd: Cmd, ws: Seq<char>) -> CallView {
    let scoped = scoped_query(ws, Seq::empty(), false);
    match cmd {
        Cmd::List { closed } => CallView {
            method: Method::Get,
            path: "/projects"@,
            query: scoped_query(ws, "closed"@, closed),
            body: None,
        },
        Cmd::Show { id } => CallView { method: Method::Get, path: "/projects/"@ + id@, query: scoped, body: None },
        Cmd::Create { name } => CallView {
            method: Method::Post,
            path: "/projects"@,
            query: scoped,
            body: Some(seq![("name"@, Some(name@))]),
        },
        Cmd::Rename { id, new_name } => CallView {
            method: Method::Post,
            path: "/projects/"@ + id@ + "/rename"@,
            query: scoped,
            body: Some(seq![("new_name"@, Some(new_name@))]),
        },
        Cmd::Close { id } => CallView {
            method: Method::Post,
            path: "/projects/"@ + id@ + "/close"@,
            query: scoped,
            body: None,
        },
        Cmd::Reopen { id } => CallView {
            method: Method::Post,
            path: "/projects/"@ + id@ + "/reopen"@,
            query: scoped,
            body: None,
        },
    }
}

impl Cmd {
    /// The daemon call this command makes in the workspace rooted at `ws`.
    pub fn call(&self, ws: &str) -> (r: Call)
        ensures
            r.spec_view() == route(*self, ws@),
    {
        let r = match self {
            Cmd::List { closed } => Call {
                method: Method::Get,
                path: String::from_str("/projects"),
                query: flagged_query(ws, "closed", *closed),
                body: None,
            },
            Cmd::Show { id } => Call {
                method: Method::Get,
                path: entity_path("/projects/", id.as_str(), ""),
                query: workspace_query(ws),
                body: None,
            },
            Cmd::Create { name } => Call {
                method: Method::Post,
                path: String::from_str("/projects"),
                query: workspace_query(ws),
                body: Some(body1("name", name.as_str())),
            },
            Cmd::Rename { id, new_name } => Call {
                method: Method::Post,
                path: entity_path("/projects/", id.as_str(), "/rename"),
                query: workspace_query(ws),
                body: Some(body1("new_name", new_name.as_str())),
            },
            Cmd::Close { id } => Call {
                method: Method::Post,
                path: entity_path("/projects/", id.as_str(), "/close"),
                query: workspace_query(ws),
                body: None,
            },
            Cmd::Reopen { id } => Call {
                method: Method::Post,
                path: entity_path("/projects/", id.as_str(), "/reopen"),
                query: workspace_query(ws),
                body: None,
            },
        };
        proof {
            reveal_strlit("");
            assert(r.spec_view().query =~= route(*self, ws@).query);
            assert(r.spec_view().path =~= route(*self, ws@).path);
        }
        r
    }
}

/// Whether every project's creation time can be shown.
pub open spec fn times_renderable(projects: Seq<Project>) -> bool {
    forall|k: int|
        0 <= k < projects.len() ==> renderable((#[trigger] projects[k]).created_at_millis)
}

/// The rows of the project listing: ID, name and creation time.
pub fn list_rows(projects: &Vec<Project>) -> (r: Vec<Vec<String>>)
    requires
        times_renderable(projects@),
    ensures
        r@.len() == projects@.len(),
        forall|k: int|
            0 <= k < r@.len() ==> {
                let row = #[trigger] r@[k]@;
                &&& row.len() == 3
                &&& row[0]@ == projects@[k].id.text()
                &&& row[1]@ == projects@[k].name@
                &&& projects@[k].created_at_millis is None ==> row[2]@ == ABSENT@
                &&& projects@[k].created_at_millis is Some ==> time_layout(row[2]@)
            },
{
    let mut rows: Vec<Vec<String>> = Vec::new();
    let mut k: usize = 0;
    while k < projects.len()
        invariant
            k <= projects@.len(),
            times_renderable(projects@),
            rows@.len() == k,
            forall|j: int|
                0 <= j < k ==> {
                    let row = #[trigger] rows@[j]@;
                    &&& row.len() == 3
                    &&& row[0]@ == projects@[j].id.text()
                    &&& row[1]@ == projects@[j].name@
                    &&& projects@[j].created_at_millis is None ==> row[2]@ == ABSENT@
                    &&& projects@[j].created_at_millis is Some ==> time_layout(row[2]@)
                },
        decreases projects@.len() - k,
    {
        let p = &projects[k];
        let mut row: Vec<String> = Vec::new();
        row.push(p.id.to_string());
        row.push(p.name.clone());
        row.push(time(p.created_at_millis));
        rows.push(row);
        k = k + 1;
    }
    rows
}

/// The key-value block showing one project.
pub fn show_pairs(project: &Project) -> (r: Vec<(&'static str, String)>)
    requires
        project.created_at_millis matches Some(ms) ==> ms <= MAX_RENDERABLE_MILLIS,
    ensures
        r@.len() == 4,
        r@[0].0@ == "id"@ && r@[0].1@ == project.id.text(),
        r@[1].0@ == "name"@ && r@[1].1@ == project.name@,
        r@[2].0@ == "closed"@ && r@[2].1@ == (if project.closed { "true"@ } else { "false"@ }),
        r@[3].0@ == "created"@,
        project.created_at_millis is None ==> r@[3].1@ == ABSENT@,
        project.created_at_millis is Some ==> time_layout(r@[3].1@),
{
    let mut pairs: Vec<(&'static str, String)> = Vec::new();
    pairs.push(("id", project.id.to_string()));
    pairs.push(("name", project.name.clone()));
    pairs.push(("closed", bool_text(project.closed)));
    pairs.push(("created", time(project.created_at_millis)));
    pairs
}

/// Each command on one project reaches a route of its own: showing,
/// renaming, closing and reopening it go to different daemon paths, so
/// reopening a project never closes it.
pub proof fn lemma_project_commands_reach_distinct_routes(ws: Seq<char>, id: String, new_name: String)
    ensures
        seq![
            route(Cmd::Show { id }, ws).path,
            route(Cmd::Rename { id, new_name }, ws).path,
            route(Cmd::Close { id }, ws).path,
            route(Cmd::Reopen { id }, ws).path,
        ].no_duplicates(),
{
    reveal_strlit("/rename");
    reveal_strlit("/close");
    reveal_strlit("/reopen");
    let head = "/projects/"@ + id@;
    let tails: Seq<Seq<char>> = seq![Seq::<char>::empty(), "/rename"@, "/close"@, "/reopen"@];
    assert(tails[1][3] == 'n' && tails[3][3] == 'o' && tails[2].len() == 6);
    let paths = seq![
        route(Cmd::Show { id }, ws).path,
        route(Cmd::Rename { id, new_name }, ws).path,
        route(Cmd::Close { id }, ws).path,
        route(Cmd::Reopen { id }, ws).path,
    ];
    assert(head + Seq::<char>::empty() =~= head);
    assert forall|i: int| 0 <= i < 4 implies #[trigger] paths[i] == head + tails[i] by {}
    assert forall|i: int, j: int| 0 <= i < 4 && 0 <= j < 4 && i != j implies paths[i] != paths[j] by {
        if tails[i].len() == tails[j].len() && tails[i].len() > 0 {
            assert(tails[i][3] != tails[j][3]);
        }
        lemma_distinct_tails(head, tails[i], tails[j]);
    }
}

/// The terminal and desktop clients ask the daemon the same thing for the
/// same change to a project: closing and reopening it go to the same method,
/// path and query from either client.
pub proof fn lemma_clients_agree_on_project_routes(ws: Seq<char>, id: String, project_id: ProjectId)
    requires
        id@ == project_id.text(),
    ensures
        route(Cmd::Close { id }, ws).path == route_of(Request::CloseProject { project_id }, ws).path,
        route(Cmd::Close { id }, ws).method == route_of(Request::CloseProject { project_id }, ws).method,
        route(Cmd::Close { id }, ws).query == route_of(Request::CloseProject { project_id }, ws).query,
        route(Cmd::Reopen { id }, ws).path == route_of(Request::ReopenProject { project_id }, ws).path,
        route(Cmd::Reopen { id }, ws).method == route_of(Request::ReopenProject { project_id }, ws).method,
        route(Cmd::Reopen { id }, ws).query == route_of(Request::ReopenProject { project_id }, ws).query,
{
}

} // verus!
