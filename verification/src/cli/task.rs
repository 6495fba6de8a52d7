//! `tasks task …`: the task commands and the daemon routes they map onto
//! (`/tasks`).

use vstd::prelude::*;

use crate::cli::command::{
    body1, entity_path, field_view, opt_field, opt_view, scoped_query, workspace_query, Call, CallView,
    Field, Method,
};
use crate::cli::render::{bool_text, opt, payload, renderable, shown, time, time_layout, PayloadValue, ABSENT, fields_text};
use crate::app::action::Request;
use crate::app::route::route_of;
use crate::cli::command::lemma_distinct_tails;
use crate::projections::project::{Project, ProjectId};
use crate::projections::status::Status;
use crate::projections::status::StatusId;
use crate::projections::task::{Task, TaskId};
use crate::shared::text::str_eq;

verus! {

/// A task command.
#[allow(inconsistent_fields)]
#[derive(Debug)]
pub enum Cmd {
    /// List tasks, oldest first: only those of `project` when given, closed
    /// ones with `closed`.
    List { project: Option<String>, closed: bool },
    /// Show one task.
    Show { id: String },
    /// Show a task's full event history, oldest first.
    History { id: String },
    /// Create a task in a project.
    Create { name: String, project: String },
    /// Rename a task.
    Rename { id: String, new_name: String },
    /// Move a task to a different project.
    Move { id: String, project: String },
    /// Close a task.
    Close { id: String },
    /// Reopen a closed task.
    Reopen { id: String },
    /// Set a task's status, or clear it with `clear` (and no status).
    Status { id: String, status: Option<String>, clear: bool },
    /// Replace a task's description.
    Describe { id: String, description: String },
}

/// The query of a task listing: the workspace, then the project when given,
/// then `closed=true` when listing closed tasks.
pub open spec fn list_query(ws: Seq<char>, project: Option<Seq<char>>, closed: bool) -> Seq<(Seq<char>, Seq<char>)> {
    let base = seq![("workspace"@, ws)];
    let with_project = match project {
        Some(p) => base.push(("project_id"@, p)),
        None => base,
    };
    if closed {
        with_project.push(("closed"@, "true"@))
    } else {
        with_project
    }
}

/// The daemon call a task command makes in workspace `ws`.
pub open spec fn route(cmd: Cmd, ws: Seq<char>) -> CallView {
    let scoped = scoped_query(ws, Seq::empty(), false);
    match cmd {
        Cmd::List { project, closed } => CallView {
            method: Method::Get,
            path: "/tasks"@,
            query: list_query(ws, opt_view(project), closed),
            body: None,
        },
        Cmd::Show { id } => CallView { method: Method::Get, path: "/tasks/"@ + id@, query: scoped, body: None },
        Cmd::History { id } => CallView {
            method: Method::Get,
            path: "/tasks/"@ + id@ + "/events"@,
            query: scoped,
            body: None,
        },
        Cmd::Create { name, project } => CallView {
            method: Method::Post,
            path: "/tasks"@,
            query: scoped,
            body: Some(seq![("project_id"@, Some(project@)), ("name"@, Some(name@))]),
        },
        Cmd::Rename { id, new_name } => CallView {
            method: Method::Post,
            path: "/tasks/"@ + id@ + "/rename"@,
            query: scoped,
            body: Some(seq![("new_name"@, Some(new_name@))]),
        },
        Cmd::Move { id, project } => CallView {
            method: Method::Post,
            path: "/tasks/"@ + id@ + "/move"@,
            query: scoped,
            body: Some(seq![("project_id"@, Some(project@))]),
        },
        Cmd::Close { id } => CallView {
            method: Method::Post,
            path: "/tasks/"@ + id@ + "/close"@,
            query: scoped,
            body: None,
        },
        Cmd::Reopen { id } => CallView {
            method: Method::Post,
            path: "/tasks/"@ + id@ + "/reopen"@,
            query: scoped,
            body: None,
        },
        Cmd::Status { id, status, .. } => CallView {
            method: Method::Post,
            path: "/tasks/"@ + id@ + "/status"@,
            query: scoped,
            body: Some(seq![("status_id"@, opt_view(status))]),
        },
        Cmd::Describe { id, description } => CallView {
            method: Method::Post,
            path: "/tasks/"@ + id@ + "/description"@,
            query: scoped,
            body: Some(seq![("description"@, Some(description@))]),
        },
    }
}

impl Cmd {
    /// The daemon call this command makes in the workspace rooted at `ws`.
    pub fn call(&self, ws: &str) -> (r: Call)
        ensures
            r.spec_view() == route(*self, ws@),
    {
        let r = match self {
            Cmd::List { project, closed } => {
                let mut query = workspace_query(ws);
                let ghost q0 = query@;
                match project {
                    Some(p) => {
                        query.push((String::from_str("project_id"), p.clone()));
                    },
                    None => {},
                }
                let ghost q1 = query@;
                if *closed {
                    query.push((String::from_str("closed"), String::from_str("true")));
                }
                proof {
                    let f = |e: (String, String)| (e.0@, e.1@);
                    assert(q0.map_values(f) == seq![("workspace"@, ws@)]);
                    let base = seq![("workspace"@, ws@)];
                    let with_project = match opt_view(*project) {
                        Some(p) => base.push(("project_id"@, p)),
                        None => base,
                    };
                    assert(q1.map_values(f) =~= with_project);
                    assert(query@.map_values(f) =~= list_query(ws@, opt_view(*project), *closed));
                }
                Call { method: Method::Get, path: String::from_str("/tasks"), query, body: None }
            },
            Cmd::Show { id } => Call {
                method: Method::Get,
                path: entity_path("/tasks/", id.as_str(), ""),
                query: workspace_query(ws),
                body: None,
            },
            Cmd::History { id } => Call {
                method: Method::Get,
                path: entity_path("/tasks/", id.as_str(), "/events"),
                query: workspace_query(ws),
                body: None,
            },
            Cmd::Create { name, project } => {
                let mut body: Vec<(String, Field)> = Vec::new();
                body.push((String::from_str("project_id"), Field::Text(project.clone())));
                body.push((String::from_str("name"), Field::Text(name.clone())));
                proof {
                    assert(body@.map_values(|f: (String, Field)| (f.0@, field_view(f.1))) =~= seq![
                        ("project_id"@, Some(project@)),
                        ("name"@, Some(name@)),
                    ]);
                }
                Call {
                    method: Method::Post,
                    path: String::from_str("/tasks"),
                    query: workspace_query(ws),
                    body: Some(body),
                }
            },
            Cmd::Rename { id, new_name } => Call {
                method: Method::Post,
                path: entity_path("/tasks/", id.as_str(), "/rename"),
                query: workspace_query(ws),
                body: Some(body1("new_name", new_name.as_str())),
            },
            Cmd::Move { id, project } => Call {
                method: Method::Post,
                path: entity_path("/tasks/", id.as_str(), "/move"),
                query: workspace_query(ws),
                body: Some(body1("project_id", project.as_str())),
            },
            Cmd::Close { id } => Call {
                method: Method::Post,
                path: entity_path("/tasks/", id.as_str(), "/close"),
                query: workspace_query(ws),
                body: None,
            },
            Cmd::Reopen { id } => Call {
                method: Method::Post,
                path: entity_path("/tasks/", id.as_str(), "/reopen"),
                query: workspace_query(ws),
                body: None,
            },
            Cmd::Status { id, status, .. } => {
                let mut body: Vec<(String, Field)> = Vec::new();
                body.push((String::from_str("status_id"), opt_field(status)));
                proof {
                    assert(body@.map_values(|f: (String, Field)| (f.0@, field_view(f.1))) =~= seq![
                        ("status_id"@, opt_view(*status)),
                    ]);
                }
                Call {
                    method: Method::Post,
                    path: entity_path("/tasks/", id.as_str(), "/status"),
                    query: workspace_query(ws),
                    body: Some(body),
                }
            },
            Cmd::Describe { id, description } => Call {
                method: Method::Post,
                path: entity_path("/tasks/", id.as_str(), "/description"),
                query: workspace_query(ws),
                body: Some(body1("description", description.as_str())),
            },
        };
        proof {
            reveal_strlit("");
            assert(r.spec_view().query =~= route(*self, ws@).query);
            assert(r.spec_view().path =~= route(*self, ws@).path);
        }
        r
    }
}

/// The name `names` gives to the ID text `id` (the last entry for it), or
/// the ID text itself when none does.
pub open spec fn named(names: Seq<(Seq<char>, Seq<char>)>, id: Seq<char>) -> Seq<char>
    decreases names.len(),
{
    if names.len() == 0 {
        id
    } else if names.last().0 == id {
        names.last().1
    } else {
        named(names.drop_last(), id)
    }
}

/// The ID text and name of each status.
pub open spec fn status_names(statuses: Seq<Status>) -> Seq<(Seq<char>, Seq<char>)> {
    statuses.map_values(|s: Status| (s.id.text(), s.name@))
}

/// The ID text and name of each project.
pub open spec fn project_names(projects: Seq<Project>) -> Seq<(Seq<char>, Seq<char>)> {
    projects.map_values(|p: Project| (p.id.text(), p.name@))
}

/// The name the listing shows for ID text `id`.
fn lookup_name(names: &Vec<(String, String)>, id: String) -> (r: String)
    ensures
        r@ == named(names@.map_values(|e: (String, String)| (e.0@, e.1@)), id@),
{
    let ghost v = names@.map_values(|e: (String, String)| (e.0@, e.1@));
    let mut k = names.len();
    proof {
        assert(v.take(k as int) =~= v);
    }
    while k > 0
        invariant
            k <= names@.len(),
            v == names@.map_values(|e: (String, String)| (e.0@, e.1@)),
            named(v, id@) == named(v.take(k as int), id@),
        decreases k,
    {
        proof {
            assert(v.take(k as int).last() == v[k - 1]);
            assert(v.take(k as int).drop_last() =~= v.take(k - 1));
        }
        if str_eq(names[k - 1].0.as_str(), id.as_str()) {
            return names[k - 1].1.clone();
        }
        k = k - 1;
    }
    id
}

/// The ID text and name of each status, in order.
fn status_name_list(statuses: &Vec<Status>) -> (r: Vec<(String, String)>)
    ensures
        r@.map_values(|e: (String, String)| (e.0@, e.1@)) == status_names(statuses@),
{
    let mut out: Vec<(String, String)> = Vec::new();
    let mut k: usize = 0;
    while k < statuses.len()
        invariant
            k <= statuses@.len(),
            out@.map_values(|e: (String, String)| (e.0@, e.1@)) == status_names(statuses@).take(k as int),
        decreases statuses@.len() - k,
    {
        let ghost before = out@;
        let entry = (statuses[k].id.to_string(), statuses[k].name.clone());
        out.push(entry);
        proof {
            assert(out@ == before.push(entry));
            assert(status_names(statuses@).take(k + 1) =~= status_names(statuses@).take(k as int).push(
                status_names(statuses@)[k as int],
            ));
            assert(status_names(statuses@)[k as int] == (entry.0@, entry.1@));
            assert(out@.map_values(|e: (String, String)| (e.0@, e.1@)) =~= before.map_values(
                |e: (String, String)| (e.0@, e.1@),
            ).push((entry.0@, entry.1@)));
        }
        k = k + 1;
    }
    proof {
        assert(status_names(statuses@).take(statuses@.len() as int) =~= status_names(statuses@));
    }
    out
}

/// The ID text and name of each project, in order.
fn project_name_list(projects: &Vec<Project>) -> (r: Vec<(String, String)>)
    ensures
        r@.map_values(|e: (String, String)| (e.0@, e.1@)) == project_names(projects@),
{
    let mut out: Vec<(String, String)> = Vec::new();
    let mut k: usize = 0;
    while k < projects.len()
        invariant
            k <= projects@.len(),
            out@.map_values(|e: (String, String)| (e.0@, e.1@)) == project_names(projects@).take(k as int),
        decreases projects@.len() - k,
    {
        let ghost before = out@;
        let entry = (projects[k].id.to_string(), projects[k].name.clone());
        out.push(entry);
        proof {
            assert(out@ == before.push(entry));
            assert(project_names(projects@).take(k + 1) =~= project_names(projects@).take(k as int).push(
                project_names(projects@)[k as int],
            ));
            assert(project_names(projects@)[k as int] == (entry.0@, entry.1@));
            assert(out@.map_values(|e: (String, String)| (e.0@, e.1@)) =~= before.map_values(
                |e: (String, String)| (e.0@, e.1@),
            ).push((entry.0@, entry.1@)));
        }
        k = k + 1;
    }
    proof {
        assert(project_names(projects@).take(projects@.len() as int) =~= project_names(projects@));
    }
    out
}

/// Whether every task's creation time can be shown.
pub open spec fn times_renderable(tasks: Seq<Task>) -> bool {
    forall|k: int| 0 <= k < tasks.len() ==> renderable((#[trigger] tasks[k]).created_at_millis)
}

/// Whether `row` lists `t` with statuses and projects named as `statuses` and
/// `projects` name them: ID, name, status, project and creation time.
pub open spec fn is_list_row(row: Seq<String>, t: Task, statuses: Seq<Status>, projects: Seq<Project>) -> bool {
    &&& row.len() == 5
    &&& row[0]@ == t.id.text()
    &&& row[1]@ == t.name@
    &&& row[2]@ == shown(
        match t.status_id {
            Some(sid) => Some(named(status_names(statuses), sid.text())),
            None => None,
        },
    )
    &&& row[3]@ == named(project_names(projects), t.project_id.text())
    &&& t.created_at_millis is None ==> row[4]@ == ABSENT@
    &&& t.created_at_millis is Some ==> time_layout(row[4]@)
}

/// The rows of the task listing, with status and project IDs resolved to
/// their names: ID, name, status, project and creation time.
pub fn list_rows(tasks: &Vec<Task>, statuses: &Vec<Status>, projects: &Vec<Project>) -> (r: Vec<Vec<String>>)
    requires
        times_renderable(tasks@),
    ensures
        r@.len() == tasks@.len(),
        forall|k: int| 0 <= k < r@.len() ==> is_list_row((#[trigger] r@[k])@, tasks@[k], statuses@, projects@),
{
    let status_list = status_name_list(statuses);
    let project_list = project_name_list(projects);
    let mut rows: Vec<Vec<String>> = Vec::new();
    let mut k: usize = 0;
    while k < tasks.len()
        invariant
            k <= tasks@.len(),
            times_renderable(tasks@),
            status_list@.map_values(|e: (String, String)| (e.0@, e.1@)) == status_names(statuses@),
            project_list@.map_values(|e: (String, String)| (e.0@, e.1@)) == project_names(projects@),
            rows@.len() == k,
            forall|j: int| 0 <= j < k ==> is_list_row((#[trigger] rows@[j])@, tasks@[j], statuses@, projects@),
        decreases tasks@.len() - k,
    {
        let t = &tasks[k];
        let status_name = match t.status_id {
            Some(sid) => Some(lookup_name(&status_list, sid.to_string())),
            None => None,
        };
        let mut row: Vec<String> = Vec::new();
        row.push(t.id.to_string());
        row.push(t.name.clone());
        row.push(opt(status_name));
        row.push(lookup_name(&project_list, t.project_id.to_string()));
        proof {
            assert(renderable(tasks@[k as int].created_at_millis));
        }
        row.push(time(t.created_at_millis));
        rows.push(row);
        k = k + 1;
    }
    rows
}

/// The key-value block showing one task.
pub fn show_pairs(t: &Task) -> (r: Vec<(&'static str, String)>)
    requires
        renderable(t.created_at_millis),
    ensures
        r@.len() == 7,
        r@[0].0@ == "id"@ && r@[0].1@ == t.id.text(),
        r@[1].0@ == "name"@ && r@[1].1@ == t.name@,
        r@[2].0@ == "project"@ && r@[2].1@ == t.project_id.text(),
        r@[3].0@ == "status"@ && r@[3].1@ == shown(
            match t.status_id {
                Some(s) => Some(s.text()),
                None => None,
            },
        ),
        r@[4].0@ == "closed"@ && r@[4].1@ == (if t.closed { "true"@ } else { "false"@ }),
        r@[5].0@ == "created"@ && (t.created_at_millis is None ==> r@[5].1@ == ABSENT@),
        t.created_at_millis is Some ==> time_layout(r@[5].1@),
        r@[6].0@ == "description"@ && r@[6].1@ == shown(Some(t.description@)),
{
    let status = match t.status_id {
        Some(s) => Some(s.to_string()),
        None => None,
    };
    let mut pairs: Vec<(&'static str, String)> = Vec::new();
    pairs.push(("id", t.id.to_string()));
    pairs.push(("name", t.name.clone()));
    pairs.push(("project", t.project_id.to_string()));
    pairs.push(("status", opt(status)));
    pairs.push(("closed", bool_text(t.closed)));
    pairs.push(("created", time(t.created_at_millis)));
    pairs.push(("description", opt(Some(t.description.clone()))));
    pairs
}

/// One entry of a task's history as the daemon reports it.
#[derive(Debug)]
pub struct HistoryEntry {
    /// The decoded creation time, if it is a whole number.
    pub created_at_millis: Option<u64>,
    /// The event's type tag, if it is a string.
    pub kind: Option<String>,
    /// The payload's fields, if it is an object.
    pub payload: Option<Vec<(String, PayloadValue)>>,
}

/// Whether `row` shows `e`: time, event type (`?` when missing) and payload
/// summary.
pub open spec fn is_history_row(row: Seq<String>, e: HistoryEntry) -> bool {
    &&& row.len() == 3
    &&& e.created_at_millis is None ==> row[0]@ == ABSENT@
    &&& e.created_at_millis is Some ==> time_layout(row[0]@)
    &&& row[1]@ == match e.kind {
        Some(k) => k@,
        None => "?"@,
    }
    &&& row[2]@ == match e.payload {
        Some(f) => fields_text(f@),
        None => Seq::empty(),
    }
}

/// The rows of a task's history: `TIME  EVENT  DETAILS`.
pub fn history_rows(entries: &Vec<HistoryEntry>) -> (r: Vec<Vec<String>>)
    requires
        forall|k: int| 0 <= k < entries@.len() ==> renderable((#[trigger] entries@[k]).created_at_millis),
    ensures
        r@.len() == entries@.len(),
        forall|k: int| 0 <= k < r@.len() ==> is_history_row((#[trigger] r@[k])@, entries@[k]),
{
    let mut rows: Vec<Vec<String>> = Vec::new();
    let mut k: usize = 0;
    while k < entries.len()
        invariant
            k <= entries@.len(),
            forall|j: int| 0 <= j < entries@.len() ==> renderable((#[trigger] entries@[j]).created_at_millis),
            rows@.len() == k,
            forall|j: int| 0 <= j < k ==> is_history_row((#[trigger] rows@[j])@, entries@[j]),
        decreases entries@.len() - k,
    {
        let e = &entries[k];
        proof {
            assert(renderable(entries@[k as int].created_at_millis));
        }
        let mut row: Vec<String> = Vec::new();
        row.push(time(e.created_at_millis));
        row.push(
            match &e.kind {
                Some(kind) => kind.clone(),
                None => String::from_str("?"),
            },
        );
        row.push(payload(e.payload.as_ref()));
        rows.push(row);
        k = k + 1;
    }
    rows
}

/// Each command on one task reaches a route of its own: showing it, its
/// history, renaming, moving, closing, reopening, setting its status and
/// describing it all go to different daemon paths, so no command can stand
/// in for another (reopening a task never closes it).
pub proof fn lemma_task_commands_reach_distinct_routes(
    ws: Seq<char>,
    id: String,
    new_name: String,
    project: String,
    status: Option<String>,
    clear: bool,
    description: String,
)
    ensures
        seq![
            route(Cmd::Show { id }, ws).path,
            route(Cmd::History { id }, ws).path,
            route(Cmd::Rename { id, new_name }, ws).path,
            route(Cmd::Move { id, project }, ws).path,
            route(Cmd::Close { id }, ws).path,
            route(Cmd::Reopen { id }, ws).path,
            route(Cmd::Status { id, status, clear }, ws).path,
            route(Cmd::Describe { id, description }, ws).path,
        ].no_duplicates(),
{
    reveal_strlit("/events");
    reveal_strlit("/rename");
    reveal_strlit("/move");
    reveal_strlit("/close");
    reveal_strlit("/reopen");
    reveal_strlit("/status");
    reveal_strlit("/description");
    let head = "/tasks/"@ + id@;
    let tails: Seq<Seq<char>> = seq![
        Seq::<char>::empty(),
        "/events"@,
        "/rename"@,
        "/move"@,
        "/close"@,
        "/reopen"@,
        "/status"@,
        "/description"@,
    ];
    assert(tails[1][1] == 'e' && tails[2][1] == 'r' && tails[2][3] == 'n' && tails[3][1] == 'm');
    assert(tails[4][1] == 'c' && tails[5][1] == 'r' && tails[5][3] == 'o' && tails[6][1] == 's');
    assert(tails[7][1] == 'd');
    assert forall|i: int, j: int| 0 <= i < 8 && 0 <= j < 8 && i != j implies #[trigger] tails[i] != #[trigger] tails[j] by {
        if tails[i].len() == tails[j].len() && tails[i].len() > 1 {
            if tails[i][1] == tails[j][1] {
                assert(tails[i][3] != tails[j][3]);
            } else {
                assert(tails[i][1] != tails[j][1]);
            }
        }
    }
    let paths = seq![
        route(Cmd::Show { id }, ws).path,
        route(Cmd::History { id }, ws).path,
        route(Cmd::Rename { id, new_name }, ws).path,
        route(Cmd::Move { id, project }, ws).path,
        route(Cmd::Close { id }, ws).path,
        route(Cmd::Reopen { id }, ws).path,
        route(Cmd::Status { id, status, clear }, ws).path,
        route(Cmd::Describe { id, description }, ws).path,
    ];
    assert(head + Seq::<char>::empty() =~= head);
    assert forall|i: int| 0 <= i < 8 implies #[trigger] paths[i] == head + tails[i] by {}
    assert forall|i: int, j: int| 0 <= i < 8 && 0 <= j < 8 && i != j implies paths[i] != paths[j] by {
        assert(tails[i] != tails[j]);
        lemma_distinct_tails(head, tails[i], tails[j]);
    }
}

/// The terminal and desktop clients ask the daemon the same thing for the
/// same change to a task: closing, reopening, moving and setting the status
/// of a task each go to the same method, path and query from either client.
pub proof fn lemma_clients_agree_on_task_routes(
    ws: Seq<char>,
    id: String,
    task_id: TaskId,
    project: String,
    project_id: ProjectId,
    status: Option<String>,
    status_id: Option<StatusId>,
)
    requires
        id@ == task_id.text(),
        project@ == project_id.text(),
        opt_view(status) == (match status_id {
            Some(s) => Some(s.text()),
            None => None::<Seq<char>>,
        }),
    ensures
        route(Cmd::Close { id }, ws).path == route_of(Request::CloseTask { task_id }, ws).path,
        route(Cmd::Close { id }, ws).method == route_of(Request::CloseTask { task_id }, ws).method,
        route(Cmd::Close { id }, ws).query == route_of(Request::CloseTask { task_id }, ws).query,
        route(Cmd::Reopen { id }, ws).path == route_of(Request::ReopenTask { task_id }, ws).path,
        route(Cmd::Reopen { id }, ws).method == route_of(Request::ReopenTask { task_id }, ws).method,
        route(Cmd::Reopen { id }, ws).query == route_of(Request::ReopenTask { task_id }, ws).query,
        route(Cmd::Move { id, project }, ws) == route_of(Request::MoveTask { task_id, project_id }, ws),
        route(Cmd::Status { id, status, clear: status is None }, ws) == route_of(
            Request::SetTaskStatus { task_id, status_id },
            ws,
        ),
{
}

} // verus!
