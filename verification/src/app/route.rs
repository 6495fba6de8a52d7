//! The daemon route each request of the desktop client maps onto.

use vstd::prelude::*;

use crate::app::action::Request;
use crate::cli::command::{
    entity_path, field_view, kind_name, opt_field, opt_view, scoped_query, workspace_query, Call, CallView,
    Field, Method,
};
use crate::projections::status::{StatusId, StatusKind};
use crate::shared::id::EventId;

verus! {

/// The text of an optional status ID (`None` for null).
pub open spec fn status_text(id: Option<StatusId>) -> Option<Seq<char>> {
    match id {
        Some(s) => Some(s.text()),
        None => None,
    }
}

/// The text of an optional event ID (`None` for null).
pub open spec fn event_text(id: Option<EventId>) -> Option<Seq<char>> {
    match id {
        Some(e) => Some(e.text()),
        None => None,
    }
}

/// The daemon call a request makes for the workspace `ws`.
pub open spec fn route_of(request: Request, ws: Seq<char>) -> CallView {
    let q = scoped_query(ws, Seq::empty(), false);
    let post = |path: Seq<char>, body: Seq<(Seq<char>, Option<Seq<char>>)>|
        CallView { method: Method::Post, path, query: q, body: Some(body) };
    match request {
        Request::CreateProject { name } => post("/projects"@, seq![("name"@, Some(name@))]),
        Request::RenameProject { project_id, new_name } => post(
            "/projects/"@ + project_id.text() + "/rename"@,
            seq![("new_name"@, Some(new_name@))],
        ),
        Request::CloseProject { project_id } => post("/projects/"@ + project_id.text() + "/close"@, seq![]),
        Request::ReopenProject { project_id } => post("/projects/"@ + project_id.text() + "/reopen"@, seq![]),
        Request::CreateTask { project_id, name } => post(
            "/tasks"@,
            seq![("project_id"@, Some(project_id.text())), ("name"@, Some(name@))],
        ),
        Request::RenameTask { task_id, new_name, event_id } => post(
            "/tasks/"@ + task_id.text() + "/rename"@,
            seq![("new_name"@, Some(new_name@)), ("event_id"@, event_text(event_id))],
        ),
        Request::MoveTask { task_id, project_id } => post(
            "/tasks/"@ + task_id.text() + "/move"@,
            seq![("project_id"@, Some(project_id.text()))],
        ),
        Request::CloseTask { task_id } => post("/tasks/"@ + task_id.text() + "/close"@, seq![]),
        Request::ReopenTask { task_id } => post("/tasks/"@ + task_id.text() + "/reopen"@, seq![]),
        Request::SetTaskStatus { task_id, status_id } => post(
            "/tasks/"@ + task_id.text() + "/status"@,
            seq![("status_id"@, status_text(status_id))],
        ),
        Request::UpdateTaskDescription { task_id, description, event_id } => post(
            "/tasks/"@ + task_id.text() + "/description"@,
            seq![("description"@, Some(description@)), ("event_id"@, event_text(event_id))],
        ),
        Request::CreateStatus { name, kind, description } => post(
            "/statuses"@,
            seq![("name"@, Some(name@)), ("kind"@, Some(kind_name(kind))), ("description"@, opt_view(description))],
        ),
        Request::RenameStatus { status_id, new_name } => post(
            "/statuses/"@ + status_id.text() + "/rename"@,
            seq![("new_name"@, Some(new_name@))],
        ),
        Request::UpdateStatusDescription { status_id, description } => post(
            "/statuses/"@ + status_id.text() + "/description"@,
            seq![("description"@, opt_view(description))],
        ),
        Request::ChangeStatusKind { status_id, new_kind } => post(
            "/statuses/"@ + status_id.text() + "/kind"@,
            seq![("new_kind"@, Some(kind_name(new_kind)))],
        ),
        Request::RemoveStatus { status_id } => post("/statuses/"@ + status_id.text() + "/remove"@, seq![]),
    }
}

/// The wire name of a status kind.
fn kind_text(kind: StatusKind) -> (r: &'static str)
    ensures
        r@ == kind_name(kind),
{
    crate::cli::command::kind_str(&kind)
}

/// A body field holding an optional ID text (null when absent).
fn id_field(text: Option<String>) -> (r: Field)
    ensures
        field_view(r) == opt_view(text),
{
    match text {
        Some(t) => Field::Text(t),
        None => Field::Null,
    }
}

/// The text of an optional event ID.
fn event_id_text(id: Option<EventId>) -> (r: Option<String>)
    ensures
        opt_view(r) == event_text(id),
{
    match id {
        Some(e) => Some(e.to_string()),
        None => None,
    }
}

/// The text of an optional status ID.
fn status_id_text(id: Option<StatusId>) -> (r: Option<String>)
    ensures
        opt_view(r) == status_text(id),
{
    match id {
        Some(s) => Some(s.to_string()),
        None => None,
    }
}

/// A body with the given fields, in order.
fn body_of(entries: Vec<(&str, Field)>) -> (r: Vec<(String, Field)>)
    ensures
        r@.map_values(|f: (String, Field)| (f.0@, field_view(f.1))) == entries@.map_values(
            |f: (&str, Field)| (f.0@, field_view(f.1)),
        ),
{
    let ghost src = entries@;
    let mut out: Vec<(String, Field)> = Vec::new();
    let mut rest = entries;
    let mut i: usize = 0;
    let n = rest.len();
    while i < n
        invariant
            n == src.len(),
            i <= n,
            rest@ == src.skip(i as int),
            out@.map_values(|f: (String, Field)| (f.0@, field_view(f.1))) == src.take(i as int).map_values(
                |f: (&str, Field)| (f.0@, field_view(f.1)),
            ),
        decreases n - i,
    {
        let (key, value) = rest.remove(0);
        let ghost before = out@;
        out.push((String::from_str(key), value));
        proof {
            assert(src.skip(i as int)[0] == src[i as int]);
            assert(rest@ =~= src.skip(i + 1));
            assert(src.take(i + 1) =~= src.take(i as int).push(src[i as int]));
            assert(out@.map_values(|f: (String, Field)| (f.0@, field_view(f.1))) =~= before.map_values(
                |f: (String, Field)| (f.0@, field_view(f.1)),
            ).push((key@, field_view(value))));
        }
        i = i + 1;
    }
    proof {
        assert(src.take(n as int) =~= src);
    }
    out
}

impl Request {
    /// The daemon call this request makes for the workspace rooted at `ws`.
    pub fn call(self, ws: &str) -> (r: Call)
        ensures
            r.spec_view() == route_of(self, ws@),
    {
        let ghost req = self;
        let (path, entries): (String, Vec<(&str, Field)>) = match self {
            Request::CreateProject { name } => (String::from_str("/projects"), vec![("name", Field::Text(name))]),
            Request::RenameProject { project_id, new_name } => (
                entity_path("/projects/", project_id.to_string().as_str(), "/rename"),
                vec![("new_name", Field::Text(new_name))],
            ),
            Request::CloseProject { project_id } => (
                entity_path("/projects/", project_id.to_string().as_str(), "/close"),
                vec![],
            ),
            Request::ReopenProject { project_id } => (
                entity_path("/projects/", project_id.to_string().as_str(), "/reopen"),
                vec![],
            ),
            Request::CreateTask { project_id, name } => (
                String::from_str("/tasks"),
                vec![("project_id", Field::Text(project_id.to_string())), ("name", Field::Text(name))],
            ),
            Request::RenameTask { task_id, new_name, event_id } => (
                entity_path("/tasks/", task_id.to_string().as_str(), "/rename"),
                vec![("new_name", Field::Text(new_name)), ("event_id", id_field(event_id_text(event_id)))],
            ),
            Request::MoveTask { task_id, project_id } => (
                entity_path("/tasks/", task_id.to_string().as_str(), "/move"),
                vec![("project_id", Field::Text(project_id.to_string()))],
            ),
            Request::CloseTask { task_id } => (entity_path("/tasks/", task_id.to_string().as_str(), "/close"), vec![]),
            Request::ReopenTask { task_id } => (
                entity_path("/tasks/", task_id.to_string().as_str(), "/reopen"),
                vec![],
            ),
            Request::SetTaskStatus { task_id, status_id } => (
                entity_path("/tasks/", task_id.to_string().as_str(), "/status"),
                vec![("status_id", id_field(status_id_text(status_id)))],
            ),
            Request::UpdateTaskDescription { task_id, description, event_id } => (
                entity_path("/tasks/", task_id.to_string().as_str(), "/description"),
                vec![("description", Field::Text(description)), ("event_id", id_field(event_id_text(event_id)))],
            ),
            Request::CreateStatus { name, kind, description } => {
                let d = opt_field(&description);
                (
                    String::from_str("/statuses"),
                    vec![("name", Field::Text(name)), ("kind", Field::Text(String::from_str(kind_text(kind)))), ("description", d)],
                )
            },
            Request::RenameStatus { status_id, new_name } => (
                entity_path("/statuses/", status_id.to_string().as_str(), "/rename"),
                vec![("new_name", Field::Text(new_name))],
            ),
            Request::UpdateStatusDescription { status_id, description } => {
                let d = opt_field(&description);
                (entity_path("/statuses/", status_id.to_string().as_str(), "/description"), vec![("description", d)])
            },
            Request::ChangeStatusKind { status_id, new_kind } => (
                entity_path("/statuses/", status_id.to_string().as_str(), "/kind"),
                vec![("new_kind", Field::Text(String::from_str(kind_text(new_kind))))],
            ),
            Request::RemoveStatus { status_id } => (
                entity_path("/statuses/", status_id.to_string().as_str(), "/remove"),
                vec![],
            ),
        };
        proof {
            let want = route_of(req, ws@);
            assert(path@ =~= want.path);
            assert(entries@.map_values(|f: (&str, Field)| (f.0@, field_view(f.1))) =~= want.body.unwrap());
        }
        let body = body_of(entries);
        Call { method: Method::Post, path, query: workspace_query(ws), body: Some(body) }
    }
}

} // verus!
