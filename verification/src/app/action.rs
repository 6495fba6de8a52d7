//! Actions: the intents the UI can dispatch, and how the state machine turns
//! each into a change of selection or a request for the tasks daemon.

use vstd::prelude::*;

use crate::app::state::{opt_path, AppError, AppState};
use crate::projections::project::ProjectId;
use crate::projections::status::{StatusId, StatusKind};
use crate::projections::task::TaskId;
use crate::shared::id::EventId;

verus! {

/// An intent sent from the UI. The app reduces it against the current
/// [`AppState`] and then renders a fresh view.
#[allow(inconsistent_fields)]
#[derive(Debug)]
pub enum Action {
    /// Open the native folder picker and enter the chosen workspace. The
    /// picker itself is a platform concern; the chosen folder is then opened
    /// like [`Action::OpenWorkspace`].
    PickWorkspace,
    /// Open a workspace directly by path (used for recent-repos shortcuts).
    OpenWorkspace { path: String },
    /// Leave the workspace, returning to the select-repo screen.
    CloseWorkspace,
    /// Open a project's task list.
    OpenProject { project_id: ProjectId },
    /// Return from a project's task list to the project list.
    CloseProject,
    /// Create a project in the open workspace; stays on the project list.
    CreateProject { name: String },
    /// Rename an existing project.
    RenameProject { project_id: ProjectId, new_name: String },
    /// Archive (close) a project.
    ArchiveProject { project_id: ProjectId },
    /// Restore (reopen) an archived project.
    RestoreProject { project_id: ProjectId },
    /// Create a task in the open project; stays on its task list.
    CreateTask { name: String },
    /// Rename an existing task.
    RenameTask { task_id: TaskId, new_name: String },
    /// Move a task to a different project.
    MoveTask { task_id: TaskId, project_id: ProjectId },
    /// Close (complete or archive) a task.
    CloseTask { task_id: TaskId },
    /// Reopen a previously closed task.
    ReopenTask { task_id: TaskId },
    /// Open a task's detail view.
    OpenTask { task_id: TaskId },
    /// Return from a task's detail view to the task list.
    CloseTaskDetail,
    /// Update the markdown description of a task (appends a new event).
    UpdateTaskDescription { task_id: TaskId, description: String },
    /// Overwrite a specific `description_updated` event in place.
    UpdateTaskDescriptionInPlace { task_id: TaskId, event_id: EventId, description: String },
    /// Overwrite a specific `renamed` event in place.
    RenameTaskInPlace { task_id: TaskId, event_id: EventId, new_name: String },
    /// Set (or clear, with `None`) the status of a task.
    SetTaskStatus { task_id: TaskId, status_id: Option<StatusId> },
    /// Create a workflow status in the open workspace.
    CreateStatus { name: String, kind: StatusKind, description: Option<String> },
    /// Rename an existing status.
    RenameStatus { status_id: StatusId, new_name: String },
    /// Update the description of a status (`None` clears it).
    UpdateStatusDescription { status_id: StatusId, description: Option<String> },
    /// Change the semantic kind of a status.
    ChangeStatusKind { status_id: StatusId, new_kind: StatusKind },
    /// Soft-remove a status.
    RemoveStatus { status_id: StatusId },
}

/// One data operation for the tasks daemon, on the open workspace.
#[allow(inconsistent_fields)]
#[derive(Debug)]
pub enum Request {
    CreateProject { name: String },
    RenameProject { project_id: ProjectId, new_name: String },
    CloseProject { project_id: ProjectId },
    ReopenProject { project_id: ProjectId },
    CreateTask { project_id: ProjectId, name: String },
    /// With an `event_id`, overwrites that `renamed` event in place.
    RenameTask { task_id: TaskId, new_name: String, event_id: Option<EventId> },
    MoveTask { task_id: TaskId, project_id: ProjectId },
    CloseTask { task_id: TaskId },
    ReopenTask { task_id: TaskId },
    SetTaskStatus { task_id: TaskId, status_id: Option<StatusId> },
    /// With an `event_id`, overwrites that `description_updated` event in
    /// place.
    UpdateTaskDescription { task_id: TaskId, description: String, event_id: Option<EventId> },
    CreateStatus { name: String, kind: StatusKind, description: Option<String> },
    RenameStatus { status_id: StatusId, new_name: String },
    UpdateStatusDescription { status_id: StatusId, description: Option<String> },
    ChangeStatusKind { status_id: StatusId, new_kind: StatusKind },
    RemoveStatus { status_id: StatusId },
}

/// What the app does next for an action.
#[derive(Debug)]
pub enum Step {
    /// Nothing to ask of anyone: render the new state.
    Render,
    /// Ask the user for a folder, then open it as [`Action::OpenWorkspace`].
    PickFolder,
    /// Ask the daemon to find or create the `.tasks` folder in `root`; when it
    /// succeeds, enter it with [`AppState::open_workspace`].
    OpenWorkspace { root: String },
    /// Send `request` for the workspace rooted at `workspace`, then render.
    Send { workspace: String, request: Request },
}

/// Whether an action only moves around the app (no daemon data operation).
pub open spec fn is_navigation(action: Action) -> bool {
    ||| action is PickWorkspace
    ||| action is OpenWorkspace
    ||| action is CloseWorkspace
    ||| action is OpenProject
    ||| action is CloseProject
    ||| action is OpenTask
    ||| action is CloseTaskDetail
}

/// The daemon request a data action becomes, with `project` the selected
/// project (used by [`Action::CreateTask`]).
pub open spec fn request_for(action: Action, project: ProjectId) -> Request {
    match action {
        Action::CreateProject { name } => Request::CreateProject { name },
        Action::RenameProject { project_id, new_name } => Request::RenameProject { project_id, new_name },
        Action::ArchiveProject { project_id } => Request::CloseProject { project_id },
        Action::RestoreProject { project_id } => Request::ReopenProject { project_id },
        Action::CreateTask { name } => Request::CreateTask { project_id: project, name },
        Action::RenameTask { task_id, new_name } => Request::RenameTask { task_id, new_name, event_id: None },
        Action::MoveTask { task_id, project_id } => Request::MoveTask { task_id, project_id },
        Action::CloseTask { task_id } => Request::CloseTask { task_id },
        Action::ReopenTask { task_id } => Request::ReopenTask { task_id },
        Action::UpdateTaskDescription { task_id, description } => Request::UpdateTaskDescription {
            task_id,
            description,
            event_id: None,
        },
        Action::UpdateTaskDescriptionInPlace { task_id, event_id, description } =>
            Request::UpdateTaskDescription { task_id, description, event_id: Some(event_id) },
        Action::RenameTaskInPlace { task_id, event_id, new_name } => Request::RenameTask {
            task_id,
            new_name,
            event_id: Some(event_id),
        },
        Action::SetTaskStatus { task_id, status_id } => Request::SetTaskStatus { task_id, status_id },
        Action::CreateStatus { name, kind, description } => Request::CreateStatus { name, kind, description },
        Action::RenameStatus { status_id, new_name } => Request::RenameStatus { status_id, new_name },
        Action::UpdateStatusDescription { status_id, description } => Request::UpdateStatusDescription {
            status_id,
            description,
        },
        Action::ChangeStatusKind { status_id, new_kind } => Request::ChangeStatusKind { status_id, new_kind },
        Action::RemoveStatus { status_id } => Request::RemoveStatus { status_id },
        _ => Request::CreateProject { name: vstd::pervasive::arbitrary() },
    }
}

/// Whether `r` answers the data action `action` on a state whose workspace
/// and selected project are `workspace` and `project`.
pub open spec fn data_step(
    action: Action,
    workspace: Option<Seq<char>>,
    project: Option<ProjectId>,
    r: Result<Step, AppError>,
) -> bool {
    if action is CreateTask && project is None {
        r == Err::<Step, AppError>(AppError::NoProjectSelected)
    } else if workspace is None {
        r == Err::<Step, AppError>(AppError::NoWorkspace)
    } else {
        r matches Ok(Step::Send { workspace: w, request }) && Some(w@) == workspace && request
            == request_for(action, project.unwrap_or(ProjectId(0)))
    }
}

/// Whether `after` has the same open workspace and recents as `before`.
pub open spec fn keeps_workspace(before: AppState, after: AppState) -> bool {
    after.workspace == before.workspace && after.recent_workspaces == before.recent_workspaces
}

impl AppState {
    /// Reduces `action` against the state.
    ///
    /// Navigation actions change the selection (opening a workspace waits for
    /// the daemon, so it becomes a [`Step::OpenWorkspace`]); data actions need
    /// an open workspace (and creating a task an open project), leave the
    /// state as it is, and become the matching daemon [`Request`].
    pub fn dispatch(&mut self, action: Action) -> (r: Result<Step, AppError>)
        ensures
            !is_navigation(action) ==> *final(self) == *old(self) && data_step(
                action,
                opt_path(old(self).workspace),
                old(self).selected_project,
                r,
            ),
            is_navigation(action) ==> r is Ok,
            action is PickWorkspace ==> *final(self) == *old(self) && r matches Ok(Step::PickFolder),
            action matches Action::OpenWorkspace { path } ==> *final(self) == *old(self) && (r matches Ok(
                Step::OpenWorkspace { root },
            ) && root == path),
            action is CloseWorkspace ==> final(self).workspace is None && final(self).selected_project
                is None && final(self).selected_task is None && final(self).recent_workspaces
                == old(self).recent_workspaces && r matches Ok(Step::Render),
            action matches Action::OpenProject { project_id } ==> final(self).selected_project == Some(
                project_id,
            ) && final(self).selected_task is None && keeps_workspace(*old(self), *final(self))
                && r matches Ok(Step::Render),
            action is CloseProject ==> final(self).selected_project is None && final(self).selected_task
                is None && keeps_workspace(*old(self), *final(self)) && r matches Ok(Step::Render),
            action matches Action::OpenTask { task_id } ==> final(self).selected_task == Some(task_id)
                && final(self).selected_project == old(self).selected_project && keeps_workspace(
                *old(self),
                *final(self),
            ) && r matches Ok(Step::Render),
            action is CloseTaskDetail ==> final(self).selected_task is None && final(self).selected_project
                == old(self).selected_project && keeps_workspace(*old(self), *final(self)) && r matches Ok(
                Step::Render,
            ),
    {
        let request = match action {
            Action::PickWorkspace => {
                return Ok(Step::PickFolder);
            },
            Action::OpenWorkspace { path } => {
                return Ok(Step::OpenWorkspace { root: path });
            },
            Action::CloseWorkspace => {
                self.workspace = None;
                self.selected_project = None;
                self.selected_task = None;
                return Ok(Step::Render);
            },
            Action::OpenProject { project_id } => {
                self.selected_project = Some(project_id);
                self.selected_task = None;
                return Ok(Step::Render);
            },
            Action::CloseProject => {
                self.selected_project = None;
                self.selected_task = None;
                return Ok(Step::Render);
            },
            Action::OpenTask { task_id } => {
                self.selected_task = Some(task_id);
                return Ok(Step::Render);
            },
            Action::CloseTaskDetail => {
                self.selected_task = None;
                return Ok(Step::Render);
            },
            Action::CreateProject { name } => Request::CreateProject { name },
            Action::RenameProject { project_id, new_name } => Request::RenameProject { project_id, new_name },
            Action::ArchiveProject { project_id } => Request::CloseProject { project_id },
            Action::RestoreProject { project_id } => Request::ReopenProject { project_id },
            Action::CreateTask { name } => match self.selected_project {
                Some(project_id) => Request::CreateTask { project_id, name },
                None => {
                    return Err(AppError::NoProjectSelected);
                },
            },
            Action::RenameTask { task_id, new_name } => Request::RenameTask { task_id, new_name, event_id: None },
            Action::MoveTask { task_id, project_id } => Request::MoveTask { task_id, project_id },
            Action::CloseTask { task_id } => Request::CloseTask { task_id },
            Action::ReopenTask { task_id } => Request::ReopenTask { task_id },
            Action::UpdateTaskDescription { task_id, description } => Request::UpdateTaskDescription {
                task_id,
                description,
                event_id: None,
            },
            Action::UpdateTaskDescriptionInPlace { task_id, event_id, description } =>
                Request::UpdateTaskDescription { task_id, description, event_id: Some(event_id) },
            Action::RenameTaskInPlace { task_id, event_id, new_name } => Request::RenameTask {
                task_id,
                new_name,
                event_id: Some(event_id),
            },
            Action::SetTaskStatus { task_id, status_id } => Request::SetTaskStatus { task_id, status_id },
            Action::CreateStatus { name, kind, description } => Request::CreateStatus { name, kind, description },
            Action::RenameStatus { status_id, new_name } => Request::RenameStatus { status_id, new_name },
            Action::UpdateStatusDescription { status_id, description } =>
                Request::UpdateStatusDescription { status_id, description },
            Action::ChangeStatusKind { status_id, new_kind } => Request::ChangeStatusKind { status_id, new_kind },
            Action::RemoveStatus { status_id } => Request::RemoveStatus { status_id },
        };
        match &self.workspace {
            Some(root) => Ok(Step::Send { workspace: root.clone(), request }),
            None => Err(AppError::NoWorkspace),
        }
    }
}

} // verus!
