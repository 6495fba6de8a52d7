//! The desktop client's navigable state: which workspace is open, what is
//! selected, and the recently opened workspaces.

use vstd::prelude::*;

use crate::projections::project::ProjectId;
use crate::projections::task::TaskId;
use crate::shared::text::{concat, decimal, decimal_text, str_eq, string_views, strip_prefix};

verus! {

/// How many recently opened workspaces are remembered.
pub const MAX_RECENTS: usize = 3;

/// The failures of the desktop client: its own (nothing open to act on)
/// and the daemon's.
#[derive(Debug, Clone, PartialEq, Eq)]
pub enum AppError {
    /// A data action needs an open workspace.
    NoWorkspace,
    /// Creating a task needs an open project.
    NoProjectSelected,
    /// The daemon answered with an error status; `message` is its own
    /// `{"error": …}` payload.
    Daemon { status: u16, message: String },
    /// The daemon could not be reached at all (most likely it isn't
    /// running), with the transport's message.
    DaemonUnreachable(String),
}

/// The text of a desktop client error, as shown to the user.
pub open spec fn app_error_text(e: AppError) -> Seq<char> {
    match e {
        AppError::NoWorkspace => "no workspace is open"@,
        AppError::NoProjectSelected => "no project is selected"@,
        AppError::Daemon { status, message } => message@,
        AppError::DaemonUnreachable(m) => "could not reach the tasks daemon: "@ + m@,
    }
}

impl AppError {
    /// The error's message.
    pub fn message(&self) -> (r: String)
        ensures
            r@ == app_error_text(*self),
    {
        match self {
            AppError::NoWorkspace => String::from_str("no workspace is open"),
            AppError::NoProjectSelected => String::from_str("no project is selected"),
            AppError::Daemon { status, message } => message.clone(),
            AppError::DaemonUnreachable(m) => concat("could not reach the tasks daemon: ", m.as_str()),
        }
    }
}

/// The message of an error status from the daemon: its own `error` text
/// when the body carried one, else a line naming the status.
pub open spec fn daemon_message(status: u16, error: Option<Seq<char>>) -> Seq<char> {
    match error {
        Some(text) => text,
        None => "daemon returned status "@ + decimal_text(status as nat),
    }
}

/// The error for a daemon answer with error status `status`, whose body's
/// `error` field held `error` (when it was a string).
pub fn daemon_error(status: u16, error: Option<String>) -> (r: AppError)
    ensures
        r matches AppError::Daemon { status: s, message } && s == status && message@ == daemon_message(
            status,
            match error {
                Some(e) => Some(e@),
                None => None,
            },
        ),
{
    let message = match error {
        Some(text) => text,
        None => {
            let digits = decimal(status as u64);
            concat("daemon returned status ", digits.as_str())
        },
    };
    AppError::Daemon { status, message }
}

/// The error for a successful answer whose body did not decode, with the
/// decoder's message.
pub fn bad_body(reason: &str) -> (r: AppError)
    ensures
        r matches AppError::Daemon { status, message } && status == 200 && message@ == "bad response body: "@
            + reason@,
{
    AppError::Daemon { status: 200, message: concat("bad response body: ", reason) }
}

/// Which screen to draw.
#[derive(Debug, Clone, Copy, PartialEq, Eq, Structural)]
pub enum Screen {
    /// No workspace open: the "Select Repo" prompt with the recents.
    SelectRepo,
    /// A workspace is open: its projects.
    Projects,
    /// A project is open: its tasks.
    Tasks(ProjectId),
    /// A task is open: its detail and changelog.
    TaskDetail(ProjectId, TaskId),
}

/// The entire navigable state of the app: which workspace is open, which
/// project and task (if any) are selected, and the recents list. The rendered
/// screen is derived from these fields plus what the daemon reports.
#[derive(Debug)]
pub struct AppState {
    pub workspace: Option<String>,
    pub selected_project: Option<ProjectId>,
    pub selected_task: Option<TaskId>,
    /// Recently opened workspace paths, most recent first.
    pub recent_workspaces: Vec<String>,
}

/// The recents list after opening `path`: `path` first, then the earlier
/// entries other than `path`, keeping at most [`MAX_RECENTS`].
pub open spec fn pushed_recents(old: Seq<Seq<char>>, path: Seq<char>) -> Seq<Seq<char>> {
    let all = seq![path] + old.filter(other_than(path));
    if all.len() > MAX_RECENTS {
        all.take(MAX_RECENTS as int)
    } else {
        all
    }
}

/// Whether a path is not `path`.
pub open spec fn other_than(path: Seq<char>) -> spec_fn(Seq<char>) -> bool {
    |p: Seq<char>| p != path
}

/// The text of an optional string.
pub open spec fn opt_path(s: Option<String>) -> Option<Seq<char>> {
    match s {
        Some(v) => Some(v@),
        None => None,
    }
}

impl AppState {
    /// A state with no workspace open, remembering `recent_workspaces` (most
    /// recent first), as loaded from where the recents are kept.
    pub fn with_recents(recent_workspaces: Vec<String>) -> (r: Self)
        ensures
            r.workspace is None,
            r.selected_project is None,
            r.selected_task is None,
            string_views(r.recent_workspaces@) == string_views(recent_workspaces@),
    {
        AppState { workspace: None, selected_project: None, selected_task: None, recent_workspaces }
    }

    /// Record `path` as the most recently opened workspace.
    pub fn push_recent(&mut self, path: &str)
        ensures
            string_views(final(self).recent_workspaces@) == pushed_recents(
                string_views(old(self).recent_workspaces@),
                path@,
            ),
            final(self).workspace == old(self).workspace,
            final(self).selected_project == old(self).selected_project,
            final(self).selected_task == old(self).selected_task,
    {
        let ghost old_views = string_views(self.recent_workspaces@);
        let ghost pred = other_than(path@);
        let mut out: Vec<String> = Vec::new();
        out.push(String::from_str(path));
        let mut k: usize = 0;
        while k < self.recent_workspaces.len()
            invariant
                k <= self.recent_workspaces@.len(),
                old_views == string_views(self.recent_workspaces@),
                pred == other_than(path@),
                string_views(out@) == seq![path@] + old_views.take(k as int).filter(pred),
            decreases self.recent_workspaces@.len() - k,
        {
            let p = &self.recent_workspaces[k];
            proof {
                assert(old_views[k as int] == p@);
                assert(old_views.take(k + 1) =~= old_views.take(k as int).push(p@));
                old_views.take(k as int).lemma_filter_push(p@, pred);
            }
            if !str_eq(p.as_str(), path) {
                let ghost before = string_views(out@);
                out.push(p.clone());
                proof {
                    assert(string_views(out@) =~= before.push(p@));
                }
            }
            k = k + 1;
        }
        proof {
            assert(old_views.take(self.recent_workspaces@.len() as int) =~= old_views);
        }
        let ghost all = string_views(out@);
        if out.len() > MAX_RECENTS {
            out.truncate(MAX_RECENTS);
            proof {
                assert(string_views(out@) =~= all.take(MAX_RECENTS as int));
            }
        }
        self.recent_workspaces = out;
    }

    /// Enter `root` as the open workspace (once the daemon has found or
    /// created its `.tasks` folder): records it in the recents and clears any
    /// selection.
    pub fn open_workspace(&mut self, root: &str)
        ensures
            opt_path(final(self).workspace) == Some(root@),
            final(self).selected_project is None,
            final(self).selected_task is None,
            string_views(final(self).recent_workspaces@) == pushed_recents(
                string_views(old(self).recent_workspaces@),
                root@,
            ),
    {
        self.push_recent(root);
        self.workspace = Some(String::from_str(root));
        self.selected_project = None;
        self.selected_task = None;
    }

    /// The first of the recent workspaces, most recent first, that `ready`
    /// marks as still on disk and scaffolded by the daemon.
    pub open spec fn first_ready(ready: Seq<bool>, k: int) -> Option<int>
        decreases ready.len() - k,
    {
        if k < 0 || k >= ready.len() {
            None
        } else if ready[k] {
            Some(k)
        } else {
            Self::first_ready(ready, k + 1)
        }
    }

    /// Opens the most recent workspace that is still usable: `ready[k]` says
    /// whether the `k`-th recent one still exists on disk and the daemon
    /// found or created its `.tasks` folder. When none is, nothing changes.
    pub fn try_open_most_recent(&mut self, ready: &Vec<bool>)
        requires
            ready@.len() == old(self).recent_workspaces@.len(),
        ensures
            match Self::first_ready(ready@, 0) {
                Some(k) => {
                    &&& opt_path(final(self).workspace) == Some(old(self).recent_workspaces@[k]@)
                    &&& final(self).selected_project is None
                    &&& final(self).selected_task is None
                    &&& string_views(final(self).recent_workspaces@) == pushed_recents(
                        string_views(old(self).recent_workspaces@),
                        old(self).recent_workspaces@[k]@,
                    )
                },
                None => *final(self) == *old(self),
            },
    {
        let mut k: usize = 0;
        while k < ready.len()
            invariant
                k <= ready@.len(),
                ready@.len() == self.recent_workspaces@.len(),
                *self == *old(self),
                Self::first_ready(ready@, 0) == Self::first_ready(ready@, k as int),
            decreases ready@.len() - k,
        {
            if ready[k] {
                let path = self.recent_workspaces[k].clone();
                self.open_workspace(path.as_str());
                return;
            }
            k = k + 1;
        }
    }

    /// Leave the workspace, returning to the select-repo screen.
    pub fn close_workspace(&mut self)
        ensures
            final(self).workspace is None,
            final(self).selected_project is None,
            final(self).selected_task is None,
            final(self).recent_workspaces@ == old(self).recent_workspaces@,
    {
        self.workspace = None;
        self.selected_project = None;
        self.selected_task = None;
    }

    /// Select a project, moving to its task list.
    pub fn open_project(&mut self, project_id: ProjectId)
        ensures
            final(self).selected_project == Some(project_id),
            final(self).selected_task is None,
            final(self).workspace == old(self).workspace,
            final(self).recent_workspaces@ == old(self).recent_workspaces@,
    {
        self.selected_project = Some(project_id);
        self.selected_task = None;
    }

    /// Deselect the project, returning to the project list.
    pub fn close_project(&mut self)
        ensures
            final(self).selected_project is None,
            final(self).selected_task is None,
            final(self).workspace == old(self).workspace,
            final(self).recent_workspaces@ == old(self).recent_workspaces@,
    {
        self.selected_project = None;
        self.selected_task = None;
    }

    /// Open a task's detail view.
    pub fn open_task(&mut self, task_id: TaskId)
        ensures
            final(self).selected_task == Some(task_id),
            final(self).selected_project == old(self).selected_project,
            final(self).workspace == old(self).workspace,
            final(self).recent_workspaces@ == old(self).recent_workspaces@,
    {
        self.selected_task = Some(task_id);
    }

    /// Return from task detail to the task list.
    pub fn close_task_detail(&mut self)
        ensures
            final(self).selected_task is None,
            final(self).selected_project == old(self).selected_project,
            final(self).workspace == old(self).workspace,
            final(self).recent_workspaces@ == old(self).recent_workspaces@,
    {
        self.selected_task = None;
    }

    /// The open workspace root, or [`AppError::NoWorkspace`].
    pub fn workspace(&self) -> (r: Result<&str, AppError>)
        ensures
            match r {
                Ok(root) => opt_path(self.workspace) == Some(root@),
                Err(e) => self.workspace is None && e is NoWorkspace,
            },
    {
        match &self.workspace {
            Some(root) => Ok(root.as_str()),
            None => Err(AppError::NoWorkspace),
        }
    }

    /// The recent workspace paths, most recent first.
    pub fn recent_workspaces_strings(&self) -> (r: Vec<String>)
        ensures
            string_views(r@) == string_views(self.recent_workspaces@),
    {
        let mut out: Vec<String> = Vec::new();
        let mut i: usize = 0;
        while i < self.recent_workspaces.len()
            invariant
                i <= self.recent_workspaces@.len(),
                string_views(out@) == string_views(self.recent_workspaces@).take(i as int),
            decreases self.recent_workspaces@.len() - i,
        {
            let ghost before = string_views(out@);
            out.push(self.recent_workspaces[i].clone());
            proof {
                assert(string_views(out@) =~= before.push(self.recent_workspaces@[i as int]@));
                assert(string_views(self.recent_workspaces@).take(i + 1) =~= string_views(
                    self.recent_workspaces@,
                ).take(i as int).push(self.recent_workspaces@[i as int]@));
            }
            i = i + 1;
        }
        proof {
            assert(string_views(self.recent_workspaces@).take(self.recent_workspaces@.len() as int)
                =~= string_views(self.recent_workspaces@));
        }
        out
    }

    /// The screen to draw: the select-repo prompt when no workspace is open;
    /// otherwise the deepest screen the selection asks for whose entities
    /// still exist (`project_found` and `task_found` report whether the
    /// selected project and task could be loaded), falling back to the task
    /// list and then the project list.
    pub fn screen(&self, project_found: bool, task_found: bool) -> (r: Screen)
        ensures
            self.workspace is None ==> r == Screen::SelectRepo,
            self.workspace is Some ==> r == (match (self.selected_project, self.selected_task) {
                (Some(p), Some(t)) => if project_found && task_found {
                    Screen::TaskDetail(p, t)
                } else if project_found {
                    Screen::Tasks(p)
                } else {
                    Screen::Projects
                },
                (Some(p), None) => if project_found {
                    Screen::Tasks(p)
                } else {
                    Screen::Projects
                },
                _ => Screen::Projects,
            }),
    {
        if self.workspace.is_none() {
            return Screen::SelectRepo;
        }
        match self.selected_project {
            Some(p) => {
                if !project_found {
                    return Screen::Projects;
                }
                match self.selected_task {
                    Some(t) => if task_found {
                        Screen::TaskDetail(p, t)
                    } else {
                        Screen::Tasks(p)
                    },
                    None => Screen::Tasks(p),
                }
            },
            None => Screen::Projects,
        }
    }
}

impl Default for AppState {
    fn default() -> (r: Self)
        ensures
            r.workspace is None,
            r.selected_project is None,
            r.selected_task is None,
            r.recent_workspaces@.len() == 0,
    {
        AppState { workspace: None, selected_project: None, selected_task: None, recent_workspaces: Vec::new() }
    }
}

/// The value after the first `--workspace` argument that has one after it.
pub open spec fn flag_from(args: Seq<Seq<char>>, i: int) -> Option<Seq<char>>
    decreases args.len() - i,
{
    if i < 0 || i + 1 >= args.len() {
        None
    } else if args[i] == "--workspace"@ {
        Some(args[i + 1])
    } else {
        flag_from(args, i + 1)
    }
}

/// The rest of the first argument from `i` on that starts with
/// `--workspace=`.
pub open spec fn prefixed_from(args: Seq<Seq<char>>, i: int) -> Option<Seq<char>>
    decreases args.len() - i,
{
    if i < 0 || i >= args.len() {
        None
    } else if "--workspace="@.is_prefix_of(args[i]) {
        Some(args[i].skip(12))
    } else {
        prefixed_from(args, i + 1)
    }
}

/// The workspace named on the command line: `--workspace <path>` (the first
/// such pair) or else `--workspace=<path>` (the first such argument).
pub open spec fn workspace_arg(args: Seq<Seq<char>>) -> Option<Seq<char>> {
    match flag_from(args, 0) {
        Some(v) => Some(v),
        None => prefixed_from(args, 0),
    }
}

/// The workspace to open at launch, taken from the program's arguments.
pub fn workspace_from_args(args: &Vec<String>) -> (r: Option<String>)
    ensures
        opt_path(r) == workspace_arg(string_views(args@)),
{
    proof {
        reveal_strlit("--workspace");
        reveal_strlit("--workspace=");
    }
    let ghost a = string_views(args@);
    let n = args.len();
    let mut i: usize = 0;
    while n > 0 && i < n - 1
        invariant
            n == args@.len(),
            i <= n,
            a == string_views(args@),
            flag_from(a, 0) == flag_from(a, i as int),
        decreases n - i,
    {
        if str_eq(args[i].as_str(), "--workspace") {
            proof {
                assert(a[i as int] == args@[i as int]@);
                assert(a[i + 1] == args@[i + 1]@);
            }
            return Some(args[i + 1].clone());
        }
        proof {
            assert(a[i as int] == args@[i as int]@);
        }
        i = i + 1;
    }
    let mut j: usize = 0;
    while j < n
        invariant
            n == args@.len(),
            a == string_views(args@),
            flag_from(a, 0) is None,
            prefixed_from(a, 0) == prefixed_from(a, j as int),
        decreases n - j,
    {
        proof {
            assert(a[j as int] == args@[j as int]@);
        }
        match strip_prefix(args[j].as_str(), "--workspace=") {
            Some(rest) => {
                proof {
                    reveal_strlit("--workspace=");
                    assert("--workspace="@.len() == 12);
                    assert(prefixed_from(a, j as int) == Some(a[j as int].skip(12)));
                    assert(workspace_arg(a) == prefixed_from(a, 0));
                }
                let r = String::from_str(rest);
                proof {
                    assert(opt_path(Some(r)) == Some(rest@));
                }
                return Some(r);
            },
            None => {},
        }
        j = j + 1;
    }
    None
}

/// Opening a workspace puts it first among at most [`MAX_RECENTS`] recents,
/// each listed once.
pub proof fn lemma_recents_after_push(old: Seq<Seq<char>>, path: Seq<char>)
    requires
        old.no_duplicates(),
    ensures
        pushed_recents(old, path).len() <= MAX_RECENTS,
        pushed_recents(old, path)[0] == path,
        pushed_recents(old, path).no_duplicates(),
        forall|p: Seq<char>| #[trigger] pushed_recents(old, path).contains(p) ==> p == path || old.contains(p),
{
    broadcast use vstd::seq_lib::group_filter_ensures;

    let pred = other_than(path);
    let f = old.filter(pred);
    let all = seq![path] + f;
    assert(all[0] == path);
    assert(f.no_duplicates()) by {
        lemma_filter_no_duplicates(old, pred);
    }
    assert(all.no_duplicates()) by {
        assert forall|i: int, j: int| 0 <= i < all.len() && 0 <= j < all.len() && i != j implies all[i] != all[j] by {
            if i == 0 && j > 0 {
                assert(all[j] == f[j - 1]);
                assert(pred(f[j - 1]));
            } else if j == 0 && i > 0 {
                assert(all[i] == f[i - 1]);
                assert(pred(f[i - 1]));
            } else if i > 0 && j > 0 {
                assert(all[i] == f[i - 1] && all[j] == f[j - 1]);
            }
        }
    }
    let r = pushed_recents(old, path);
    assert(r.len() <= all.len());
    assert(forall|k: int| 0 <= k < r.len() ==> r[k] == all[k]);
    assert(r.no_duplicates()) by {
        assert forall|i: int, j: int| 0 <= i < r.len() && 0 <= j < r.len() && i != j implies r[i] != r[j] by {
            assert(r[i] == all[i] && r[j] == all[j]);
        }
    }
    assert forall|p: Seq<char>| #[trigger] r.contains(p) implies p == path || old.contains(p) by {
        let k = choose|k: int| 0 <= k < r.len() && r[k] == p;
        assert(all[k] == p);
        if k > 0 {
            assert(f[k - 1] == p);
            assert(f.contains(p));
            lemma_filter_members(old, pred, p);
        }
    }
}

/// What a filter keeps is in the list and passes the filter.
proof fn lemma_filter_members(s: Seq<Seq<char>>, pred: spec_fn(Seq<char>) -> bool, x: Seq<char>)
    ensures
        s.filter(pred).contains(x) ==> s.contains(x) && pred(x),
    decreases s.len(),
{
    reveal(Seq::filter);
    if s.len() > 0 && s.filter(pred).contains(x) {
        let t = s.drop_last();
        lemma_filter_members(t, pred, x);
        let ft = t.filter(pred);
        if x == s.last() {
            assert(s[s.len() - 1] == x);
        } else {
            let k = choose|k: int| 0 <= k < s.filter(pred).len() && s.filter(pred)[k] == x;
            if pred(s.last()) {
                assert(s.filter(pred) == ft.push(s.last()));
                assert(k < ft.len());
                assert(ft[k] == x);
            }
            assert(ft.contains(x));
            let m = choose|m: int| 0 <= m < t.len() && t[m] == x;
            assert(s[m] == x);
        }
    }
}

/// Filtering a list without repeats leaves a list without repeats.
proof fn lemma_filter_no_duplicates(s: Seq<Seq<char>>, pred: spec_fn(Seq<char>) -> bool)
    requires
        s.no_duplicates(),
    ensures
        s.filter(pred).no_duplicates(),
    decreases s.len(),
{
    broadcast use vstd::seq_lib::group_filter_ensures;

    reveal(Seq::filter);
    if s.len() > 0 {
        let t = s.drop_last();
        assert(t.no_duplicates()) by {
            assert forall|i: int, j: int| 0 <= i < t.len() && 0 <= j < t.len() && i != j implies t[i] != t[j] by {
                assert(t[i] == s[i] && t[j] == s[j]);
            }
        }
        lemma_filter_no_duplicates(t, pred);
        let ft = t.filter(pred);
        if pred(s.last()) {
            assert(!ft.contains(s.last())) by {
                if ft.contains(s.last()) {
                    lemma_filter_members(t, pred, s.last());
                    let m = choose|m: int| 0 <= m < t.len() && t[m] == s.last();
                    assert(s[m] == s[s.len() - 1]);
                }
            }
            let q = ft.push(s.last());
            assert forall|i: int, j: int| 0 <= i < q.len() && 0 <= j < q.len() && i != j implies q[i] != q[j] by {
                if i < ft.len() && j < ft.len() {
                } else if i < ft.len() {
                    assert(q[i] == ft[i]);
                } else if j < ft.len() {
                    assert(q[j] == ft[j]);
                }
            }
        }
    }
}

} // verus!
