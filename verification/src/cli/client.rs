//! The terminal client's handle on the daemon, and the errors it reports to
//! the user. The requests themselves are made by the program; what it makes
//! of their outcomes is decided here.

use vstd::prelude::*;

use crate::shared::text::{concat, decimal, decimal_text};

verus! {

/// Errors the terminal client reports to the user.
#[derive(Debug)]
pub enum Error {
    /// No `.tasks` directory in the starting directory (shown here) or any
    /// directory above it.
    WorkspaceNotFound(String),
    /// The daemon answered with an HTTP error status and this message.
    Api { status: u16, message: String },
    /// Nothing answered at the daemon's base URL.
    Unreachable { base: String },
    /// A local I/O failure, with its message.
    Io(String),
    /// The daemon's answer was not the JSON expected, with the parser's
    /// message.
    Json(String),
}

/// The text of a client error, as printed after `error: `.
pub open spec fn client_error_text(e: Error) -> Seq<char> {
    match e {
        Error::WorkspaceNotFound(start) => "no `.tasks` workspace found from `"@ + start@
            + "` upward — pass --workspace <path> or run `tasks init`"@,
        Error::Api { status, message } => message@,
        Error::Unreachable { base } => "cannot reach the tasks daemon at "@ + base@
            + " — is `tasks-server` running?"@,
        Error::Io(m) => m@,
        Error::Json(m) => "unexpected response from the daemon: "@ + m@,
    }
}

impl Error {
    /// The error's message.
    pub fn message(&self) -> (r: String)
        ensures
            r@ == client_error_text(*self),
    {
        match self {
            Error::WorkspaceNotFound(start) => {
                let head = concat("no `.tasks` workspace found from `", start.as_str());
                concat(head.as_str(), "` upward — pass --workspace <path> or run `tasks init`")
            },
            Error::Api { status, message } => message.clone(),
            Error::Unreachable { base } => {
                let head = concat("cannot reach the tasks daemon at ", base.as_str());
                concat(head.as_str(), " — is `tasks-server` running?")
            },
            Error::Io(m) => m.clone(),
            Error::Json(m) => concat("unexpected response from the daemon: ", m.as_str()),
        }
    }
}

/// The message of an HTTP error answer: the daemon's own `error` text when
/// its body carried one, else a line naming the status.
pub open spec fn api_message(status: u16, error: Option<Seq<char>>) -> Seq<char> {
    match error {
        Some(text) => text,
        None => "daemon returned HTTP "@ + decimal_text(status as nat),
    }
}

/// The error for an HTTP error answer with status `status`, whose body's
/// `error` field held `error` (when it was a string).
pub fn api_error(status: u16, error: Option<String>) -> (r: Error)
    ensures
        r matches Error::Api { status: s, message } && s == status && message@ == api_message(
            status,
            match error {
                Some(e) => Some(e@),
                None => None,
            },
        ),
{
    let message = match error {
        Some(text) => text,
        None => {
            let digits = decimal(status as u64);
            concat("daemon returned HTTP ", digits.as_str())
        },
    };
    Error::Api { status, message }
}

/// `s` without its trailing slashes.
pub open spec fn trim_trailing_slashes(s: Seq<char>) -> Seq<char>
    decreases s.len(),
{
    if s.len() > 0 && s.last() == '/' {
        trim_trailing_slashes(s.drop_last())
    } else {
        s
    }
}

/// A handle on the daemon: its base URL.
#[derive(Debug)]
pub struct Daemon {
    base: String,
}

impl Daemon {
    /// The base URL requests go to.
    pub closed spec fn base_text(&self) -> Seq<char> {
        self.base@
    }

    /// A handle on the daemon at `base`, with trailing slashes dropped so
    /// that routes can be appended.
    pub fn new(base: &str) -> (r: Self)
        ensures
            r.base_text() == trim_trailing_slashes(base@),
    {
        let mut end = base.unicode_len();
        proof {
            assert(base@.take(end as int) =~= base@);
        }
        while end > 0 && base.get_char(end - 1) == '/'
            invariant
                end <= base@.len(),
                trim_trailing_slashes(base@) == trim_trailing_slashes(base@.take(end as int)),
            decreases end,
        {
            proof {
                assert(base@.take(end as int).last() == base@[end - 1]);
                assert(base@.take(end as int).drop_last() =~= base@.take(end - 1));
            }
            end = end - 1;
        }
        let kept = base.substring_char(0, end);
        proof {
            assert(kept@ =~= base@.take(end as int));
        }
        Daemon { base: String::from_str(kept) }
    }

    /// The daemon's base URL, for display.
    pub fn base(&self) -> (r: &str)
        ensures
            r@ == self.base_text(),
    {
        self.base.as_str()
    }

    /// The error for a request that reached nothing.
    pub fn unreachable(&self) -> (r: Error)
        ensures
            r matches Error::Unreachable { base } && base@ == self.base_text(),
    {
        Error::Unreachable { base: self.base.clone() }
    }

    /// The URL of `path` on this daemon.
    pub fn url(&self, path: &str) -> (r: String)
        ensures
            r@ == self.base_text() + path@,
    {
        concat(self.base.as_str(), path)
    }
}

/// The line `tasks health` prints when the daemon answers.
pub fn health_line(daemon: &Daemon) -> (r: String)
    ensures
        r@ == "daemon ok at "@ + daemon.base_text(),
{
    concat("daemon ok at ", daemon.base())
}

/// The line `tasks init` prints: the workspace root and its `.tasks`
/// directory as the daemon reported them, `?` for either one missing.
pub fn init_line(root: Option<String>, tasks_dir: Option<String>) -> (r: String)
    ensures
        r@ == "initialized workspace at "@ + (match root {
            Some(s) => s@,
            None => "?"@,
        }) + " ("@ + (match tasks_dir {
            Some(s) => s@,
            None => "?"@,
        }) + ")"@,
{
    let root_text = match root {
        Some(s) => s,
        None => String::from_str("?"),
    };
    let dir_text = match tasks_dir {
        Some(s) => s,
        None => String::from_str("?"),
    };
    let a = concat("initialized workspace at ", root_text.as_str());
    let b = concat(a.as_str(), " (");
    let c = concat(b.as_str(), dir_text.as_str());
    concat(c.as_str(), ")")
}

} // verus!
