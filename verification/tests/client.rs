use tasks_core::cli::client::{api_error, health_line, init_line, Daemon, Error};
use tasks_core::shared::text::decimal;
use tasks_core::cli::command::{health_call, init_call, Field, Method};

#[test]
fn decimal_writes_numbers_without_leading_zeros() {
    assert_eq!(decimal(0), "0");
    assert_eq!(decimal(7), "7");
    assert_eq!(decimal(404), "404");
    assert_eq!(decimal(1000), "1000");
    assert_eq!(decimal(u64::MAX), u64::MAX.to_string());
}

#[test]
fn daemon_base_drops_trailing_slashes() {
    assert_eq!(Daemon::new("http://127.0.0.1:4000/").base(), "http://127.0.0.1:4000");
    assert_eq!(Daemon::new("http://h//").base(), "http://h");
    assert_eq!(Daemon::new("http://h").base(), "http://h");
    assert_eq!(Daemon::new("///").base(), "");
    assert_eq!(Daemon::new("http://h/").url("/health"), "http://h/health");
}

#[test]
fn api_errors_carry_the_daemon_message_or_the_status() {
    let e = api_error(404, Some("project project_1 does not exist".into()));
    assert!(matches!(&e, Error::Api { status: 404, .. }));
    assert_eq!(e.message(), "project project_1 does not exist");
    let e = api_error(502, None);
    assert!(matches!(&e, Error::Api { status: 502, .. }));
    assert_eq!(e.message(), "daemon returned HTTP 502");
}

#[test]
fn client_errors_read_as_the_user_sees_them() {
    let daemon = Daemon::new("http://127.0.0.1:4000");
    assert_eq!(
        daemon.unreachable().message(),
        "cannot reach the tasks daemon at http://127.0.0.1:4000 — is `tasks-server` running?"
    );
    assert_eq!(
        Error::WorkspaceNotFound("/home/x".into()).message(),
        "no `.tasks` workspace found from `/home/x` upward — pass --workspace <path> or run `tasks init`"
    );
    assert_eq!(Error::Json("eof".into()).message(), "unexpected response from the daemon: eof");
    assert_eq!(Error::Io("denied".into()).message(), "denied");
}

#[test]
fn init_and_health_lines() {
    assert_eq!(
        init_line(Some("/r".into()), Some("/r/.tasks".into())),
        "initialized workspace at /r (/r/.tasks)"
    );
    assert_eq!(init_line(None, None), "initialized workspace at ? (?)");
    assert_eq!(health_line(&Daemon::new("http://h/")), "daemon ok at http://h");
}

#[test]
fn init_and_health_calls() {
    let call = init_call("/r");
    assert_eq!(call.method, Method::Post);
    assert_eq!(call.path, "/workspaces");
    assert!(call.query.is_empty());
    let body = call.body.unwrap();
    assert_eq!(body[0].0, "path");
    assert!(matches!(&body[0].1, Field::Text(t) if t == "/r"));
    let call = health_call();
    assert_eq!(call.method, Method::Get);
    assert_eq!(call.path, "/health");
    assert!(call.body.is_none());
}
