use drhpotter::controller::{AuthDecision, DataReply, Phase, SessionController, AUTH_DELAY_MS};
use drhpotter::capture::PeerAddr;
use drhpotter::storage::FileStorage;

fn controller() -> SessionController {
    SessionController::new(Some(PeerAddr { ip: "192.0.2.1".to_string(), port: 40000 }))
}

#[test]
fn any_password_is_accepted_once_recorded() {
    let mut c = controller();
    assert_eq!(c.auth_none("admin"), AuthDecision::AskPassword);
    assert_eq!(c.auth_password("admin", "letmein"), AuthDecision::Accept { delay_ms: AUTH_DELAY_MS });
    let log = c.channel_close();
    assert_eq!(log.auth_attempts.len(), 1);
    assert!(log.auth_attempts[0].success);
    assert_eq!(log.auth_attempts[0].username, "admin");
    assert_eq!(log.auth_attempts[0].password, "letmein");
}

#[test]
fn close_after_one_command() {
    let mut c = controller();
    c.auth_password("root", "root");
    let out = c.exec_request("whoami");
    assert_eq!(out, "root\n");
    let log = c.channel_close();
    assert_eq!(log.commands.len(), 1);
    assert_eq!(log.commands[0].input, "whoami");
    assert_eq!(log.commands[0].output, "root\n");
    let end = log.timestamp_end;
    assert!(end.is_some());
    let again = c.channel_close();
    assert_eq!(again.timestamp_end, end);
    assert_eq!(again.commands.len(), 1);
}

#[test]
fn interactive_input() {
    let mut c = controller();
    c.auth_password("root", "toor");
    let banner = c.shell_request();
    assert!(banner.starts_with("Welcome to Ubuntu"));
    assert!(banner.ends_with("$ "));
    assert!(matches!(c.data("l"), DataReply::Echo));
    assert!(matches!(c.data("\r\n"), DataReply::Prompt));
    match c.data("  pwd \r") {
        DataReply::Output(o) => assert_eq!(o, "/root\n"),
        _ => panic!("expected output"),
    }
    let log = c.channel_close();
    assert_eq!(log.commands.len(), 1);
    assert_eq!(log.commands[0].input, "pwd");
    assert_eq!(log.events.len(), 2);
    assert_eq!(log.events[0].event_type, "shell_request");
    assert_eq!(log.events[1].event_type, "channel_close");
}

#[test]
fn pty_requests_are_logged() {
    let mut c = controller();
    c.auth_password("root", "toor");
    c.pty_request("xterm-256color", 80, 24);
    let log = c.channel_close();
    assert_eq!(log.events[0].event_type, "pty_request");
    assert_eq!(log.events[0].data, "term=xterm-256color, cols=80, rows=24");
}

#[test]
fn nothing_is_accepted_once_closed() {
    let mut c = controller();
    c.channel_close();
    assert!(!c.channel_open_session());
    assert_eq!(c.auth_password("root", "x"), AuthDecision::Refuse);
    assert_eq!(c.auth_none("root"), AuthDecision::Refuse);
    assert_eq!(c.exec_request("id"), "");
    assert!(matches!(c.data("id\n"), DataReply::Nothing));
    let log = c.channel_close();
    assert_eq!(log.auth_attempts.len(), 0);
    assert_eq!(log.commands.len(), 0);
}

#[test]
fn phases_follow_the_session() {
    let mut c = controller();
    assert_eq!(c.current_phase(), Phase::Connected);
    assert!(c.channel_open_session());
    c.auth_none("u");
    assert_eq!(c.current_phase(), Phase::Authenticating);
    c.auth_password("u", "p");
    assert_eq!(c.current_phase(), Phase::Authenticated);
    c.shell_request();
    assert_eq!(c.current_phase(), Phase::ShellActive);
    c.channel_close();
    assert_eq!(c.current_phase(), Phase::Closed);
}

#[test]
fn downloads_are_stored_once_and_recorded() {
    let mut c = controller();
    let mut store = FileStorage::new("/srv/captured".to_string());
    let first = c.capture_download("http://x.example/a.sh", b"abc", &mut store, 1024).unwrap();
    assert!(first.write);
    assert_eq!(first.path, format!("/srv/captured/{}", first.digest));
    let second = c.capture_download("http://y.example/b.sh", b"abc", &mut store, 1024).unwrap();
    assert_eq!(second.digest, first.digest);
    assert!(!second.write);
    assert!(c.capture_download("http://z.example/big", b"too big", &mut store, 3).is_none());
    let log = c.channel_close();
    assert_eq!(log.downloads.len(), 2);
    assert_eq!(log.downloads[0].url, "http://x.example/a.sh");
    assert_eq!(log.downloads[0].size_bytes, 3);
    assert_eq!(log.downloads[1].sha256, first.digest);
}
