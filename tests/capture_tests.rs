use drhpotter::capture::{PeerAddr, SessionLog, SessionLogger};
use drhpotter::session::SessionInfo;

#[test]
fn test_session_log_creation() {
    let log = SessionLog::new(None);
    assert_eq!(log.auth_attempts.len(), 0);
    assert_eq!(log.commands.len(), 0);
}

#[test]
fn test_add_auth() {
    let mut log = SessionLog::new(None);
    log.add_auth("root", "password123", true);
    assert_eq!(log.auth_attempts.len(), 1);
    assert_eq!(log.auth_attempts[0].username, "root");
}

#[test]
fn test_add_command() {
    let mut log = SessionLog::new(None);
    log.add_command("ls -la", "total 48\ndrwxr-xr-x...");
    assert_eq!(log.commands.len(), 1);
    assert_eq!(log.commands[0].input, "ls -la");
}

#[test]
fn test_logger_creation() {
    let logger = SessionLogger::new(None);
    let log = logger.get_log();
    assert_eq!(log.auth_attempts.len(), 0);
}

#[test]
fn test_log_auth() {
    let mut logger = SessionLogger::new(None);
    logger.log_auth("root", "toor", true);
    let log = logger.get_log();
    assert_eq!(log.auth_attempts.len(), 1);
}

#[test]
fn test_log_command() {
    let mut logger = SessionLogger::new(None);
    logger.log_command("whoami", "root\n");
    let log = logger.get_log();
    assert_eq!(log.commands.len(), 1);
}

#[test]
fn records_keep_arrival_order_and_fields() {
    let addr = PeerAddr { ip: "203.0.113.9".to_string(), port: 50022 };
    let mut logger = SessionLogger::new(Some(addr));
    logger.log_event("pty_request", "term=xterm");
    logger.log_download("http://x.example/a", "ab12", 3, "./captured_files/ab12");
    logger.log_command("id", "uid=0(root)\n");
    logger.log_command("pwd", "/root\n");
    let log = logger.get_log();
    assert_eq!(log.source_ip.as_deref(), Some("203.0.113.9"));
    assert_eq!(log.source_port, Some(50022));
    assert_eq!(log.commands[0].input, "id");
    assert_eq!(log.commands[1].input, "pwd");
    assert_eq!(log.downloads[0].size_bytes, 3);
    assert_eq!(log.downloads[0].sha256, "ab12");
    assert_eq!(log.events[0].event_type, "pty_request");
    assert_eq!(log.session_id, logger.session_id());
    assert!(log.timestamp_end.is_none());
}

#[test]
fn finalizing_twice_keeps_the_first_end() {
    let mut logger = SessionLogger::new(None);
    logger.log_command("whoami", "root\n");
    let first = logger.end_session();
    assert_eq!(first.commands.len(), 1);
    let end = first.timestamp_end;
    assert!(end.is_some());
    let second = logger.end_session();
    assert_eq!(second.timestamp_end, end);
    assert_eq!(second.commands.len(), 1);
}

#[test]
fn end_at_is_idempotent() {
    let mut log = SessionLog::new_at(7, 1_000, None);
    log.end_at(5_000);
    log.end_at(9_000);
    assert_eq!(log.timestamp_end, Some(5_000));
    assert_eq!(log.session_id, 7);
}

#[test]
fn session_ids_are_version_four() {
    let a = SessionLog::new(None).session_id;
    let b = SessionLog::new(None).session_id;
    assert_ne!(a, b);
    assert_eq!((a >> 76) & 0xF, 4);
}

#[test]
fn durations_round_toward_zero() {
    let mut info = SessionInfo::new_at(1, 10_000, None);
    assert_eq!(info.duration_seconds_at(12_999), 2);
    assert_eq!(info.duration_seconds_at(8_500), -1);
    info.end_at(70_000);
    assert_eq!(info.duration_seconds_at(99_999), 60);
    assert_eq!(info.duration_seconds(), 60);
}

#[test]
fn attempts_keep_the_latest_credentials() {
    let mut info = SessionInfo::new(None);
    info.record_attempt("admin", "admin");
    info.record_attempt("root", "123456");
    assert_eq!(info.auth_attempts, 2);
    assert_eq!(info.username.as_deref(), Some("root"));
    assert_eq!(info.password.as_deref(), Some("123456"));
    assert!(info.auth_success);
}
