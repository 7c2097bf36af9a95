//! Structured capture of one session: authentication attempts, commands,
//! downloads and other events, each stamped with the time it was recorded,
//! in arrival order.

use vstd::prelude::*;

verus! {

/// Relies on chrono's `Utc::now` and `DateTime::timestamp_millis`: the
/// current wall-clock time in milliseconds since the Unix epoch. Nothing is
/// promised of the value.
#[verifier::external_body]
pub(crate) fn now_millis() -> (r: i64) {
    chrono::Utc::now().timestamp_millis()
}

/// Relies on uuid's `Uuid::new_v4` and `Uuid::as_u128`: a random
/// identifier whose version bits read 4 and whose variant bits read `10`.
#[verifier::external_body]
pub(crate) fn new_session_id() -> (r: u128)
    ensures
        r & 0xF000_C000_0000_0000_0000u128 == 0x4000_8000_0000_0000_0000u128,
{
    uuid::Uuid::new_v4().as_u128()
}

/// The remote end of a connection.
#[derive(Debug)]
pub struct PeerAddr {
    pub ip: String,
    pub port: u16,
}

/// Captured authentication attempt.
#[derive(Debug)]
pub struct AuthAttempt {
    /// Milliseconds since the Unix epoch.
    pub timestamp: i64,
    pub username: String,
    pub password: String,
    pub success: bool,
}

/// Captured command execution.
#[derive(Debug)]
pub struct CommandExecution {
    pub timestamp: i64,
    pub input: String,
    pub output: String,
}

/// Captured file download.
#[derive(Debug)]
pub struct FileDownload {
    pub timestamp: i64,
    pub url: String,
    pub sha256: String,
    pub size_bytes: usize,
    pub path: String,
}

/// Generic session event.
#[derive(Debug)]
pub struct SessionEvent {
    pub timestamp: i64,
    pub event_type: String,
    pub data: String,
}

/// Complete session log.
#[derive(Debug)]
pub struct SessionLog {
    pub session_id: u128,
    pub timestamp_start: i64,
    pub timestamp_end: Option<i64>,
    pub source_ip: Option<String>,
    pub source_port: Option<u16>,
    pub auth_attempts: Vec<AuthAttempt>,
    pub commands: Vec<CommandExecution>,
    pub downloads: Vec<FileDownload>,
    pub events: Vec<SessionEvent>,
}

impl AuthAttempt {
    /// An equal copy.
    pub fn duplicate(&self) -> (r: Self)
        ensures
            r == *self,
    {
        AuthAttempt {
            timestamp: self.timestamp,
            username: self.username.clone(),
            password: self.password.clone(),
            success: self.success,
        }
    }
}

impl CommandExecution {
    /// An equal copy.
    pub fn duplicate(&self) -> (r: Self)
        ensures
            r == *self,
    {
        CommandExecution { timestamp: self.timestamp, input: self.input.clone(), output: self.output.clone() }
    }
}

impl FileDownload {
    /// An equal copy.
    pub fn duplicate(&self) -> (r: Self)
        ensures
            r == *self,
    {
        FileDownload {
            timestamp: self.timestamp,
            url: self.url.clone(),
            sha256: self.sha256.clone(),
            size_bytes: self.size_bytes,
            path: self.path.clone(),
        }
    }
}

impl SessionEvent {
    /// An equal copy.
    pub fn duplicate(&self) -> (r: Self)
        ensures
            r == *self,
    {
        SessionEvent { timestamp: self.timestamp, event_type: self.event_type.clone(), data: self.data.clone() }
    }
}

fn copy_text(s: &Option<String>) -> (r: Option<String>)
    ensures
        r == *s,
{
    match s {
        Some(t) => Some(t.clone()),
        None => None,
    }
}

fn copy_auths(v: &Vec<AuthAttempt>) -> (r: Vec<AuthAttempt>)
    ensures
        r@ == v@,
{
    let mut r: Vec<AuthAttempt> = Vec::new();
    let mut i: usize = 0;
    while i < v.len()
        invariant
            i <= v.len(),
            r@ == v@.subrange(0, i as int),
        decreases v.len() - i,
    {
        r.push(v[i].duplicate());
        assert(r@ =~= v@.subrange(0, i + 1));
        i = i + 1;
    }
    assert(r@ =~= v@);
    r
}

fn copy_commands(v: &Vec<CommandExecution>) -> (r: Vec<CommandExecution>)
    ensures
        r@ == v@,
{
    let mut r: Vec<CommandExecution> = Vec::new();
    let mut i: usize = 0;
    while i < v.len()
        invariant
            i <= v.len(),
            r@ == v@.subrange(0, i as int),
        decreases v.len() - i,
    {
        r.push(v[i].duplicate());
        assert(r@ =~= v@.subrange(0, i + 1));
        i = i + 1;
    }
    assert(r@ =~= v@);
    r
}

fn copy_downloads(v: &Vec<FileDownload>) -> (r: Vec<FileDownload>)
    ensures
        r@ == v@,
{
    let mut r: Vec<FileDownload> = Vec::new();
    let mut i: usize = 0;
    while i < v.len()
        invariant
            i <= v.len(),
            r@ == v@.subrange(0, i as int),
        decreases v.len() - i,
    {
        r.push(v[i].duplicate());
        assert(r@ =~= v@.subrange(0, i + 1));
        i = i + 1;
    }
    assert(r@ =~= v@);
    r
}

fn copy_events(v: &Vec<SessionEvent>) -> (r: Vec<SessionEvent>)
    ensures
        r@ == v@,
{
    let mut r: Vec<SessionEvent> = Vec::new();
    let mut i: usize = 0;
    while i < v.len()
        invariant
            i <= v.len(),
            r@ == v@.subrange(0, i as int),
        decreases v.len() - i,
    {
        r.push(v[i].duplicate());
        assert(r@ =~= v@.subrange(0, i + 1));
        i = i + 1;
    }
    assert(r@ =~= v@);
    r
}

/// `b` is `a` with the other fields kept.
pub open spec fn same_header(a: SessionLog, b: SessionLog) -> bool {
    &&& b.session_id == a.session_id
    &&& b.timestamp_start == a.timestamp_start
    &&& b.timestamp_end == a.timestamp_end
    &&& b.source_ip == a.source_ip
    &&& b.source_port == a.source_port
}

/// `b` is `a` with one authentication attempt appended.
pub open spec fn auth_added(a: SessionLog, b: SessionLog, username: Seq<char>, password: Seq<char>, success: bool) -> bool {
    &&& same_header(a, b)
    &&& b.auth_attempts@.len() == a.auth_attempts@.len() + 1
    &&& b.auth_attempts@.drop_last() == a.auth_attempts@
    &&& b.auth_attempts@.last().username@ == username
    &&& b.auth_attempts@.last().password@ == password
    &&& b.auth_attempts@.last().success == success
    &&& b.commands@ == a.commands@
    &&& b.downloads@ == a.downloads@
    &&& b.events@ == a.events@
}

/// `b` is `a` with one command execution appended.
pub open spec fn command_added(a: SessionLog, b: SessionLog, input: Seq<char>, output: Seq<char>) -> bool {
    &&& same_header(a, b)
    &&& b.commands@.len() == a.commands@.len() + 1
    &&& b.commands@.drop_last() == a.commands@
    &&& b.commands@.last().input@ == input
    &&& b.commands@.last().output@ == output
    &&& b.auth_attempts@ == a.auth_attempts@
    &&& b.downloads@ == a.downloads@
    &&& b.events@ == a.events@
}

/// `b` is `a` with one download appended.
pub open spec fn download_added(
    a: SessionLog,
    b: SessionLog,
    url: Seq<char>,
    sha256: Seq<char>,
    size: usize,
    path: Seq<char>,
) -> bool {
    &&& same_header(a, b)
    &&& b.downloads@.len() == a.downloads@.len() + 1
    &&& b.downloads@.drop_last() == a.downloads@
    &&& b.downloads@.last().url@ == url
    &&& b.downloads@.last().sha256@ == sha256
    &&& b.downloads@.last().size_bytes == size
    &&& b.downloads@.last().path@ == path
    &&& b.auth_attempts@ == a.auth_attempts@
    &&& b.commands@ == a.commands@
    &&& b.events@ == a.events@
}

/// `b` is `a` with one generic event appended.
pub open spec fn event_added(a: SessionLog, b: SessionLog, event_type: Seq<char>, data: Seq<char>) -> bool {
    &&& same_header(a, b)
    &&& b.events@.len() == a.events@.len() + 1
    &&& b.events@.drop_last() == a.events@
    &&& b.events@.last().event_type@ == event_type
    &&& b.events@.last().data@ == data
    &&& b.auth_attempts@ == a.auth_attempts@
    &&& b.commands@ == a.commands@
    &&& b.downloads@ == a.downloads@
}

/// `b` is `a` closed: its end is the one `a` had, else some time.
pub open spec fn ended(a: SessionLog, b: SessionLog) -> bool {
    &&& b.session_id == a.session_id
    &&& b.timestamp_start == a.timestamp_start
    &&& b.timestamp_end is Some
    &&& a.timestamp_end is Some ==> b.timestamp_end == a.timestamp_end
    &&& b.source_ip == a.source_ip
    &&& b.source_port == a.source_port
    &&& b.auth_attempts@ == a.auth_attempts@
    &&& b.commands@ == a.commands@
    &&& b.downloads@ == a.downloads@
    &&& b.events@ == a.events@
}

impl SessionLog {
    /// A log with no records, for the given identity and start time.
    pub fn new_at(session_id: u128, timestamp_start: i64, addr: Option<PeerAddr>) -> (r: Self)
        ensures
            r.session_id == session_id,
            r.timestamp_start == timestamp_start,
            r.timestamp_end is None,
            match addr {
                Some(a) => r.source_ip == Some(a.ip) && r.source_port == Some(a.port),
                None => r.source_ip is None && r.source_port is None,
            },
            r.auth_attempts@.len() == 0,
            r.commands@.len() == 0,
            r.downloads@.len() == 0,
            r.events@.len() == 0,
    {
        let (source_ip, source_port) = match addr {
            Some(a) => (Some(a.ip), Some(a.port)),
            None => (None, None),
        };
        SessionLog {
            session_id,
            timestamp_start,
            timestamp_end: None,
            source_ip,
            source_port,
            auth_attempts: Vec::new(),
            commands: Vec::new(),
            downloads: Vec::new(),
            events: Vec::new(),
        }
    }

    /// Create a new session log with a fresh random identifier, started now.
    pub fn new(addr: Option<PeerAddr>) -> (r: Self)
        ensures
            r.timestamp_end is None,
            match addr {
                Some(a) => r.source_ip == Some(a.ip) && r.source_port == Some(a.port),
                None => r.source_ip is None && r.source_port is None,
            },
            r.auth_attempts@.len() == 0,
            r.commands@.len() == 0,
            r.downloads@.len() == 0,
            r.events@.len() == 0,
    {
        let id = new_session_id();
        let start = now_millis();
        Self::new_at(id, start, addr)
    }

    /// Closes the log at `t`; a log that is already closed keeps its end.
    pub fn end_at(&mut self, t: i64)
        ensures
            final(self).timestamp_end == match old(self).timestamp_end {
                Some(e) => Some(e),
                None => Some(t),
            },
            final(self).session_id == old(self).session_id,
            final(self).timestamp_start == old(self).timestamp_start,
            final(self).source_ip == old(self).source_ip,
            final(self).source_port == old(self).source_port,
            final(self).auth_attempts@ == old(self).auth_attempts@,
            final(self).commands@ == old(self).commands@,
            final(self).downloads@ == old(self).downloads@,
            final(self).events@ == old(self).events@,
    {
        if self.timestamp_end.is_none() {
            self.timestamp_end = Some(t);
        }
    }

    /// End the session now; a log that is already closed keeps its end.
    pub fn end(&mut self)
        ensures
            ended(*old(self), *final(self)),
    {
        let t = now_millis();
        self.end_at(t);
    }

    /// Add an authentication attempt, stamped now.
    pub fn add_auth(&mut self, username: &str, password: &str, success: bool)
        ensures
            auth_added(*old(self), *final(self), username@, password@, success),
    {
        let timestamp = now_millis();
        self.auth_attempts.push(
            AuthAttempt {
                timestamp,
                username: String::from_str(username),
                password: String::from_str(password),
                success,
            },
        );
        assert(self.auth_attempts@.drop_last() =~= old(self).auth_attempts@);
    }

    /// Add a command execution, stamped now.
    pub fn add_command(&mut self, input: &str, output: &str)
        ensures
            command_added(*old(self), *final(self), input@, output@),
    {
        let timestamp = now_millis();
        self.commands.push(
            CommandExecution { timestamp, input: String::from_str(input), output: String::from_str(output) },
        );
        assert(self.commands@.drop_last() =~= old(self).commands@);
    }

    /// Add a file download, stamped now.
    pub fn add_download(&mut self, url: &str, sha256: &str, size: usize, path: &str)
        ensures
            download_added(*old(self), *final(self), url@, sha256@, size, path@),
    {
        let timestamp = now_millis();
        self.downloads.push(
            FileDownload {
                timestamp,
                url: String::from_str(url),
                sha256: String::from_str(sha256),
                size_bytes: size,
                path: String::from_str(path),
            },
        );
        assert(self.downloads@.drop_last() =~= old(self).downloads@);
    }

    /// Add a generic event, stamped now.
    pub fn add_event(&mut self, event_type: &str, data: &str)
        ensures
            event_added(*old(self), *final(self), event_type@, data@),
    {
        let timestamp = now_millis();
        self.events.push(
            SessionEvent { timestamp, event_type: String::from_str(event_type), data: String::from_str(data) },
        );
        assert(self.events@.drop_last() =~= old(self).events@);
    }

    /// The two logs hold the same identity, times, address and records.
    pub open spec fn same_as(&self, other: &Self) -> bool {
        &&& self.session_id == other.session_id
        &&& self.timestamp_start == other.timestamp_start
        &&& self.timestamp_end == other.timestamp_end
        &&& self.source_ip == other.source_ip
        &&& self.source_port == other.source_port
        &&& self.auth_attempts@ == other.auth_attempts@
        &&& self.commands@ == other.commands@
        &&& self.downloads@ == other.downloads@
        &&& self.events@ == other.events@
    }

    /// A copy, for handing off.
    pub fn snapshot(&self) -> (r: Self)
        ensures
            r.same_as(self),
    {
        SessionLog {
            session_id: self.session_id,
            timestamp_start: self.timestamp_start,
            timestamp_end: self.timestamp_end,
            source_ip: copy_text(&self.source_ip),
            source_port: self.source_port,
            auth_attempts: copy_auths(&self.auth_attempts),
            commands: copy_commands(&self.commands),
            downloads: copy_downloads(&self.downloads),
            events: copy_events(&self.events),
        }
    }
}

/// Logger for one session. It owns its log: one controller drives one
/// session, so no lock is needed.
pub struct SessionLogger {
    log: SessionLog,
}

impl SessionLogger {
    /// The log as it stands.
    pub closed spec fn current(&self) -> SessionLog {
        self.log
    }

    /// Create a new session logger with an empty log.
    pub fn new(addr: Option<PeerAddr>) -> (r: Self)
        ensures
            r.current().timestamp_end is None,
            match addr {
                Some(a) => r.current().source_ip == Some(a.ip) && r.current().source_port == Some(a.port),
                None => r.current().source_ip is None && r.current().source_port is None,
            },
            r.current().auth_attempts@.len() == 0,
            r.current().commands@.len() == 0,
            r.current().downloads@.len() == 0,
            r.current().events@.len() == 0,
    {
        SessionLogger { log: SessionLog::new(addr) }
    }

    /// Log an authentication attempt.
    pub fn log_auth(&mut self, username: &str, password: &str, success: bool)
        ensures
            auth_added(old(self).current(), final(self).current(), username@, password@, success),
    {
        self.log.add_auth(username, password, success);
    }

    /// Log a command execution.
    pub fn log_command(&mut self, input: &str, output: &str)
        ensures
            command_added(old(self).current(), final(self).current(), input@, output@),
    {
        self.log.add_command(input, output);
    }

    /// Log a file download.
    pub fn log_download(&mut self, url: &str, sha256: &str, size: usize, path: &str)
        ensures
            download_added(old(self).current(), final(self).current(), url@, sha256@, size, path@),
    {
        self.log.add_download(url, sha256, size, path);
    }

    /// Log a generic event.
    pub fn log_event(&mut self, event_type: &str, data: &str)
        ensures
            event_added(old(self).current(), final(self).current(), event_type@, data@),
    {
        self.log.add_event(event_type, data);
    }

    /// Finalize the log and hand out a copy. A second call keeps the end
    /// time of the first.
    pub fn end_session(&mut self) -> (r: SessionLog)
        ensures
            ended(old(self).current(), final(self).current()),
            r.same_as(&final(self).current()),
    {
        self.log.end();
        self.log.snapshot()
    }

    /// The session's identifier.
    pub fn session_id(&self) -> (r: u128)
        ensures
            r == self.current().session_id,
    {
        self.log.session_id
    }

    /// A copy of the log as it stands.
    pub fn get_log(&self) -> (r: SessionLog)
        ensures
            r.same_as(&self.current()),
    {
        self.log.snapshot()
    }
}

} // verus!
