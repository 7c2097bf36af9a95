//! The life cycle of one session, as a state machine driven by the
//! transport's events: `Connected`, `Authenticating`, `Authenticated`,
//! `ShellActive`, `Closed`. Each event handler decides what the transport
//! is to do and keeps the capture log; closing finalizes the log once.

use vstd::prelude::*;
use crate::capture::{PeerAddr, SessionLog, SessionLogger, auth_added, command_added, download_added, event_added, ended};
use crate::storage::{FileStorage, StoredFile, store_step, joined_path};
use crate::session::SessionInfo;
use crate::shell::{FakeShell, output_of, cwd_after};
use crate::text::{words, trimmed, trim, has_line_break, decimal, decimal_text};
use crate::filesystem::FsView;

verus! {

/// How long an accepted password attempt is held before the answer, in
/// milliseconds, to look like real authentication latency.
pub const AUTH_DELAY_MS: u64 = 1500;

/// The welcome text of an interactive shell.
pub const BANNER: &'static str = "Welcome to Ubuntu 22.04.1 LTS (GNU/Linux 5.15.0-58-generic x86_64)\n\nLast login: Sat Nov  9 10:30:15 2025 from 192.168.1.1\n";

/// The prompt sent after each command of an interactive shell.
pub const PROMPT: &'static str = "$ ";

/// Where a session stands.
#[derive(PartialEq, Eq, Structural, Clone, Copy, Debug)]
pub enum Phase {
    Connected,
    Authenticating,
    Authenticated,
    ShellActive,
    Closed,
}

/// The answer to an authentication request.
#[derive(PartialEq, Eq, Structural, Clone, Copy, Debug)]
pub enum AuthDecision {
    /// Refuse this method and ask for a password.
    AskPassword,
    /// Accept, after waiting the given number of milliseconds.
    Accept { delay_ms: u64 },
    /// Refuse: the session is closed.
    Refuse,
}

/// What to send back for a chunk of interactive input.
#[derive(Debug)]
pub enum DataReply {
    /// Send the chunk back unchanged.
    Echo,
    /// Send the prompt.
    Prompt,
    /// Send the text, then the prompt.
    Output(String),
    /// Send nothing: the session is closed.
    Nothing,
}

/// The data recorded for a terminal request.
pub open spec fn pty_text(term: Seq<char>, cols: u32, rows: u32) -> Seq<char> {
    "term="@ + term + ", cols="@ + decimal_text(cols as nat) + ", rows="@ + decimal_text(rows as nat)
}

/// Handler for one SSH connection.
pub struct SessionController {
    phase: Phase,
    info: SessionInfo,
    shell: FakeShell,
    logger: SessionLogger,
}

impl SessionController {
    pub closed spec fn phase(&self) -> Phase {
        self.phase
    }

    pub closed spec fn info(&self) -> SessionInfo {
        self.info
    }

    pub closed spec fn log(&self) -> SessionLog {
        self.logger.current()
    }

    pub closed spec fn fs(&self) -> FsView {
        self.shell.fs()
    }

    pub closed spec fn cwd(&self) -> Seq<Seq<char>> {
        self.shell.cwd()
    }

    pub closed spec fn env(&self) -> Seq<(Seq<char>, Seq<char>)> {
        self.shell.env()
    }

    /// A new handler for a client connection, with a fresh shell and an
    /// empty log.
    pub fn new(addr: Option<PeerAddr>) -> (r: Self)
        ensures
            r.phase() == Phase::Connected,
            r.info().client_addr == addr,
            r.info().auth_attempts == 0,
            r.info().end_time is None,
            r.log().timestamp_end is None,
            r.log().auth_attempts@.len() == 0,
            r.log().commands@.len() == 0,
            r.log().downloads@.len() == 0,
            r.log().events@.len() == 0,
            r.cwd() == seq!["root"@],
            r.fs().dirs == crate::filesystem::FakeFilesystem::seed_dirs(),
            r.fs().files.dom() == crate::filesystem::FakeFilesystem::seed_files(),
            match addr {
                Some(a) => r.log().source_ip == Some(a.ip) && r.log().source_port == Some(a.port),
                None => r.log().source_ip is None && r.log().source_port is None,
            },
    {
        let log_addr = match &addr {
            Some(a) => Some(a.duplicate()),
            None => None,
        };
        SessionController {
            phase: Phase::Connected,
            info: SessionInfo::new(addr),
            shell: FakeShell::new(),
            logger: SessionLogger::new(log_addr),
        }
    }

    /// Where the session stands.
    pub fn current_phase(&self) -> (r: Phase)
        ensures
            r == self.phase(),
    {
        self.phase
    }

    /// A request to authenticate without credentials: the user name is
    /// kept and a password is asked for.
    pub fn auth_none(&mut self, user: &str) -> (r: AuthDecision)
        ensures
            old(self).phase() == Phase::Closed ==> r == AuthDecision::Refuse && *final(self) == *old(self),
            old(self).phase() != Phase::Closed ==> {
                &&& r == AuthDecision::AskPassword
                &&& final(self).phase() == Phase::Authenticating
                &&& final(self).info().username matches Some(u) && u@ == user@
                &&& final(self).info().auth_attempts == old(self).info().auth_attempts
                &&& final(self).log() == old(self).log()
            },
    {
        if self.phase == Phase::Closed {
            return AuthDecision::Refuse;
        }
        self.info.username = Some(String::from_str(user));
        self.phase = Phase::Authenticating;
        AuthDecision::AskPassword
    }

    /// A password attempt: every one is recorded as successful and accepted
    /// after the fixed delay.
    pub fn auth_password(&mut self, user: &str, password: &str) -> (r: AuthDecision)
        ensures
            old(self).phase() == Phase::Closed ==> r == AuthDecision::Refuse && *final(self) == *old(self),
            old(self).phase() != Phase::Closed ==> {
                &&& r == (AuthDecision::Accept { delay_ms: AUTH_DELAY_MS })
                &&& final(self).phase() == Phase::Authenticated
                &&& final(self).info().auth_success
                &&& final(self).info().username matches Some(u) && u@ == user@
                &&& final(self).info().password matches Some(p) && p@ == password@
                &&& auth_added(old(self).log(), final(self).log(), user@, password@, true)
            },
    {
        if self.phase == Phase::Closed {
            return AuthDecision::Refuse;
        }
        self.info.record_attempt(user, password);
        self.logger.log_auth(user, password, true);
        self.phase = Phase::Authenticated;
        AuthDecision::Accept { delay_ms: AUTH_DELAY_MS }
    }

    /// A request to open a session channel: granted unless closed.
    pub fn channel_open_session(&self) -> (r: bool)
        ensures
            r == (self.phase() != Phase::Closed),
    {
        self.phase != Phase::Closed
    }

    /// A terminal request: logged as an event; the shell becomes active.
    pub fn pty_request(&mut self, term: &str, col_width: u32, row_height: u32)
        ensures
            old(self).phase() == Phase::Closed ==> *final(self) == *old(self),
            old(self).phase() != Phase::Closed ==> {
                &&& final(self).phase() == Phase::ShellActive
                &&& event_added(old(self).log(), final(self).log(), "pty_request"@, pty_text(term@, col_width, row_height))
            },
    {
        if self.phase == Phase::Closed {
            return;
        }
        let mut data = String::from_str("term=");
        data.append(term);
        data.append(", cols=");
        data.append(decimal(col_width).as_str());
        data.append(", rows=");
        data.append(decimal(row_height).as_str());
        self.logger.log_event("pty_request", data.as_str());
        self.phase = Phase::ShellActive;
    }

    /// A request for an interactive shell: logged as an event; the answer
    /// is the banner and the first prompt.
    pub fn shell_request(&mut self) -> (r: String)
        ensures
            old(self).phase() == Phase::Closed ==> *final(self) == *old(self) && r@ == Seq::<char>::empty(),
            old(self).phase() != Phase::Closed ==> {
                &&& final(self).phase() == Phase::ShellActive
                &&& event_added(old(self).log(), final(self).log(), "shell_request"@, ""@)
                &&& r@ == BANNER@ + PROMPT@
            },
    {
        if self.phase == Phase::Closed {
            return String::new();
        }
        self.logger.log_event("shell_request", "");
        self.phase = Phase::ShellActive;
        let mut r = String::from_str(BANNER);
        r.append(PROMPT);
        r
    }

    /// Runs one command line through the shell and records it; the output
    /// is returned for the transport.
    fn run(&mut self, command: &str) -> (r: String)
        ensures
            final(self).phase() == old(self).phase(),
            final(self).info() == old(self).info(),
            final(self).fs() == old(self).fs(),
            final(self).env() == old(self).env(),
            words(command@).len() == 0 ==> r@ == Seq::<char>::empty() && final(self).cwd() == old(self).cwd(),
            words(command@).len() > 0 ==> {
                let w = words(command@);
                let args = w.subrange(1, w.len() as int);
                &&& r@ == output_of(w[0], args, old(self).fs(), old(self).cwd(), old(self).env())
                &&& final(self).cwd() == cwd_after(w[0], args, old(self).fs(), old(self).cwd())
            },
            command_added(old(self).log(), final(self).log(), command@, r@),
    {
        let output = self.shell.execute(command);
        self.logger.log_command(command, output.as_str());
        output
    }

    /// A one-shot command: executed and recorded; the transport sends the
    /// output, exit status 0, and closes the channel.
    pub fn exec_request(&mut self, command: &str) -> (r: String)
        ensures
            old(self).phase() == Phase::Closed ==> *final(self) == *old(self) && r@ == Seq::<char>::empty(),
            old(self).phase() != Phase::Closed ==> {
                &&& final(self).phase() == Phase::ShellActive
                &&& final(self).fs() == old(self).fs()
                &&& final(self).env() == old(self).env()
                &&& words(command@).len() == 0 ==> r@ == Seq::<char>::empty()
                &&& words(command@).len() > 0 ==> final(self).cwd() == cwd_after(
                    words(command@)[0],
                    words(command@).subrange(1, words(command@).len() as int),
                    old(self).fs(),
                    old(self).cwd(),
                )
                &&& words(command@).len() > 0 ==> r@ == output_of(
                    words(command@)[0],
                    words(command@).subrange(1, words(command@).len() as int),
                    old(self).fs(),
                    old(self).cwd(),
                    old(self).env(),
                )
                &&& command_added(old(self).log(), final(self).log(), command@, r@)
            },
    {
        if self.phase == Phase::Closed {
            return String::new();
        }
        let output = self.run(command);
        self.phase = Phase::ShellActive;
        output
    }

    /// A chunk of interactive input. Input without a line break is echoed;
    /// a blank line gets a new prompt; otherwise the trimmed line is run
    /// as a command and recorded.
    pub fn data(&mut self, input: &str) -> (r: DataReply)
        ensures
            old(self).phase() == Phase::Closed ==> *final(self) == *old(self) && r is Nothing,
            old(self).phase() != Phase::Closed && !(input@.contains('\r') || input@.contains('\n'))
                ==> *final(self) == *old(self) && r is Echo,
            old(self).phase() != Phase::Closed && (input@.contains('\r') || input@.contains('\n'))
                && trimmed(input@).len() == 0 ==> *final(self) == *old(self) && r is Prompt,
            old(self).phase() != Phase::Closed && (input@.contains('\r') || input@.contains('\n'))
                && trimmed(input@).len() > 0 ==> {
                let c = trimmed(input@);
                &&& r matches DataReply::Output(o) && command_added(old(self).log(), final(self).log(), c, o@)
                &&& words(c).len() > 0 ==> (r matches DataReply::Output(o) && o@ == output_of(
                    words(c)[0],
                    words(c).subrange(1, words(c).len() as int),
                    old(self).fs(),
                    old(self).cwd(),
                    old(self).env(),
                ))
                &&& words(c).len() > 0 ==> final(self).cwd() == cwd_after(
                    words(c)[0],
                    words(c).subrange(1, words(c).len() as int),
                    old(self).fs(),
                    old(self).cwd(),
                )
                &&& final(self).phase() == old(self).phase()
                &&& final(self).fs() == old(self).fs()
                &&& final(self).env() == old(self).env()
            },
    {
        if self.phase == Phase::Closed {
            return DataReply::Nothing;
        }
        if !has_line_break(input) {
            return DataReply::Echo;
        }
        let command = trim(input);
        if command.unicode_len() == 0 {
            return DataReply::Prompt;
        }
        let output = self.run(command.as_str());
        DataReply::Output(output)
    }

    /// Bytes that the fetch collaborator brought back for a `wget` or
    /// `curl` of `url`: content within `max_bytes` goes to the content
    /// store and is recorded as a download; larger content is left out.
    pub fn capture_download(
        &mut self,
        url: &str,
        content: &[u8],
        store: &mut FileStorage,
        max_bytes: usize,
    ) -> (r: Option<StoredFile>)
        ensures
            final(self).phase() == old(self).phase(),
            final(store).base() == old(store).base(),
            content@.len() > max_bytes || old(self).phase() == Phase::Closed ==> r is None
                && final(self).log() == old(self).log() && final(store).digests() == old(store).digests(),
            content@.len() <= max_bytes && old(self).phase() != Phase::Closed ==> (r matches Some(f) && {
                &&& (final(store).digests(), f.digest@, f.write) == store_step(old(store).digests(), content@)
                &&& f.path@ == joined_path(old(store).base(), f.digest@)
                &&& download_added(old(self).log(), final(self).log(), url@, f.digest@, content@.len() as usize, f.path@)
            }),
    {
        if self.phase == Phase::Closed || content.len() > max_bytes {
            return None;
        }
        let stored = store.store_file(content);
        self.logger.log_download(url, stored.digest.as_str(), content.len(), stored.path.as_str());
        Some(stored)
    }

    /// The channel or connection closed: the session ends, its log is
    /// finalized once, and a copy is returned for persistence. Later calls
    /// change nothing and return the same log.
    pub fn channel_close(&mut self) -> (r: SessionLog)
        ensures
            final(self).phase() == Phase::Closed,
            final(self).info().end_time is Some,
            old(self).phase() == Phase::Closed ==> ended(old(self).log(), final(self).log()),
            old(self).phase() != Phase::Closed ==> exists|mid: SessionLog|
                event_added(old(self).log(), mid, "channel_close"@, ""@) && ended(mid, final(self).log()),
            r.same_as(&final(self).log()),
    {
        if self.phase == Phase::Closed {
            self.info.end();
            return self.logger.end_session();
        }
        self.logger.log_event("channel_close", "");
        let r = self.logger.end_session();
        self.info.end();
        self.phase = Phase::Closed;
        r
    }
}

} // verus!
