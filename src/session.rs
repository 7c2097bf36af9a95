//! What is known of one SSH session: who connected, when, and with which
//! credentials.

use vstd::prelude::*;
use crate::capture::{PeerAddr, new_session_id, now_millis};

verus! {

impl PeerAddr {
    /// An equal copy.
    pub fn duplicate(&self) -> (r: Self)
        ensures
            r == *self,
    {
        PeerAddr { ip: self.ip.clone(), port: self.port }
    }
}

/// `d` milliseconds as whole seconds, rounded toward zero.
pub open spec fn whole_seconds(d: int) -> int {
    if d >= 0 {
        d / 1000
    } else {
        -((-d) / 1000)
    }
}

/// Information about an SSH session.
pub struct SessionInfo {
    /// Unique session identifier.
    pub session_id: u128,
    /// Client address.
    pub client_addr: Option<PeerAddr>,
    /// Session start, in milliseconds since the Unix epoch.
    pub start_time: i64,
    /// Session end, in milliseconds since the Unix epoch.
    pub end_time: Option<i64>,
    /// Username of the latest authentication attempt.
    pub username: Option<String>,
    /// Password of the latest authentication attempt.
    pub password: Option<String>,
    /// Number of password attempts, saturating at `u32::MAX`.
    pub auth_attempts: u32,
    /// Whether authentication succeeded.
    pub auth_success: bool,
}

impl SessionInfo {
    /// Session info for the given identity and start time.
    pub fn new_at(session_id: u128, start_time: i64, addr: Option<PeerAddr>) -> (r: Self)
        ensures
            r.session_id == session_id,
            r.start_time == start_time,
            r.client_addr == addr,
            r.end_time is None,
            r.username is None,
            r.password is None,
            r.auth_attempts == 0,
            !r.auth_success,
    {
        SessionInfo {
            session_id,
            client_addr: addr,
            start_time,
            end_time: None,
            username: None,
            password: None,
            auth_attempts: 0,
            auth_success: false,
        }
    }

    /// Create new session info with a fresh random identifier, started now.
    pub fn new(addr: Option<PeerAddr>) -> (r: Self)
        ensures
            r.client_addr == addr,
            r.end_time is None,
            r.username is None,
            r.password is None,
            r.auth_attempts == 0,
            !r.auth_success,
    {
        let id = new_session_id();
        let start = now_millis();
        Self::new_at(id, start, addr)
    }

    /// Marks the session as ended at `t`, unless it has ended already.
    pub fn end_at(&mut self, t: i64)
        ensures
            final(self).end_time == match old(self).end_time {
                Some(e) => Some(e),
                None => Some(t),
            },
            final(self).session_id == old(self).session_id,
            final(self).client_addr == old(self).client_addr,
            final(self).start_time == old(self).start_time,
            final(self).username == old(self).username,
            final(self).password == old(self).password,
            final(self).auth_attempts == old(self).auth_attempts,
            final(self).auth_success == old(self).auth_success,
    {
        if self.end_time.is_none() {
            self.end_time = Some(t);
        }
    }

    /// Mark the session as ended now, unless it has ended already.
    pub fn end(&mut self)
        ensures
            final(self).end_time is Some,
            old(self).end_time is Some ==> final(self).end_time == old(self).end_time,
            final(self).session_id == old(self).session_id,
            final(self).client_addr == old(self).client_addr,
            final(self).start_time == old(self).start_time,
            final(self).username == old(self).username,
            final(self).password == old(self).password,
            final(self).auth_attempts == old(self).auth_attempts,
            final(self).auth_success == old(self).auth_success,
    {
        let t = now_millis();
        self.end_at(t);
    }

    /// Records a password attempt: the credentials are kept, the count goes
    /// up by one, and the attempt counts as a success.
    pub fn record_attempt(&mut self, user: &str, password: &str)
        ensures
            final(self).username matches Some(u) && u@ == user@,
            final(self).password matches Some(p) && p@ == password@,
            final(self).auth_attempts == if old(self).auth_attempts < u32::MAX {
                (old(self).auth_attempts + 1) as u32
            } else {
                u32::MAX
            },
            final(self).auth_success,
            final(self).session_id == old(self).session_id,
            final(self).client_addr == old(self).client_addr,
            final(self).start_time == old(self).start_time,
            final(self).end_time == old(self).end_time,
    {
        self.username = Some(String::from_str(user));
        self.password = Some(String::from_str(password));
        if self.auth_attempts < u32::MAX {
            self.auth_attempts = self.auth_attempts + 1;
        }
        self.auth_success = true;
    }

    /// Session length in whole seconds, up to `now` while it has not ended.
    pub fn duration_seconds_at(&self, now: i64) -> (r: i64)
        ensures
            r == whole_seconds(
                match self.end_time {
                    Some(e) => e,
                    None => now,
                } - self.start_time,
            ),
    {
        let end = match self.end_time {
            Some(e) => e,
            None => now,
        };
        let d: i128 = end as i128 - self.start_time as i128;
        if d >= 0 {
            (d / 1000) as i64
        } else {
            -(((-d) / 1000) as i64)
        }
    }

    /// Get session duration in seconds.
    pub fn duration_seconds(&self) -> (r: i64)
        ensures
            self.end_time matches Some(e) ==> r == whole_seconds(e - self.start_time),
    {
        let now = now_millis();
        self.duration_seconds_at(now)
    }
}

} // verus!
