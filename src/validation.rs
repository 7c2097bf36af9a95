//! Configuration validation: the first problem found, section by section.

use vstd::prelude::*;
use crate::config::{
    Config, ServerConfig, SecurityConfig, LoggingConfig, StorageConfig, ShellConfig, CaptureConfig,
    MAX_CAPTURE_BYTES,
};
use crate::ipaddr::{is_ip_text, is_ip, is_ipv4_text, is_dec_octet, dec_value};
use crate::text::{Sep, fields};
use crate::text::{same_text, views};

verus! {

/// What is wrong with a configuration.
#[derive(PartialEq, Eq, Structural, Clone, Copy, Debug)]
pub enum ConfigErrorKind {
    InvalidPort,
    InvalidListenAddr,
    ZeroMaxConnections,
    ZeroConnectionsPerIp,
    ZeroRateLimitWindow,
    InvalidWhitelistIp,
    InvalidBlacklistIp,
    InvalidLogLevel,
    InvalidLogFormat,
    InvalidLogOutput,
    MissingLogFilePath,
    InvalidStorageBackend,
    MissingFileStorage,
    EmptyHostname,
    ZeroMaxHistory,
    ZeroMaxFileSize,
    MaxFileSizeTooLarge,
}

/// A configuration error: its kind and the offending text, if any.
#[derive(Debug)]
pub struct ConfigError {
    pub kind: ConfigErrorKind,
    pub detail: String,
}

impl ConfigError {
    /// An error of the given kind about `detail`.
    pub fn new(kind: ConfigErrorKind, detail: &str) -> (r: Self)
        ensures
            r.kind == kind,
            r.detail@ == detail@,
    {
        ConfigError { kind, detail: String::from_str(detail) }
    }

    /// The error as a sentence.
    pub fn message(&self) -> (r: String)
        ensures
            r@ == message_text(self.kind, self.detail@),
    {
        let (a, b) = message_parts(self.kind);
        let mut r = String::from_str(a);
        r.append(self.detail.as_str());
        r.append(b);
        r
    }
}

/// The text before and after the detail in an error's message.
pub open spec fn message_parts_spec(kind: ConfigErrorKind) -> (Seq<char>, Seq<char>) {
    match kind {
        ConfigErrorKind::InvalidPort => ("Invalid port: "@, " (must be 1-65535)"@),
        ConfigErrorKind::InvalidListenAddr => ("Invalid listen address: "@, ""@),
        ConfigErrorKind::ZeroMaxConnections => ("max_connections must be greater than 0"@, ""@),
        ConfigErrorKind::ZeroConnectionsPerIp => ("max_connections_per_ip must be greater than 0"@, ""@),
        ConfigErrorKind::ZeroRateLimitWindow => ("rate_limit_window_secs must be greater than 0"@, ""@),
        ConfigErrorKind::InvalidWhitelistIp => ("Invalid whitelist IP: "@, ""@),
        ConfigErrorKind::InvalidBlacklistIp => ("Invalid blacklist IP: "@, ""@),
        ConfigErrorKind::InvalidLogLevel => ("Invalid log level: "@, " (must be one of: trace, debug, info, warn, error)"@),
        ConfigErrorKind::InvalidLogFormat => ("Invalid log format: "@, " (must be one of: json, pretty)"@),
        ConfigErrorKind::InvalidLogOutput => ("Invalid log output: "@, " (must be one of: stdout, file)"@),
        ConfigErrorKind::MissingLogFilePath => ("file_path must be set when output is 'file'"@, ""@),
        ConfigErrorKind::InvalidStorageBackend => ("Invalid storage backend: "@, " (must be one of: file, sqlite)"@),
        ConfigErrorKind::MissingFileStorage => ("file storage config must be set when backend is 'file'"@, ""@),
        ConfigErrorKind::EmptyHostname => ("hostname cannot be empty"@, ""@),
        ConfigErrorKind::ZeroMaxHistory => ("max_history must be greater than 0"@, ""@),
        ConfigErrorKind::ZeroMaxFileSize => ("max_file_size_bytes must be greater than 0"@, ""@),
        ConfigErrorKind::MaxFileSizeTooLarge => ("max_file_size_bytes cannot exceed 100MB"@, ""@),
    }
}

pub open spec fn message_text(kind: ConfigErrorKind, detail: Seq<char>) -> Seq<char> {
    message_parts_spec(kind).0 + detail + message_parts_spec(kind).1
}

fn message_parts(kind: ConfigErrorKind) -> (r: (&'static str, &'static str))
    ensures
        (r.0@, r.1@) == message_parts_spec(kind),
{
    match kind {
        ConfigErrorKind::InvalidPort => ("Invalid port: ", " (must be 1-65535)"),
        ConfigErrorKind::InvalidListenAddr => ("Invalid listen address: ", ""),
        ConfigErrorKind::ZeroMaxConnections => ("max_connections must be greater than 0", ""),
        ConfigErrorKind::ZeroConnectionsPerIp => ("max_connections_per_ip must be greater than 0", ""),
        ConfigErrorKind::ZeroRateLimitWindow => ("rate_limit_window_secs must be greater than 0", ""),
        ConfigErrorKind::InvalidWhitelistIp => ("Invalid whitelist IP: ", ""),
        ConfigErrorKind::InvalidBlacklistIp => ("Invalid blacklist IP: ", ""),
        ConfigErrorKind::InvalidLogLevel => ("Invalid log level: ", " (must be one of: trace, debug, info, warn, error)"),
        ConfigErrorKind::InvalidLogFormat => ("Invalid log format: ", " (must be one of: json, pretty)"),
        ConfigErrorKind::InvalidLogOutput => ("Invalid log output: ", " (must be one of: stdout, file)"),
        ConfigErrorKind::MissingLogFilePath => ("file_path must be set when output is 'file'", ""),
        ConfigErrorKind::InvalidStorageBackend => ("Invalid storage backend: ", " (must be one of: file, sqlite)"),
        ConfigErrorKind::MissingFileStorage => ("file storage config must be set when backend is 'file'", ""),
        ConfigErrorKind::EmptyHostname => ("hostname cannot be empty", ""),
        ConfigErrorKind::ZeroMaxHistory => ("max_history must be greater than 0", ""),
        ConfigErrorKind::ZeroMaxFileSize => ("max_file_size_bytes must be greater than 0", ""),
        ConfigErrorKind::MaxFileSizeTooLarge => ("max_file_size_bytes cannot exceed 100MB", ""),
    }
}

/// A problem: its kind and the offending text.
pub type Problem = Option<(ConfigErrorKind, Seq<char>)>;

/// The first entry of `ips` that is not an IP address.
pub open spec fn first_bad_ip(ips: Seq<Seq<char>>) -> Option<Seq<char>>
    decreases ips.len(),
{
    if ips.len() == 0 {
        None
    } else if !is_ip_text(ips[0]) {
        Some(ips[0])
    } else {
        first_bad_ip(ips.drop_first())
    }
}

pub open spec fn server_problem(c: ServerConfig) -> Problem {
    if c.port == 0 {
        Some((ConfigErrorKind::InvalidPort, "0"@))
    } else if !is_ip_text(c.listen_addr@) {
        Some((ConfigErrorKind::InvalidListenAddr, c.listen_addr@))
    } else if c.max_connections == 0 {
        Some((ConfigErrorKind::ZeroMaxConnections, ""@))
    } else {
        None
    }
}

pub open spec fn security_problem(c: SecurityConfig) -> Problem {
    if c.rate_limit_enabled && c.max_connections_per_ip == 0 {
        Some((ConfigErrorKind::ZeroConnectionsPerIp, ""@))
    } else if c.rate_limit_enabled && c.rate_limit_window_secs == 0 {
        Some((ConfigErrorKind::ZeroRateLimitWindow, ""@))
    } else if first_bad_ip(views(c.whitelist_ips@)) is Some {
        Some((ConfigErrorKind::InvalidWhitelistIp, first_bad_ip(views(c.whitelist_ips@))->0))
    } else if first_bad_ip(views(c.blacklist_ips@)) is Some {
        Some((ConfigErrorKind::InvalidBlacklistIp, first_bad_ip(views(c.blacklist_ips@))->0))
    } else {
        None
    }
}

pub open spec fn is_log_level(s: Seq<char>) -> bool {
    s == "trace"@ || s == "debug"@ || s == "info"@ || s == "warn"@ || s == "error"@
}

pub open spec fn logging_problem(c: LoggingConfig) -> Problem {
    if !is_log_level(c.level@) {
        Some((ConfigErrorKind::InvalidLogLevel, c.level@))
    } else if !(c.format@ == "json"@ || c.format@ == "pretty"@) {
        Some((ConfigErrorKind::InvalidLogFormat, c.format@))
    } else if !(c.output@ == "stdout"@ || c.output@ == "file"@) {
        Some((ConfigErrorKind::InvalidLogOutput, c.output@))
    } else if c.output@ == "file"@ && c.file_path is None {
        Some((ConfigErrorKind::MissingLogFilePath, ""@))
    } else {
        None
    }
}

pub open spec fn storage_problem(c: StorageConfig) -> Problem {
    if c.enabled && !(c.backend@ == "file"@ || c.backend@ == "sqlite"@) {
        Some((ConfigErrorKind::InvalidStorageBackend, c.backend@))
    } else if c.enabled && c.backend@ == "file"@ && c.file is None {
        Some((ConfigErrorKind::MissingFileStorage, ""@))
    } else {
        None
    }
}

pub open spec fn shell_problem(c: ShellConfig) -> Problem {
    if c.hostname@.len() == 0 {
        Some((ConfigErrorKind::EmptyHostname, ""@))
    } else if c.max_history == 0 {
        Some((ConfigErrorKind::ZeroMaxHistory, ""@))
    } else {
        None
    }
}

pub open spec fn capture_problem(c: CaptureConfig) -> Problem {
    if c.max_file_size_bytes == 0 {
        Some((ConfigErrorKind::ZeroMaxFileSize, ""@))
    } else if c.max_file_size_bytes > MAX_CAPTURE_BYTES {
        Some((ConfigErrorKind::MaxFileSizeTooLarge, ""@))
    } else {
        None
    }
}

/// The first problem of a configuration, section by section in the order
/// server, security, logging, storage, shell, capture.
pub open spec fn config_problem(c: Config) -> Problem {
    if server_problem(c.server) is Some {
        server_problem(c.server)
    } else if security_problem(c.security) is Some {
        security_problem(c.security)
    } else if logging_problem(c.logging) is Some {
        logging_problem(c.logging)
    } else if storage_problem(c.storage) is Some {
        storage_problem(c.storage)
    } else if shell_problem(c.shell) is Some {
        shell_problem(c.shell)
    } else {
        capture_problem(c.capture)
    }
}

/// The outcome that a problem gives.
pub open spec fn outcome_matches(r: Result<(), ConfigError>, p: Problem) -> bool {
    match r {
        Ok(()) => p is None,
        Err(e) => p == Some((e.kind, e.detail@)),
    }
}

proof fn lemma_fields_step(s: Seq<char>, c: char)
    ensures
        fields(s.push(c), Sep::Char('.')) == if c == '.' {
            fields(s, Sep::Char('.')).push(Seq::<char>::empty())
        } else {
            let f = fields(s, Sep::Char('.'));
            f.update(f.len() - 1, f.last().push(c))
        },
{
    assert(s.push(c).drop_last() =~= s);
}

/// The wildcard address `0.0.0.0` is an IP address.
proof fn lemma_zero_address()
    ensures
        is_ip_text("0.0.0.0"@),
{
    reveal_strlit("0.0.0.0");
    let z = seq!['0'];
    let e = Seq::<char>::empty();
    let s0 = e;
    let s1 = s0.push('0');
    let s2 = s1.push('.');
    let s3 = s2.push('0');
    let s4 = s3.push('.');
    let s5 = s4.push('0');
    let s6 = s5.push('.');
    let s7 = s6.push('0');
    assert(fields(s0, Sep::Char('.')) == seq![e]);
    lemma_fields_step(s0, '0');
    assert(e.push('0') =~= z);
    assert(fields(s1, Sep::Char('.')) =~= seq![z]);
    lemma_fields_step(s1, '.');
    lemma_fields_step(s2, '0');
    assert(fields(s3, Sep::Char('.')) =~= seq![z, z]);
    lemma_fields_step(s3, '.');
    lemma_fields_step(s4, '0');
    assert(fields(s5, Sep::Char('.')) =~= seq![z, z, z]);
    lemma_fields_step(s5, '.');
    lemma_fields_step(s6, '0');
    assert(fields(s7, Sep::Char('.')) =~= seq![z, z, z, z]);
    assert(s7 =~= "0.0.0.0"@);
    assert(z.drop_last() =~= e);
    assert(z.last() == '0');
    assert(dec_value(z) == dec_value(e) * 10 + ('0' as int - '0' as int));
    assert(dec_value(z) == 0);
    assert(is_dec_octet(z));
}

/// The default configuration has no problem.
pub proof fn lemma_default_valid(c: Config)
    requires
        c.server.listen_addr@ == "0.0.0.0"@,
        c.server.port == 2222,
        c.server.max_connections == 100,
        c.security.rate_limit_enabled,
        c.security.max_connections_per_ip == 10,
        c.security.rate_limit_window_secs == 60,
        c.security.whitelist_ips@.len() == 0,
        c.security.blacklist_ips@.len() == 0,
        c.logging.level@ == "info"@,
        c.logging.format@ == "json"@,
        c.logging.output@ == "stdout"@,
        c.storage.enabled,
        c.storage.backend@ == "file"@,
        c.storage.file is Some,
        c.shell.hostname@ == "honeypot"@,
        c.shell.max_history == 1000,
        c.capture.max_file_size_bytes == 10485760,
    ensures
        config_problem(c) is None,
{
    lemma_zero_address();
    reveal_strlit("stdout");
    reveal_strlit("file");
    reveal_strlit("honeypot");
    assert(views(c.security.whitelist_ips@) =~= Seq::<Seq<char>>::empty());
    assert(views(c.security.blacklist_ips@) =~= Seq::<Seq<char>>::empty());
    assert("stdout"@.len() != "file"@.len());
    assert(c.shell.hostname@.len() > 0);
}

/// Configuration validator.
pub struct Validator;

fn bad_ip(ips: &Vec<String>) -> (r: Option<usize>)
    ensures
        match r {
            Some(i) => i < ips.len() && first_bad_ip(views(ips@)) == Some(ips@[i as int]@),
            None => first_bad_ip(views(ips@)) is None,
        },
{
    let mut i: usize = 0;
    assert(views(ips@).subrange(0, ips.len() as int) =~= views(ips@));
    while i < ips.len()
        invariant
            i <= ips.len(),
            first_bad_ip(views(ips@)) == first_bad_ip(views(ips@).subrange(i as int, ips.len() as int)),
        decreases ips.len() - i,
    {
        let ghost rest = views(ips@).subrange(i as int, ips.len() as int);
        assert(rest[0] == ips@[i as int]@);
        assert(rest.drop_first() =~= views(ips@).subrange(i + 1, ips.len() as int));
        if !is_ip(ips[i].as_str()) {
            return Some(i);
        }
        i = i + 1;
    }
    None
}

impl Validator {
    /// Create a new validator.
    pub fn new() -> Self {
        Validator
    }

    /// Validate a configuration: the first problem found, if any.
    pub fn validate(&self, config: &Config) -> (r: Result<(), ConfigError>)
        ensures
            outcome_matches(r, config_problem(*config)),
    {
        self.validate_server(&config.server)?;
        self.validate_security(&config.security)?;
        self.validate_logging(&config.logging)?;
        self.validate_storage(&config.storage)?;
        self.validate_shell(&config.shell)?;
        self.validate_capture(&config.capture)?;
        Ok(())
    }

    fn validate_server(&self, config: &ServerConfig) -> (r: Result<(), ConfigError>)
        ensures
            outcome_matches(r, server_problem(*config)),
    {
        if config.port == 0 {
            return Err(ConfigError::new(ConfigErrorKind::InvalidPort, "0"));
        }
        if !is_ip(config.listen_addr.as_str()) {
            return Err(ConfigError::new(ConfigErrorKind::InvalidListenAddr, config.listen_addr.as_str()));
        }
        if config.max_connections == 0 {
            return Err(ConfigError::new(ConfigErrorKind::ZeroMaxConnections, ""));
        }
        Ok(())
    }

    fn validate_security(&self, config: &SecurityConfig) -> (r: Result<(), ConfigError>)
        ensures
            outcome_matches(r, security_problem(*config)),
    {
        if config.rate_limit_enabled {
            if config.max_connections_per_ip == 0 {
                return Err(ConfigError::new(ConfigErrorKind::ZeroConnectionsPerIp, ""));
            }
            if config.rate_limit_window_secs == 0 {
                return Err(ConfigError::new(ConfigErrorKind::ZeroRateLimitWindow, ""));
            }
        }
        if let Some(i) = bad_ip(&config.whitelist_ips) {
            return Err(ConfigError::new(ConfigErrorKind::InvalidWhitelistIp, config.whitelist_ips[i].as_str()));
        }
        if let Some(i) = bad_ip(&config.blacklist_ips) {
            return Err(ConfigError::new(ConfigErrorKind::InvalidBlacklistIp, config.blacklist_ips[i].as_str()));
        }
        Ok(())
    }

    fn validate_logging(&self, config: &LoggingConfig) -> (r: Result<(), ConfigError>)
        ensures
            outcome_matches(r, logging_problem(*config)),
    {
        let level = config.level.as_str();
        if !(same_text(level, "trace") || same_text(level, "debug") || same_text(level, "info")
            || same_text(level, "warn") || same_text(level, "error")) {
            return Err(ConfigError::new(ConfigErrorKind::InvalidLogLevel, level));
        }
        let format = config.format.as_str();
        if !(same_text(format, "json") || same_text(format, "pretty")) {
            return Err(ConfigError::new(ConfigErrorKind::InvalidLogFormat, format));
        }
        let output = config.output.as_str();
        if !(same_text(output, "stdout") || same_text(output, "file")) {
            return Err(ConfigError::new(ConfigErrorKind::InvalidLogOutput, output));
        }
        if same_text(output, "file") && config.file_path.is_none() {
            return Err(ConfigError::new(ConfigErrorKind::MissingLogFilePath, ""));
        }
        Ok(())
    }

    fn validate_storage(&self, config: &StorageConfig) -> (r: Result<(), ConfigError>)
        ensures
            outcome_matches(r, storage_problem(*config)),
    {
        if config.enabled {
            let backend = config.backend.as_str();
            if !(same_text(backend, "file") || same_text(backend, "sqlite")) {
                return Err(ConfigError::new(ConfigErrorKind::InvalidStorageBackend, backend));
            }
            if same_text(backend, "file") && config.file.is_none() {
                return Err(ConfigError::new(ConfigErrorKind::MissingFileStorage, ""));
            }
        }
        Ok(())
    }

    fn validate_shell(&self, config: &ShellConfig) -> (r: Result<(), ConfigError>)
        ensures
            outcome_matches(r, shell_problem(*config)),
    {
        if config.hostname.unicode_len() == 0 {
            return Err(ConfigError::new(ConfigErrorKind::EmptyHostname, ""));
        }
        if config.max_history == 0 {
            return Err(ConfigError::new(ConfigErrorKind::ZeroMaxHistory, ""));
        }
        Ok(())
    }

    fn validate_capture(&self, config: &CaptureConfig) -> (r: Result<(), ConfigError>)
        ensures
            outcome_matches(r, capture_problem(*config)),
    {
        if config.max_file_size_bytes == 0 {
            return Err(ConfigError::new(ConfigErrorKind::ZeroMaxFileSize, ""));
        }
        if config.max_file_size_bytes > MAX_CAPTURE_BYTES {
            return Err(ConfigError::new(ConfigErrorKind::MaxFileSizeTooLarge, ""));
        }
        Ok(())
    }
}

impl Default for Validator {
    fn default() -> Self {
        Validator
    }
}

impl Config {
    /// Validate configuration.
    pub fn validate(&self) -> (r: Result<(), ConfigError>)
        ensures
            outcome_matches(r, config_problem(*self)),
    {
        Validator::new().validate(self)
    }
}

} // verus!
