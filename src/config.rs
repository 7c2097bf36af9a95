//! Configuration of the endpoint: its values, their defaults, overrides
//! from the environment, and validation.

use vstd::prelude::*;
use crate::ipaddr::{is_dec_digit, dec_value};
use crate::storage::{joined_path, join_path};
use crate::text::chars_of;
use crate::validation::{ConfigError, config_problem, outcome_matches};

verus! {

/// Main configuration structure.
#[derive(Debug)]
pub struct Config {
    pub server: ServerConfig,
    pub security: SecurityConfig,
    pub logging: LoggingConfig,
    pub storage: StorageConfig,
    pub shell: ShellConfig,
    pub capture: CaptureConfig,
}

/// Server configuration.
#[derive(Debug)]
pub struct ServerConfig {
    /// Listen address (e.g., "0.0.0.0").
    pub listen_addr: String,
    /// Port to bind to.
    pub port: u16,
    /// Maximum concurrent connections.
    pub max_connections: usize,
    /// Session timeout in seconds.
    pub session_timeout_secs: u64,
    /// Authentication delay in seconds.
    pub auth_delay_secs: u64,
}

/// Security configuration.
#[derive(Debug)]
pub struct SecurityConfig {
    /// Enable rate limiting.
    pub rate_limit_enabled: bool,
    /// Max connections per IP.
    pub max_connections_per_ip: usize,
    /// Rate limit window in seconds.
    pub rate_limit_window_secs: u64,
    /// IP whitelist (never rate limit).
    pub whitelist_ips: Vec<String>,
    /// IP blacklist (immediately reject).
    pub blacklist_ips: Vec<String>,
}

/// Logging configuration.
#[derive(Debug)]
pub struct LoggingConfig {
    /// Log level: trace, debug, info, warn, error.
    pub level: String,
    /// Log format: json, pretty.
    pub format: String,
    /// Log output: stdout, file.
    pub output: String,
    /// Log file path (if output = file).
    pub file_path: Option<String>,
}

/// Storage configuration.
#[derive(Debug)]
pub struct StorageConfig {
    /// Enable persistent storage.
    pub enabled: bool,
    /// Storage backend: file, sqlite.
    pub backend: String,
    /// File storage configuration.
    pub file: Option<FileStorageConfig>,
}

/// File storage configuration.
#[derive(Debug)]
pub struct FileStorageConfig {
    /// Base path for storage.
    pub base_path: String,
    /// Sessions directory.
    pub sessions_dir: String,
    /// Captured files directory.
    pub files_dir: String,
}

/// Shell configuration.
#[derive(Debug)]
pub struct ShellConfig {
    /// Hostname to present.
    pub hostname: String,
    /// Enable command history.
    pub history_enabled: bool,
    /// Maximum commands to track.
    pub max_history: usize,
    /// Welcome banner.
    pub banner: String,
}

/// Capture configuration.
#[derive(Debug)]
pub struct CaptureConfig {
    /// Capture downloaded files.
    pub capture_downloads: bool,
    /// Maximum file size to capture (bytes).
    pub max_file_size_bytes: usize,
}

/// The largest file size a configuration may ask to capture: 100 MiB.
pub const MAX_CAPTURE_BYTES: usize = 104857600;

pub const DEFAULT_BANNER: &'static str = "Welcome to Ubuntu 22.04.1 LTS (GNU/Linux 5.15.0-58-generic x86_64)\n\nLast login: Sat Nov  9 10:30:15 2025 from 192.168.1.1\n";

impl Default for ServerConfig {
    fn default() -> (r: Self)
        ensures
            r.listen_addr@ == "0.0.0.0"@,
            r.port == 2222,
            r.max_connections == 100,
            r.session_timeout_secs == 1800,
            r.auth_delay_secs == 2,
    {
        ServerConfig {
            listen_addr: String::from_str("0.0.0.0"),
            port: 2222,
            max_connections: 100,
            session_timeout_secs: 1800,
            auth_delay_secs: 2,
        }
    }
}

impl Default for SecurityConfig {
    fn default() -> (r: Self)
        ensures
            r.rate_limit_enabled,
            r.max_connections_per_ip == 10,
            r.rate_limit_window_secs == 60,
            r.whitelist_ips@.len() == 0,
            r.blacklist_ips@.len() == 0,
    {
        SecurityConfig {
            rate_limit_enabled: true,
            max_connections_per_ip: 10,
            rate_limit_window_secs: 60,
            whitelist_ips: Vec::new(),
            blacklist_ips: Vec::new(),
        }
    }
}

impl Default for LoggingConfig {
    fn default() -> (r: Self)
        ensures
            r.level@ == "info"@,
            r.format@ == "json"@,
            r.output@ == "stdout"@,
            r.file_path is None,
    {
        LoggingConfig {
            level: String::from_str("info"),
            format: String::from_str("json"),
            output: String::from_str("stdout"),
            file_path: None,
        }
    }
}

impl Default for FileStorageConfig {
    fn default() -> (r: Self)
        ensures
            r.base_path@ == "./data"@,
            r.sessions_dir@ == "./data/sessions"@,
            r.files_dir@ == "./data/captured_files"@,
    {
        FileStorageConfig {
            base_path: String::from_str("./data"),
            sessions_dir: String::from_str("./data/sessions"),
            files_dir: String::from_str("./data/captured_files"),
        }
    }
}

impl Default for StorageConfig {
    fn default() -> (r: Self)
        ensures
            r.enabled,
            r.backend@ == "file"@,
            r.file is Some,
    {
        StorageConfig { enabled: true, backend: String::from_str("file"), file: Some(FileStorageConfig::default()) }
    }
}

impl Default for ShellConfig {
    fn default() -> (r: Self)
        ensures
            r.hostname@ == "honeypot"@,
            r.history_enabled,
            r.max_history == 1000,
            r.banner@ == DEFAULT_BANNER@,
    {
        ShellConfig {
            hostname: String::from_str("honeypot"),
            history_enabled: true,
            max_history: 1000,
            banner: String::from_str(DEFAULT_BANNER),
        }
    }
}

impl Default for CaptureConfig {
    fn default() -> (r: Self)
        ensures
            r.capture_downloads,
            r.max_file_size_bytes == 10485760,
    {
        CaptureConfig { capture_downloads: true, max_file_size_bytes: 10485760 }
    }
}

impl Default for Config {
    fn default() -> (r: Self)
        ensures
            r.server.listen_addr@ == "0.0.0.0"@,
            r.server.port == 2222,
            r.server.max_connections == 100,
            r.security.rate_limit_enabled,
            r.security.max_connections_per_ip == 10,
            r.security.rate_limit_window_secs == 60,
            r.security.whitelist_ips@.len() == 0,
            r.security.blacklist_ips@.len() == 0,
            r.logging.level@ == "info"@,
            r.logging.format@ == "json"@,
            r.logging.output@ == "stdout"@,
            r.logging.file_path is None,
            r.storage.enabled,
            r.storage.backend@ == "file"@,
            r.storage.file is Some,
            r.shell.hostname@ == "honeypot"@,
            r.shell.max_history == 1000,
            r.capture.max_file_size_bytes == 10485760,
    {
        Config {
            server: ServerConfig::default(),
            security: SecurityConfig::default(),
            logging: LoggingConfig::default(),
            storage: StorageConfig::default(),
            shell: ShellConfig::default(),
            capture: CaptureConfig::default(),
        }
    }
}

/// `s` without a leading `+`.
pub open spec fn unsigned_digits(s: Seq<char>) -> Seq<char> {
    if s.len() > 0 && s[0] == '+' {
        s.drop_first()
    } else {
        s
    }
}

pub open spec fn all_dec_digits(d: Seq<char>) -> bool {
    forall|i: int| 0 <= i < d.len() ==> is_dec_digit(#[trigger] d[i])
}

/// The value of decimal text as `str::parse::<u16>` reads it: an optional
/// `+`, then one or more ASCII digits, at most 65535.
pub open spec fn u16_value(s: Seq<char>) -> Option<u16> {
    let d = unsigned_digits(s);
    if d.len() > 0 && all_dec_digits(d) && dec_value(d) <= 65535 {
        Some(dec_value(d) as u16)
    } else {
        None
    }
}

proof fn lemma_dec_value_grows(d: Seq<char>, i: int)
    requires
        0 <= i <= d.len(),
        forall|k: int| 0 <= k < d.len() ==> is_dec_digit(#[trigger] d[k]),
    ensures
        dec_value(d) >= dec_value(d.subrange(0, i)) >= 0,
    decreases d.len(),
{
    if d.len() > 0 {
        if i == d.len() {
            assert(d.subrange(0, i) =~= d);
            lemma_dec_value_grows(d.drop_last(), d.len() - 1);
            assert(d.drop_last().subrange(0, d.len() - 1) =~= d.drop_last());
        } else {
            lemma_dec_value_grows(d.drop_last(), i);
            assert(d.drop_last().subrange(0, i) =~= d.subrange(0, i));
        }
    }
}

/// Reads a port number as `str::parse::<u16>` does.
pub fn parse_u16(s: &str) -> (r: Option<u16>)
    ensures
        r == u16_value(s@),
{
    let cs = chars_of(s);
    let n = cs.len();
    let start: usize = if n > 0 && cs[0] == '+' {
        1
    } else {
        0
    };
    let ghost d = unsigned_digits(s@);
    assert(d =~= cs@.subrange(start as int, n as int));
    if start >= n {
        return None;
    }
    let mut v: u32 = 0;
    let mut i: usize = start;
    assert(d.subrange(0, 0) =~= Seq::<char>::empty());
    while i < n
        invariant
            cs@ == s@,
            n == cs.len(),
            start <= i <= n,
            d == cs@.subrange(start as int, n as int),
            d == unsigned_digits(s@),
            forall|k: int| 0 <= k < i - start ==> is_dec_digit(#[trigger] d[k]),
            v == dec_value(d.subrange(0, i - start)),
            v <= 65535,
        decreases n - i,
    {
        let c = cs[i];
        if !('0' <= c && c <= '9') {
            assert(d[i - start] == c);
            assert(!all_dec_digits(d));
            return None;
        }
        assert(d.subrange(0, i - start + 1).drop_last() =~= d.subrange(0, i - start as int));
        v = v * 10 + (c as u32 - '0' as u32);
        if v > 65535 {
            proof {
                if all_dec_digits(d) {
                    lemma_dec_value_grows(d, i - start + 1);
                }
            }
            return None;
        }
        i = i + 1;
    }
    assert(d.subrange(0, n - start) =~= d);
    Some(v as u16)
}

/// Values read from the environment that take precedence over the
/// configuration file.
#[derive(Debug)]
pub struct EnvOverrides {
    /// `DRHPOTTER_SERVER_PORT`.
    pub server_port: Option<String>,
    /// `DRHPOTTER_SERVER_LISTEN_ADDR`.
    pub listen_addr: Option<String>,
    /// `DRHPOTTER_LOG_LEVEL`.
    pub log_level: Option<String>,
    /// `DRHPOTTER_LOG_FORMAT`.
    pub log_format: Option<String>,
}

/// Configuration loader: knows where configuration files are looked for,
/// and turns what was found into a validated configuration.
pub struct ConfigLoader {
    search_paths: Vec<String>,
}

/// Relies on dirs's `config_dir`: the user's configuration directory, if
/// the platform and the environment name one. Nothing is promised of it.
#[verifier::external_body]
fn user_config_dir() -> (r: Option<String>) {
    dirs::config_dir().map(|p| p.to_string_lossy().into_owned())
}

impl ConfigLoader {
    pub closed spec fn paths(&self) -> Seq<Seq<char>> {
        crate::text::views(self.search_paths@)
    }

    /// The search paths for a user configuration directory `dir`, if any:
    /// the working directory, then `dir`, then `/etc`.
    pub open spec fn paths_for(dir: Option<Seq<char>>) -> Seq<Seq<char>> {
        match dir {
            Some(d) => seq!["./drhpotter.toml"@, joined_path(d, "drhpotter/config.toml"@), "/etc/drhpotter/config.toml"@],
            None => seq!["./drhpotter.toml"@, "/etc/drhpotter/config.toml"@],
        }
    }

    /// A loader for the given user configuration directory.
    pub fn with_config_dir(dir: Option<&str>) -> (r: Self)
        ensures
            r.paths() == Self::paths_for(
                match dir {
                    Some(d) => Some(d@),
                    None => None,
                },
            ),
    {
        let mut search_paths: Vec<String> = Vec::new();
        search_paths.push(String::from_str("./drhpotter.toml"));
        if let Some(d) = dir {
            search_paths.push(join_path(d, "drhpotter/config.toml"));
        }
        search_paths.push(String::from_str("/etc/drhpotter/config.toml"));
        let r = ConfigLoader { search_paths };
        assert(r.paths() =~= Self::paths_for(
            match dir {
                Some(d) => Some(d@),
                None => None,
            },
        ));
        r
    }

    /// Create a new configuration loader for this user's directories.
    pub fn new() -> (r: Self)
        ensures
            exists|dir: Option<Seq<char>>| r.paths() == Self::paths_for(dir),
    {
        match user_config_dir() {
            Some(d) => Self::with_config_dir(Some(d.as_str())),
            None => Self::with_config_dir(None),
        }
    }

    /// Where configuration files are looked for, in order.
    pub fn search_paths(&self) -> (r: &Vec<String>)
        ensures
            crate::text::views(r@) == self.paths(),
    {
        &self.search_paths
    }

    /// Apply environment variable overrides: a port that does not read as
    /// a number is ignored.
    pub fn apply_env_overrides(&self, config: &mut Config, env: &EnvOverrides)
        ensures
            overrides_applied(*old(config), *env, *final(config)),
    {
        if let Some(p) = &env.server_port {
            if let Some(port) = parse_u16(p.as_str()) {
                config.server.port = port;
            }
        }
        if let Some(a) = &env.listen_addr {
            config.server.listen_addr = a.clone();
        }
        if let Some(l) = &env.log_level {
            config.logging.level = l.clone();
        }
        if let Some(f) = &env.log_format {
            config.logging.format = f.clone();
        }
    }

    /// Finish a configuration read from a file: apply the environment's
    /// overrides, then validate.
    pub fn from_parsed(&self, config: Config, env: &EnvOverrides) -> (r: Result<Config, ConfigError>)
        ensures
            finished(config, *env, r),
    {
        let mut config = config;
        self.apply_env_overrides(&mut config, env);
        match config.validate() {
            Ok(()) => Ok(config),
            Err(e) => Err(e),
        }
    }

    /// Load configuration: the one read from the first search path that
    /// exists, finished with the environment's overrides; or, when no file
    /// was found, the defaults.
    pub fn load(&self, found: Option<Config>, env: &EnvOverrides) -> (r: Result<Config, ConfigError>)
        ensures
            found matches Some(c) ==> finished(c, *env, r),
            found is None ==> (r matches Ok(c) && c.server.port == 2222 && config_problem(c) is None),
    {
        match found {
            Some(c) => self.from_parsed(c, env),
            None => {
                let config = Config::default();
                proof {
                    crate::validation::lemma_default_valid(config);
                }
                match config.validate() {
                    Ok(()) => Ok(config),
                    Err(e) => Err(e),
                }
            },
        }
    }
}

/// `new` is `old` with the environment's overrides: the port when it reads
/// as a number, the listen address, the log level and the log format.
pub open spec fn overrides_applied(old: Config, env: EnvOverrides, new: Config) -> bool {
    &&& new.server.port == match env.server_port {
        Some(p) => match u16_value(p@) {
            Some(v) => v,
            None => old.server.port,
        },
        None => old.server.port,
    }
    &&& new.server.listen_addr@ == match env.listen_addr {
        Some(a) => a@,
        None => old.server.listen_addr@,
    }
    &&& new.logging.level@ == match env.log_level {
        Some(l) => l@,
        None => old.logging.level@,
    }
    &&& new.logging.format@ == match env.log_format {
        Some(f) => f@,
        None => old.logging.format@,
    }
    &&& new.server.max_connections == old.server.max_connections
    &&& new.server.session_timeout_secs == old.server.session_timeout_secs
    &&& new.server.auth_delay_secs == old.server.auth_delay_secs
    &&& new.security == old.security
    &&& new.logging.output == old.logging.output
    &&& new.logging.file_path == old.logging.file_path
    &&& new.storage == old.storage
    &&& new.shell == old.shell
    &&& new.capture == old.capture
}

/// `r` is the outcome of finishing `config`: the overridden configuration
/// when it has no problem, else its first problem.
pub open spec fn finished(config: Config, env: EnvOverrides, r: Result<Config, ConfigError>) -> bool {
    exists|c: Config|
        #[trigger] overrides_applied(config, env, c) && match r {
            Ok(k) => k == c && config_problem(c) is None,
            Err(e) => outcome_matches(Err(e), config_problem(c)),
        }
}

impl Default for ConfigLoader {
    fn default() -> (r: Self)
        ensures
            exists|dir: Option<Seq<char>>| r.paths() == Self::paths_for(dir),
    {
        Self::new()
    }
}

impl Config {
    /// Load configuration from what was found on the search paths; see
    /// `ConfigLoader::load`.
    pub fn load(found: Option<Config>, env: &EnvOverrides) -> (r: Result<Config, ConfigError>)
        ensures
            found matches Some(c) ==> finished(c, *env, r),
            found is None ==> (r matches Ok(c) && c.server.port == 2222 && config_problem(c) is None),
    {
        ConfigLoader::new().load(found, env)
    }
}

} // verus!
