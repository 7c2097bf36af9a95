use drhpotter::config::{
    CaptureConfig, Config, ConfigLoader, EnvOverrides, LoggingConfig, SecurityConfig, ServerConfig,
    ShellConfig, StorageConfig, parse_u16,
};
use drhpotter::validation::{ConfigErrorKind, Validator};

fn no_overrides() -> EnvOverrides {
    EnvOverrides { server_port: None, listen_addr: None, log_level: None, log_format: None }
}

#[test]
fn test_server_defaults() {
    let cfg = ServerConfig::default();
    assert_eq!(cfg.port, 2222);
    assert_eq!(cfg.listen_addr, "0.0.0.0");
    assert_eq!(cfg.max_connections, 100);
}

#[test]
fn test_security_defaults() {
    let cfg = SecurityConfig::default();
    assert!(cfg.rate_limit_enabled);
    assert_eq!(cfg.max_connections_per_ip, 10);
}

#[test]
fn test_logging_defaults() {
    let cfg = LoggingConfig::default();
    assert_eq!(cfg.level, "info");
    assert_eq!(cfg.format, "json");
    assert_eq!(cfg.output, "stdout");
}

#[test]
fn test_storage_defaults() {
    let cfg = StorageConfig::default();
    assert!(cfg.enabled);
    assert_eq!(cfg.backend, "file");
    assert!(cfg.file.is_some());
}

#[test]
fn test_shell_defaults() {
    let cfg = ShellConfig::default();
    assert_eq!(cfg.hostname, "honeypot");
    assert!(cfg.history_enabled);
    assert_eq!(cfg.max_history, 1000);
}

#[test]
fn test_capture_defaults() {
    let cfg = CaptureConfig::default();
    assert!(cfg.capture_downloads);
    assert_eq!(cfg.max_file_size_bytes, 10 * 1024 * 1024);
}

#[test]
fn test_load_defaults() {
    let loader = ConfigLoader::new();
    let config = loader.load(None, &no_overrides());
    assert!(config.is_ok());
    let config = config.unwrap();
    assert_eq!(config.server.port, 2222);
}

#[test]
fn test_default_config() {
    let config = Config::default();
    assert_eq!(config.server.port, 2222);
    assert_eq!(config.server.listen_addr, "0.0.0.0");
}

#[test]
fn test_validation_valid() {
    let config = Config::default();
    assert!(config.validate().is_ok());
}

#[test]
fn test_validation_invalid_port() {
    let mut config = Config::default();
    config.server.port = 0;
    assert!(config.validate().is_err());
}

#[test]
fn test_validate_valid_config() {
    let config = Config::default();
    let validator = Validator::new();
    assert!(validator.validate(&config).is_ok());
}

#[test]
fn test_validate_invalid_port() {
    let mut config = Config::default();
    config.server.port = 0;
    let validator = Validator::new();
    assert!(validator.validate(&config).is_err());
}

#[test]
fn test_validate_invalid_listen_addr() {
    let mut config = Config::default();
    config.server.listen_addr = "invalid".to_string();
    let validator = Validator::new();
    assert!(validator.validate(&config).is_err());
}

#[test]
fn test_validate_invalid_log_level() {
    let mut config = Config::default();
    config.logging.level = "invalid".to_string();
    let validator = Validator::new();
    assert!(validator.validate(&config).is_err());
}

#[test]
fn test_validate_file_output_without_path() {
    let mut config = Config::default();
    config.logging.output = "file".to_string();
    config.logging.file_path = None;
    let validator = Validator::new();
    assert!(validator.validate(&config).is_err());
}

#[test]
fn test_validate_invalid_whitelist_ip() {
    let mut config = Config::default();
    config.security.whitelist_ips.push("invalid".to_string());
    let validator = Validator::new();
    assert!(validator.validate(&config).is_err());
}

#[test]
fn test_validate_empty_hostname() {
    let mut config = Config::default();
    config.shell.hostname = "".to_string();
    let validator = Validator::new();
    assert!(validator.validate(&config).is_err());
}

#[test]
fn test_validate_file_size_too_large() {
    let mut config = Config::default();
    config.capture.max_file_size_bytes = 200 * 1024 * 1024; // 200MB
    let validator = Validator::new();
    assert!(validator.validate(&config).is_err());
}

fn kind_of(config: &Config) -> Option<ConfigErrorKind> {
    config.validate().err().map(|e| e.kind)
}

#[test]
fn each_problem_has_its_kind() {
    let mut c = Config::default();
    c.server.port = 0;
    assert_eq!(kind_of(&c), Some(ConfigErrorKind::InvalidPort));

    let mut c = Config::default();
    c.server.listen_addr = "256.0.0.1".to_string();
    assert_eq!(kind_of(&c), Some(ConfigErrorKind::InvalidListenAddr));

    let mut c = Config::default();
    c.server.max_connections = 0;
    assert_eq!(kind_of(&c), Some(ConfigErrorKind::ZeroMaxConnections));

    let mut c = Config::default();
    c.security.max_connections_per_ip = 0;
    assert_eq!(kind_of(&c), Some(ConfigErrorKind::ZeroConnectionsPerIp));

    let mut c = Config::default();
    c.security.rate_limit_window_secs = 0;
    assert_eq!(kind_of(&c), Some(ConfigErrorKind::ZeroRateLimitWindow));

    let mut c = Config::default();
    c.security.rate_limit_enabled = false;
    c.security.rate_limit_window_secs = 0;
    assert_eq!(kind_of(&c), None);

    let mut c = Config::default();
    c.security.blacklist_ips.push("10.0.0.1".to_string());
    c.security.blacklist_ips.push("10.0.0".to_string());
    assert_eq!(kind_of(&c), Some(ConfigErrorKind::InvalidBlacklistIp));
    assert_eq!(c.validate().unwrap_err().detail, "10.0.0");

    let mut c = Config::default();
    c.logging.format = "xml".to_string();
    assert_eq!(kind_of(&c), Some(ConfigErrorKind::InvalidLogFormat));

    let mut c = Config::default();
    c.logging.output = "syslog".to_string();
    assert_eq!(kind_of(&c), Some(ConfigErrorKind::InvalidLogOutput));

    let mut c = Config::default();
    c.logging.output = "file".to_string();
    assert_eq!(kind_of(&c), Some(ConfigErrorKind::MissingLogFilePath));

    let mut c = Config::default();
    c.storage.backend = "s3".to_string();
    assert_eq!(kind_of(&c), Some(ConfigErrorKind::InvalidStorageBackend));

    let mut c = Config::default();
    c.storage.file = None;
    assert_eq!(kind_of(&c), Some(ConfigErrorKind::MissingFileStorage));

    let mut c = Config::default();
    c.shell.max_history = 0;
    assert_eq!(kind_of(&c), Some(ConfigErrorKind::ZeroMaxHistory));

    let mut c = Config::default();
    c.capture.max_file_size_bytes = 0;
    assert_eq!(kind_of(&c), Some(ConfigErrorKind::ZeroMaxFileSize));

    let mut c = Config::default();
    c.capture.max_file_size_bytes = 100 * 1024 * 1024;
    assert_eq!(kind_of(&c), None);
}

#[test]
fn first_problem_wins() {
    let mut c = Config::default();
    c.shell.hostname = String::new();
    c.server.port = 0;
    assert_eq!(kind_of(&c), Some(ConfigErrorKind::InvalidPort));
}

#[test]
fn error_messages_read_as_sentences() {
    let mut c = Config::default();
    c.logging.level = "loud".to_string();
    let e = c.validate().unwrap_err();
    assert_eq!(
        e.message(),
        "Invalid log level: loud (must be one of: trace, debug, info, warn, error)"
    );
    let mut c = Config::default();
    c.server.port = 0;
    assert_eq!(c.validate().unwrap_err().message(), "Invalid port: 0 (must be 1-65535)");
}

#[test]
fn listen_addresses_follow_the_ip_grammar() {
    for good in [
        "127.0.0.1", "0.0.0.0", "255.255.255.255", "::", "::1", "fe80::a00:27ff:fe4e:66a1",
        "1:2:3:4:5:6:7:8", "::ffff:192.168.1.1", "1:2:3:4:5:6:1.2.3.4", "1:2:3:4:5:6:7::",
        "ABCD::ef",
    ] {
        let mut c = Config::default();
        c.server.listen_addr = good.to_string();
        assert_eq!(kind_of(&c), None, "{}", good);
    }
    for bad in [
        "", "1.2.3", "1.2.3.4.5", "01.2.3.4", "256.1.1.1", "1.2.3.4 ", ":::", "1::2::3",
        "1:2:3:4:5:6:7:8:9", "::1:2:3:4:5:6:7:8", "12345::", "1.2.3.4::", "1:2:1.2.3.4",
        "1::2:3:4:5:6:1.2.3.4", "localhost", "fe80::1%eth0",
    ] {
        let mut c = Config::default();
        c.server.listen_addr = bad.to_string();
        assert_eq!(kind_of(&c), Some(ConfigErrorKind::InvalidListenAddr), "{}", bad);
    }
}

#[test]
fn ports_read_like_the_standard_parser() {
    assert_eq!(parse_u16("4444"), Some(4444));
    assert_eq!(parse_u16("+80"), Some(80));
    assert_eq!(parse_u16("0002222"), Some(2222));
    assert_eq!(parse_u16("65535"), Some(65535));
    assert_eq!(parse_u16("65536"), None);
    assert_eq!(parse_u16("99999999999"), None);
    assert_eq!(parse_u16(""), None);
    assert_eq!(parse_u16("+"), None);
    assert_eq!(parse_u16("-1"), None);
    assert_eq!(parse_u16("12a"), None);
}

#[test]
fn environment_overrides_apply() {
    let loader = ConfigLoader::with_config_dir(None);
    let mut config = Config::default();
    let env = EnvOverrides {
        server_port: Some("4444".to_string()),
        listen_addr: Some("127.0.0.1".to_string()),
        log_level: Some("debug".to_string()),
        log_format: None,
    };
    loader.apply_env_overrides(&mut config, &env);
    assert_eq!(config.server.port, 4444);
    assert_eq!(config.server.listen_addr, "127.0.0.1");
    assert_eq!(config.logging.level, "debug");
    assert_eq!(config.logging.format, "json");

    let mut config = Config::default();
    let env = EnvOverrides { server_port: Some("port".to_string()), ..no_overrides() };
    loader.apply_env_overrides(&mut config, &env);
    assert_eq!(config.server.port, 2222);
}

#[test]
fn a_parsed_file_is_finished_and_validated() {
    let loader = ConfigLoader::with_config_dir(Some("/home/u/.config"));
    assert_eq!(
        loader.search_paths(),
        &vec![
            "./drhpotter.toml".to_string(),
            "/home/u/.config/drhpotter/config.toml".to_string(),
            "/etc/drhpotter/config.toml".to_string(),
        ]
    );
    let mut parsed = Config::default();
    parsed.server.port = 0;
    assert!(loader.load(Some(parsed), &no_overrides()).is_err());
    let mut parsed = Config::default();
    parsed.server.port = 0;
    let env = EnvOverrides { server_port: Some("3333".to_string()), ..no_overrides() };
    assert_eq!(loader.load(Some(parsed), &env).unwrap().server.port, 3333);
}
