use docker_proxy::config::{parse_log_level, AuthConfig, Config, LogConfig, ProxyConfig, ServerConfig};

fn good_config() -> Config {
    Config {
        server: ServerConfig {
            host: "0.0.0.0".to_string(),
            port: 8080,
        },
        log: LogConfig {
            log_file_path: "/tmp/test.log".to_string(),
            level: "INFO".to_string(),
        },
        proxy: ProxyConfig {
            default: "docker.io".to_string(),
        },
        auth: AuthConfig {
            ghcr_token: String::new(),
        },
    }
}

#[test]
fn test_config_validate() {
    let config = good_config();
    assert!(config.validate().is_ok());

    let mut bad_host = good_config();
    bad_host.server.host = String::new();
    assert_eq!(
        bad_host.validate(),
        Err("Server host cannot be empty".to_string())
    );

    let mut bad_port = good_config();
    bad_port.server.port = 0;
    assert_eq!(
        bad_port.validate(),
        Err("Server port must be greater than 0".to_string())
    );

    let mut bad_level = good_config();
    bad_level.log.level = "verbose".to_string();
    assert_eq!(
        bad_level.validate(),
        Err(
            "Invalid log level 'verbose'. Must be one of: [\"debug\", \"info\", \"warn\", \"error\", \"trace\"]"
                .to_string()
        )
    );

    let mut bad_path = good_config();
    bad_path.log.log_file_path = String::new();
    assert_eq!(
        bad_path.validate(),
        Err("Log file path cannot be empty".to_string())
    );

    let mut bad_proxy = good_config();
    bad_proxy.proxy.default = String::new();
    assert_eq!(
        bad_proxy.validate(),
        Err("Default proxy registry cannot be empty".to_string())
    );
}

#[test]
fn test_config_accessors() {
    let config = good_config();
    assert_eq!(config.server_addr(), "0.0.0.0:8080");
    assert_eq!(config.default_registry(), "docker.io");
    assert_eq!(config.log_level(), "INFO");
    assert_eq!(config.log_level_normalized(), "info");
    assert_eq!(config.log_file_path(), "/tmp/test.log");
    assert_eq!(config.ghcr_token(), "");
    assert!(!config.has_ghcr_token());

    let mut with_token = good_config();
    with_token.auth.ghcr_token = "tok".to_string();
    assert!(with_token.has_ghcr_token());
    assert_eq!(with_token.ghcr_token(), "tok");
}

#[test]
fn test_config_display_string() {
    let config = good_config();
    let s = config.to_display_string();
    assert_eq!(
        s,
        "Server: 0.0.0.0:8080 | Log Level: INFO | Log Path: /tmp/test.log | Default Registry: docker.io"
    );
    // the token never appears in the display string
    let mut with_token = good_config();
    with_token.auth.ghcr_token = "supersecret".to_string();
    assert!(!with_token.to_display_string().contains("supersecret"));
}

#[test]
fn test_parse_log_level() {
    assert_eq!(parse_log_level("DEBUG"), "debug");
    assert_eq!(parse_log_level("warn"), "warn");
    assert_eq!(parse_log_level("Trace"), "trace");
    assert_eq!(parse_log_level("error"), "error");
    // anything unrecognized falls back to info
    assert_eq!(parse_log_level("verbose"), "info");
    assert_eq!(parse_log_level(""), "info");
}

#[test]
fn test_log_level_case_normalization() {
    let mut c = good_config();
    c.log.level = "Debug".to_string();
    assert!(c.validate().is_ok());
    assert_eq!(c.log_level_normalized(), "debug");
    c.log.level = "TRACE".to_string();
    assert!(c.validate().is_ok());
    assert_eq!(c.log_level_normalized(), "trace");
}
