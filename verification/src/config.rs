//! Process configuration: the server address, logging, the default upstream
//! registry and the optional static registry credential, with validation.
//! Reading the TOML file is the edge's business; the values and the rules
//! about them live here.

use crate::strutil::{dec_str, str_eq, to_lower_spec, to_lowercase_ascii, u64_to_string};
use vstd::prelude::*;

verus! {

/// Server configuration.
#[derive(Debug, Clone)]
pub struct ServerConfig {
    pub host: String,
    pub port: u16,
}

/// The first rule a server configuration breaks, or nothing.
pub open spec fn server_error_spec(c: ServerConfig) -> Option<Seq<char>> {
    if c.host@.len() == 0 {
        Some("Server host cannot be empty"@)
    } else if c.port == 0 {
        Some("Server port must be greater than 0"@)
    } else {
        None
    }
}

impl ServerConfig {
    /// Validate server configuration: a host must be named and the port must
    /// be nonzero.
    pub fn validate(&self) -> (r: Result<(), String>)
        ensures
            r is Ok <==> server_error_spec(*self) is None,
            r matches Err(m) ==> server_error_spec(*self) == Some(m@),
    {
        if self.host.as_str().is_empty() {
            return Err("Server host cannot be empty".to_owned());
        }
        if self.port == 0 {
            return Err("Server port must be greater than 0".to_owned());
        }
        Ok(())
    }

    /// The socket address `host:port`.
    pub fn socket_addr(&self) -> (r: String)
        ensures
            r@ == self.host@ + seq![':'] + dec_str(self.port as nat),
    {
        let mut s = self.host.clone();
        s.append(":");
        s.append(u64_to_string(self.port as u64).as_str());
        proof {
            reveal_strlit(":");
            assert(":"@ =~= seq![':']);
        }
        s
    }
}

/// Logging configuration.
#[derive(Debug, Clone)]
pub struct LogConfig {
    pub log_file_path: String,
    pub level: String,
}

/// The recognized log levels, compared after ASCII lowercasing.
pub open spec fn is_valid_level(level: Seq<char>) -> bool {
    let l = to_lower_spec(level);
    l == "debug"@ || l == "info"@ || l == "warn"@ || l == "error"@ || l == "trace"@
}

/// The first rule a log configuration breaks, or nothing.
pub open spec fn log_error_spec(c: LogConfig) -> Option<Seq<char>> {
    if !is_valid_level(c.level@) {
        Some(
            "Invalid log level '"@ + c.level@
                + "'. Must be one of: [\"debug\", \"info\", \"warn\", \"error\", \"trace\"]"@,
        )
    } else if c.log_file_path@.len() == 0 {
        Some("Log file path cannot be empty"@)
    } else {
        None
    }
}

impl LogConfig {
    /// Validate log configuration: the level must be one of the recognized
    /// names (in any case) and a log file path must be given.
    pub fn validate(&self) -> (r: Result<(), String>)
        ensures
            r is Ok <==> log_error_spec(*self) is None,
            r matches Err(m) ==> log_error_spec(*self) == Some(m@),
    {
        let lower = to_lowercase_ascii(self.level.as_str());
        let valid = str_eq(lower.as_str(), "debug") || str_eq(lower.as_str(), "info") || str_eq(
            lower.as_str(),
            "warn",
        ) || str_eq(lower.as_str(), "error") || str_eq(lower.as_str(), "trace");
        if !valid {
            let mut m = "Invalid log level '".to_owned();
            m.append(self.level.as_str());
            m.append("'. Must be one of: [\"debug\", \"info\", \"warn\", \"error\", \"trace\"]");
            return Err(m);
        }
        if self.log_file_path.as_str().is_empty() {
            return Err("Log file path cannot be empty".to_owned());
        }
        Ok(())
    }

    /// The log level, ASCII-lowercased.
    pub fn normalized_level(&self) -> (r: String)
        ensures
            r@ == to_lower_spec(self.level@),
    {
        to_lowercase_ascii(self.level.as_str())
    }
}

/// The level the logger is initialized with: a recognized level lowercased,
/// anything else falling back to `info`.
pub open spec fn parse_log_level_spec(level: Seq<char>) -> Seq<char> {
    if is_valid_level(level) {
        to_lower_spec(level)
    } else {
        "info"@
    }
}

/// Map a configured level string to the level the logger uses, defaulting to
/// `info` for anything unrecognized.
pub fn parse_log_level(level: &str) -> (r: String)
    ensures
        r@ == parse_log_level_spec(level@),
{
    let lower = to_lowercase_ascii(level);
    let valid = str_eq(lower.as_str(), "debug") || str_eq(lower.as_str(), "info") || str_eq(
        lower.as_str(),
        "warn",
    ) || str_eq(lower.as_str(), "error") || str_eq(lower.as_str(), "trace");
    if valid {
        lower
    } else {
        "info".to_owned()
    }
}

/// Proxy configuration: the default upstream registry.
#[derive(Debug, Clone)]
pub struct ProxyConfig {
    pub default: String,
}

/// The first rule a proxy configuration breaks, or nothing.
pub open spec fn proxy_error_spec(c: ProxyConfig) -> Option<Seq<char>> {
    if c.default@.len() == 0 {
        Some("Default proxy registry cannot be empty"@)
    } else {
        None
    }
}

impl ProxyConfig {
    /// Validate proxy configuration: a default registry must be named.
    pub fn validate(&self) -> (r: Result<(), String>)
        ensures
            r is Ok <==> proxy_error_spec(*self) is None,
            r matches Err(m) ==> proxy_error_spec(*self) == Some(m@),
    {
        if self.default.as_str().is_empty() {
            return Err("Default proxy registry cannot be empty".to_owned());
        }
        Ok(())
    }
}

/// Authentication configuration: an optional static credential for the
/// GitHub container registry, empty when none is configured.
#[derive(Debug, Clone)]
pub struct AuthConfig {
    pub ghcr_token: String,
}

impl AuthConfig {
    /// Whether a GHCR token is configured.
    pub fn has_ghcr_token(&self) -> (r: bool)
        ensures
            r == (self.ghcr_token@.len() > 0),
    {
        !self.ghcr_token.as_str().is_empty()
    }
}

/// Root configuration structure.
#[derive(Debug, Clone)]
pub struct Config {
    pub server: ServerConfig,
    pub log: LogConfig,
    pub proxy: ProxyConfig,
    pub auth: AuthConfig,
}

/// The first rule the whole configuration breaks, or nothing: server rules
/// first, then logging, then proxy.
pub open spec fn config_error_spec(c: Config) -> Option<Seq<char>> {
    if server_error_spec(c.server) is Some {
        server_error_spec(c.server)
    } else if log_error_spec(c.log) is Some {
        log_error_spec(c.log)
    } else {
        proxy_error_spec(c.proxy)
    }
}

impl Config {
    /// Validate the entire configuration.
    pub fn validate(&self) -> (r: Result<(), String>)
        ensures
            r is Ok <==> config_error_spec(*self) is None,
            r matches Err(m) ==> config_error_spec(*self) == Some(m@),
    {
        match self.server.validate() {
            Err(m) => {
                return Err(m);
            },
            Ok(()) => {},
        }
        match self.log.validate() {
            Err(m) => {
                return Err(m);
            },
            Ok(()) => {},
        }
        match self.proxy.validate() {
            Err(m) => {
                return Err(m);
            },
            Ok(()) => {},
        }
        Ok(())
    }

    /// The server address as `host:port`.
    pub fn server_addr(&self) -> (r: String)
        ensures
            r@ == self.server.host@ + seq![':'] + dec_str(self.server.port as nat),
    {
        self.server.socket_addr()
    }

    /// The default registry proxy.
    pub fn default_registry(&self) -> (r: &str)
        ensures
            r@ == self.proxy.default@,
    {
        self.proxy.default.as_str()
    }

    /// The logging level as configured.
    pub fn log_level(&self) -> (r: &str)
        ensures
            r@ == self.log.level@,
    {
        self.log.level.as_str()
    }

    /// The logging level, lowercased.
    pub fn log_level_normalized(&self) -> (r: String)
        ensures
            r@ == to_lower_spec(self.log.level@),
    {
        self.log.normalized_level()
    }

    /// The log file path.
    pub fn log_file_path(&self) -> (r: &str)
        ensures
            r@ == self.log.log_file_path@,
    {
        self.log.log_file_path.as_str()
    }

    /// The GHCR authentication token.
    pub fn ghcr_token(&self) -> (r: &str)
        ensures
            r@ == self.auth.ghcr_token@,
    {
        self.auth.ghcr_token.as_str()
    }

    /// Whether a GHCR token is configured.
    pub fn has_ghcr_token(&self) -> (r: bool)
        ensures
            r == (self.auth.ghcr_token@.len() > 0),
    {
        self.auth.has_ghcr_token()
    }

    /// A display string without sensitive data: the token never appears.
    pub fn to_display_string(&self) -> (r: String)
        ensures
            r@ == "Server: "@ + self.server.host@ + seq![':'] + dec_str(self.server.port as nat)
                + " | Log Level: "@ + self.log.level@ + " | Log Path: "@ + self.log.log_file_path@
                + " | Default Registry: "@ + self.proxy.default@,
    {
        let mut s = "Server: ".to_owned();
        s.append(self.server_addr().as_str());
        s.append(" | Log Level: ");
        s.append(self.log.level.as_str());
        s.append(" | Log Path: ");
        s.append(self.log.log_file_path.as_str());
        s.append(" | Default Registry: ");
        s.append(self.proxy.default.as_str());
        s
    }
}

} // verus!
