//! The server's settings, read from texts.
use vstd::prelude::*;
use vstd::string::*;

use crate::models::text_of;
use crate::text::{is_blank, is_blank_text, listed, read_list, read_unsigned, texts, unsigned_value};

verus! {

/// The settings that the server runs with.
#[derive(Debug, Clone)]
pub struct Config {
    pub host: String,
    pub port: u16,
    pub environment: String,
    pub rust_log: String,
    pub session_timeout_minutes: u64,
    pub heartbeat_timeout_seconds: u64,
    pub max_message_size: usize,
    pub max_connections: usize,
    pub allowed_origins: Vec<String>,
    pub turn_url: Option<String>,
    pub turn_username: Option<String>,
    pub turn_password: Option<String>,
}

/// The texts of the settings, each where it is given, and whether the host that
/// is given is an IP address.
#[derive(Debug, Clone)]
pub struct ConfigVars {
    pub host: Option<String>,
    pub host_is_address: bool,
    pub port: Option<String>,
    pub environment: Option<String>,
    pub rust_log: Option<String>,
    pub session_timeout_minutes: Option<String>,
    pub heartbeat_timeout_seconds: Option<String>,
    pub max_message_size: Option<String>,
    pub max_connections: Option<String>,
    pub allowed_origins: Option<String>,
    pub turn_url: Option<String>,
    pub turn_username: Option<String>,
    pub turn_password: Option<String>,
}

/// The setting that cannot be used.
#[derive(Debug, Clone, Copy, PartialEq, Eq, Structural)]
pub enum ConfigError {
    Host,
    Port,
    Environment,
    SessionTimeoutMinutes,
    HeartbeatTimeoutSeconds,
    MaxMessageSize,
    MaxConnections,
}

impl ConfigError {
    /// What is wrong with the setting.
    pub open spec fn text(self, vars: ConfigVars) -> Seq<char> {
        match self {
            ConfigError::Host => "Invalid HOST address: "@ + text_or(vars.host, "0.0.0.0"@),
            ConfigError::Port => "PORT must be valid"@,
            ConfigError::Environment => "ENVIRONMENT must be either development or production"@,
            ConfigError::SessionTimeoutMinutes => "SESSION_TIMEOUT_MINUTES must be valid"@,
            ConfigError::HeartbeatTimeoutSeconds => "HEARTBEAT_TIMEOUT_SECONDS must be valid"@,
            ConfigError::MaxMessageSize => "MAX_MESSAGE_SIZE must be valid"@,
            ConfigError::MaxConnections => "MAX_CONNECTIONS must be valid"@,
        }
    }

    /// Says what is wrong with the setting.
    pub fn message(&self, vars: &ConfigVars) -> (r: String)
        ensures
            r@ == self.text(*vars),
    {
        match self {
            ConfigError::Host => {
                let mut s = "Invalid HOST address: ".to_string();
                s.append(text_with_default(&vars.host, "0.0.0.0").as_str());
                s
            },
            ConfigError::Port => "PORT must be valid".to_string(),
            ConfigError::Environment =>
                "ENVIRONMENT must be either development or production".to_string(),
            ConfigError::SessionTimeoutMinutes =>
                "SESSION_TIMEOUT_MINUTES must be valid".to_string(),
            ConfigError::HeartbeatTimeoutSeconds =>
                "HEARTBEAT_TIMEOUT_SECONDS must be valid".to_string(),
            ConfigError::MaxMessageSize => "MAX_MESSAGE_SIZE must be valid".to_string(),
            ConfigError::MaxConnections => "MAX_CONNECTIONS must be valid".to_string(),
        }
    }
}

/// The text of a setting, or its default.
pub open spec fn text_or(v: Option<String>, default: Seq<char>) -> Seq<char> {
    match v {
        Some(s) => s@,
        None => default,
    }
}

/// The number of a setting, or its default, where it is one and at most `max`.
pub open spec fn number_or(v: Option<String>, default: Seq<char>, max: u64) -> Option<u64> {
    match unsigned_value(text_or(v, default)) {
        Some(n) => if n <= max {
            Some(n as u64)
        } else {
            None
        },
        None => None,
    }
}

/// The text of a setting that counts only where it is not blank.
pub open spec fn text_unless_blank(v: Option<String>) -> Option<Seq<char>> {
    match v {
        Some(s) => if is_blank_text(s@) {
            None
        } else {
            Some(s@)
        },
        None => None,
    }
}

impl ConfigVars {
    pub open spec fn port_number(self) -> Option<u64> {
        number_or(self.port, "8000"@, 65535)
    }

    pub open spec fn session_timeout(self) -> Option<u64> {
        number_or(self.session_timeout_minutes, "15"@, u64::MAX)
    }

    pub open spec fn heartbeat_timeout(self) -> Option<u64> {
        number_or(self.heartbeat_timeout_seconds, "180"@, u64::MAX)
    }

    pub open spec fn message_size(self) -> Option<u64> {
        number_or(self.max_message_size, "65536"@, usize::MAX as u64)
    }

    pub open spec fn connections(self) -> Option<u64> {
        number_or(self.max_connections, "1000"@, usize::MAX as u64)
    }

    /// Whether the environment is one that the server knows.
    pub open spec fn environment_is_known(self) -> bool {
        let e = text_or(self.environment, "development"@);
        e == "development"@ || e == "production"@
    }

    /// The first setting that cannot be used.
    pub open spec fn fault(self) -> Option<ConfigError> {
        if self.host is Some && !self.host_is_address {
            Some(ConfigError::Host)
        } else if self.port_number() is None {
            Some(ConfigError::Port)
        } else if !self.environment_is_known() {
            Some(ConfigError::Environment)
        } else if self.session_timeout() is None {
            Some(ConfigError::SessionTimeoutMinutes)
        } else if self.heartbeat_timeout() is None {
            Some(ConfigError::HeartbeatTimeoutSeconds)
        } else if self.message_size() is None {
            Some(ConfigError::MaxMessageSize)
        } else if self.connections() is None {
            Some(ConfigError::MaxConnections)
        } else {
            None
        }
    }

    /// Whether the settings are what the texts say.
    pub open spec fn describe(self, c: Config) -> bool {
        &&& c.host@ == text_or(self.host, "0.0.0.0"@)
        &&& self.port_number() == Some(c.port as u64)
        &&& c.environment@ == text_or(self.environment, "development"@)
        &&& c.rust_log@ == text_or(self.rust_log, "info,backend=debug"@)
        &&& self.session_timeout() == Some(c.session_timeout_minutes)
        &&& self.heartbeat_timeout() == Some(c.heartbeat_timeout_seconds)
        &&& self.message_size() == Some(c.max_message_size as u64)
        &&& self.connections() == Some(c.max_connections as u64)
        &&& texts(c.allowed_origins@) == listed(text_or(self.allowed_origins, "*"@), ',')
        &&& text_of(c.turn_url) == text_unless_blank(self.turn_url)
        &&& text_of(c.turn_username) == text_unless_blank(self.turn_username)
        &&& text_of(c.turn_password) == text_unless_blank(self.turn_password)
    }
}

fn text_with_default(v: &Option<String>, default: &str) -> (r: String)
    ensures
        r@ == text_or(*v, default@),
{
    match v {
        Some(s) => s.clone(),
        None => default.to_string(),
    }
}

fn number_with_default(v: &Option<String>, default: &str, max: u64) -> (r: Option<u64>)
    ensures
        r == number_or(*v, default@, max),
{
    read_unsigned(text_with_default(v, default).as_str(), max)
}

fn unless_blank(v: &Option<String>) -> (r: Option<String>)
    ensures
        text_of(r) == text_unless_blank(*v),
{
    match v {
        Some(s) => if is_blank(s.as_str()) {
            None
        } else {
            Some(s.clone())
        },
        None => None,
    }
}

/// What a client is told of the TURN server, and how large a message may be.
#[derive(Debug, Clone)]
pub struct TurnConfigResponse {
    pub turn_url: Option<String>,
    pub turn_username: Option<String>,
    pub turn_password: Option<String>,
    pub max_message_size: usize,
}

impl Config {
    /// Reads the settings from their texts.
    pub fn load(vars: &ConfigVars) -> (r: Result<Config, ConfigError>)
        ensures
            match vars.fault() {
                Some(e) => r == Err::<Config, ConfigError>(e),
                None => r matches Ok(c) && vars.describe(c),
            },
    {
        if vars.host.is_some() && !vars.host_is_address {
            return Err(ConfigError::Host);
        }
        let host = text_with_default(&vars.host, "0.0.0.0");
        let port: u16 = match number_with_default(&vars.port, "8000", 65535) {
            Some(n) => n as u16,
            None => {
                return Err(ConfigError::Port);
            },
        };
        let environment = text_with_default(&vars.environment, "development");
        if *environment.as_str() != *"development" && *environment.as_str() != *"production" {
            return Err(ConfigError::Environment);
        }
        let rust_log = text_with_default(&vars.rust_log, "info,backend=debug");
        let session_timeout_minutes: u64 = match number_with_default(
            &vars.session_timeout_minutes,
            "15",
            u64::MAX,
        ) {
            Some(n) => n,
            None => {
                return Err(ConfigError::SessionTimeoutMinutes);
            },
        };
        let heartbeat_timeout_seconds: u64 = match number_with_default(
            &vars.heartbeat_timeout_seconds,
            "180",
            u64::MAX,
        ) {
            Some(n) => n,
            None => {
                return Err(ConfigError::HeartbeatTimeoutSeconds);
            },
        };
        let max_message_size: usize = match number_with_default(
            &vars.max_message_size,
            "65536",
            usize::MAX as u64,
        ) {
            Some(n) => n as usize,
            None => {
                return Err(ConfigError::MaxMessageSize);
            },
        };
        let max_connections: usize = match number_with_default(
            &vars.max_connections,
            "1000",
            usize::MAX as u64,
        ) {
            Some(n) => n as usize,
            None => {
                return Err(ConfigError::MaxConnections);
            },
        };
        let allowed_origins = read_list(
            text_with_default(&vars.allowed_origins, "*").as_str(),
            ',',
        );
        let turn_url = unless_blank(&vars.turn_url);
        let turn_username = unless_blank(&vars.turn_username);
        let turn_password = unless_blank(&vars.turn_password);
        Ok(
            Config {
                host,
                port,
                environment,
                rust_log,
                session_timeout_minutes,
                heartbeat_timeout_seconds,
                max_message_size,
                max_connections,
                allowed_origins,
                turn_url,
                turn_username,
                turn_password,
            },
        )
    }

    /// What a client is told of the TURN server.
    pub fn turn_config(&self) -> (r: TurnConfigResponse)
        ensures
            text_of(r.turn_url) == text_of(self.turn_url),
            text_of(r.turn_username) == text_of(self.turn_username),
            text_of(r.turn_password) == text_of(self.turn_password),
            r.max_message_size == self.max_message_size,
    {
        TurnConfigResponse {
            turn_url: self.turn_url.clone(),
            turn_username: self.turn_username.clone(),
            turn_password: self.turn_password.clone(),
            max_message_size: self.max_message_size,
        }
    }
}

} // verus!
