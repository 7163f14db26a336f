use signaling::config::{Config, ConfigError, ConfigVars};
use signaling::text::{
    byte_count, characters, decimal_text, is_blank, read_list, read_unsigned, text_between,
};

fn no_vars() -> ConfigVars {
    ConfigVars {
        host: None,
        host_is_address: false,
        port: None,
        environment: None,
        rust_log: None,
        session_timeout_minutes: None,
        heartbeat_timeout_seconds: None,
        max_message_size: None,
        max_connections: None,
        allowed_origins: None,
        turn_url: None,
        turn_username: None,
        turn_password: None,
    }
}

fn given(s: &str) -> Option<String> {
    Some(s.to_string())
}

#[test]
fn settings_have_defaults() {
    let c = Config::load(&no_vars()).unwrap();
    assert_eq!(c.host, "0.0.0.0");
    assert_eq!(c.port, 8000);
    assert_eq!(c.environment, "development");
    assert_eq!(c.rust_log, "info,backend=debug");
    assert_eq!(c.session_timeout_minutes, 15);
    assert_eq!(c.heartbeat_timeout_seconds, 180);
    assert_eq!(c.max_message_size, 65536);
    assert_eq!(c.max_connections, 1000);
    assert_eq!(c.allowed_origins, vec!["*".to_string()]);
    assert_eq!(c.turn_url, None);
    assert_eq!(c.turn_username, None);
    assert_eq!(c.turn_password, None);
}

#[test]
fn settings_are_taken_from_their_texts() {
    let vars = ConfigVars {
        host: given("::1"),
        host_is_address: true,
        port: given("+65535"),
        environment: given("production"),
        rust_log: given("warn"),
        session_timeout_minutes: given("18446744073709551615"),
        heartbeat_timeout_seconds: given("0"),
        max_message_size: given("007"),
        max_connections: given("12"),
        allowed_origins: given(" https://a.example , ,https://b.example,"),
        turn_url: given("turn:turn.example:3478"),
        turn_username: given(" user "),
        turn_password: given(" \t"),
    };
    let c = Config::load(&vars).unwrap();
    assert_eq!(c.host, "::1");
    assert_eq!(c.port, 65535);
    assert_eq!(c.environment, "production");
    assert_eq!(c.rust_log, "warn");
    assert_eq!(c.session_timeout_minutes, u64::MAX);
    assert_eq!(c.heartbeat_timeout_seconds, 0);
    assert_eq!(c.max_message_size, 7);
    assert_eq!(c.max_connections, 12);
    assert_eq!(
        c.allowed_origins,
        vec!["https://a.example".to_string(), "https://b.example".to_string()]
    );
    assert_eq!(c.turn_url, given("turn:turn.example:3478"));
    assert_eq!(c.turn_username, given(" user "));
    assert_eq!(c.turn_password, None);

    let told = c.turn_config();
    assert_eq!(told.turn_url, given("turn:turn.example:3478"));
    assert_eq!(told.turn_username, given(" user "));
    assert_eq!(told.turn_password, None);
    assert_eq!(told.max_message_size, 7);
}

#[test]
fn settings_that_cannot_be_used_are_named() {
    for bad in ["nonsense", "", "256.0.0.1"] {
        let vars = ConfigVars { host: given(bad), host_is_address: false, ..no_vars() };
        assert_eq!(Config::load(&vars).unwrap_err(), ConfigError::Host);
    }
    for bad in ["65536", "-1", "", "+", "8000 ", "0x10", "8,000"] {
        let vars = ConfigVars { port: given(bad), ..no_vars() };
        assert_eq!(Config::load(&vars).unwrap_err(), ConfigError::Port, "{}", bad);
    }
    for bad in ["staging", "Production", ""] {
        let vars = ConfigVars { environment: given(bad), ..no_vars() };
        assert_eq!(Config::load(&vars).unwrap_err(), ConfigError::Environment);
    }
    let vars = ConfigVars { session_timeout_minutes: given("18446744073709551616"), ..no_vars() };
    assert_eq!(Config::load(&vars).unwrap_err(), ConfigError::SessionTimeoutMinutes);
    let vars = ConfigVars { heartbeat_timeout_seconds: given("1.5"), ..no_vars() };
    assert_eq!(Config::load(&vars).unwrap_err(), ConfigError::HeartbeatTimeoutSeconds);
    let vars = ConfigVars { max_message_size: given("64k"), ..no_vars() };
    assert_eq!(Config::load(&vars).unwrap_err(), ConfigError::MaxMessageSize);
    let vars = ConfigVars { max_connections: given("many"), ..no_vars() };
    assert_eq!(Config::load(&vars).unwrap_err(), ConfigError::MaxConnections);
}

#[test]
fn first_setting_that_cannot_be_used_counts() {
    let vars = ConfigVars { host: given("x"), port: given("x"), ..no_vars() };
    assert_eq!(Config::load(&vars).unwrap_err(), ConfigError::Host);
    let vars = ConfigVars {
        port: given("x"),
        environment: given("x"),
        max_connections: given("x"),
        ..no_vars()
    };
    assert_eq!(Config::load(&vars).unwrap_err(), ConfigError::Port);
    let vars = ConfigVars { environment: given("x"), max_connections: given("x"), ..no_vars() };
    assert_eq!(Config::load(&vars).unwrap_err(), ConfigError::Environment);
}

#[test]
fn setting_errors_have_messages() {
    let vars = ConfigVars { host: given("nonsense"), ..no_vars() };
    assert_eq!(ConfigError::Host.message(&vars), "Invalid HOST address: nonsense");
    assert_eq!(ConfigError::Port.message(&no_vars()), "PORT must be valid");
    assert_eq!(
        ConfigError::Environment.message(&no_vars()),
        "ENVIRONMENT must be either development or production"
    );
    assert_eq!(
        ConfigError::SessionTimeoutMinutes.message(&no_vars()),
        "SESSION_TIMEOUT_MINUTES must be valid"
    );
    assert_eq!(
        ConfigError::HeartbeatTimeoutSeconds.message(&no_vars()),
        "HEARTBEAT_TIMEOUT_SECONDS must be valid"
    );
    assert_eq!(ConfigError::MaxMessageSize.message(&no_vars()), "MAX_MESSAGE_SIZE must be valid");
    assert_eq!(ConfigError::MaxConnections.message(&no_vars()), "MAX_CONNECTIONS must be valid");
}

#[test]
fn blank_is_white_space_only() {
    assert!(is_blank(""));
    assert!(is_blank(" \t\r\n\u{b}\u{c}"));
    assert!(is_blank("\u{85}\u{a0}\u{1680}\u{2003}\u{2028}\u{2029}\u{202f}\u{205f}\u{3000}"));
    assert!(!is_blank(" x "));
    assert!(!is_blank("\u{200b}"));
    assert!(!is_blank("\u{0}"));
}

#[test]
fn every_character_is_white_space_or_not_as_std_says() {
    let mut c: u32 = 0;
    while c < 0x110000 {
        if let Some(ch) = char::from_u32(c) {
            assert_eq!(is_blank(&ch.to_string()), ch.to_string().trim().is_empty());
        }
        c += 1;
    }
}

#[test]
fn lists_are_split_and_trimmed() {
    let empty: Vec<String> = Vec::new();
    assert_eq!(read_list("", ','), empty);
    assert_eq!(read_list(" ,\t,", ','), empty);
    assert_eq!(read_list("a", ','), vec!["a".to_string()]);
    assert_eq!(
        read_list("\u{a0}a b ,c,,d\n", ','),
        vec!["a b".to_string(), "c".to_string(), "d".to_string()]
    );
    assert_eq!(read_list("a,b;c", ';'), vec!["a,b".to_string(), "c".to_string()]);
}

#[test]
fn numbers_are_written_in_decimal() {
    assert_eq!(decimal_text(0), "0");
    assert_eq!(decimal_text(7), "7");
    assert_eq!(decimal_text(10), "10");
    assert_eq!(decimal_text(65536), "65536");
    assert_eq!(decimal_text(usize::MAX), usize::MAX.to_string());
}

#[test]
fn numbers_are_read_up_to_a_limit() {
    assert_eq!(read_unsigned("0", 0), Some(0));
    assert_eq!(read_unsigned("1", 0), None);
    assert_eq!(read_unsigned("+42", 100), Some(42));
    assert_eq!(read_unsigned("00000000000000000000000000042", 100), Some(42));
    assert_eq!(read_unsigned("++4", 100), None);
    assert_eq!(read_unsigned("18446744073709551615", u64::MAX), Some(u64::MAX));
    assert_eq!(read_unsigned("18446744073709551616", u64::MAX), None);
    assert_eq!(read_unsigned("99999999999999999999999999", u64::MAX), None);
    assert_eq!(read_unsigned("\u{663}", u64::MAX), None);
}

#[test]
fn texts_are_taken_apart_by_characters() {
    assert_eq!(byte_count("a\u{e9}\u{20ac}\u{1f600}"), 10);
    let v = characters("a\u{e9}\u{20ac}\u{1f600}");
    assert_eq!(v, vec!['a', '\u{e9}', '\u{20ac}', '\u{1f600}']);
    assert_eq!(text_between(&v, 1, 3), "\u{e9}\u{20ac}");
    assert_eq!(text_between(&v, 2, 2), "");
}
