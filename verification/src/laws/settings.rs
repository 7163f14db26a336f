//! Laws on the server's settings.
use vstd::prelude::*;

use crate::config::{Config, ConfigError, ConfigVars};
use crate::laws::texts::{lists_are_read_piece_by_piece, numbers_are_read_in_decimal};
use crate::models::text_of;
use crate::text::{
    is_blank_text, is_white_space, listed, texts, trimmed, unsigned_value, without_trailing,
};

verus! {

/// Whether a setting is given and is no number up to `max`.
pub open spec fn is_no_number(v: Option<String>, max: int) -> bool {
    v matches Some(s) && !(unsigned_value(s@) matches Some(n) && n <= max)
}

/// Whether a number is the one that a setting gives, or the default where it is not
/// given.
pub open spec fn is_given(v: Option<String>, default: int, n: int) -> bool {
    match v {
        Some(s) => unsigned_value(s@) == Some(n as nat),
        None => n == default,
    }
}

/// Whether a text is the one that a setting gives, or the default where it is not
/// given.
pub open spec fn is_given_text(v: Option<String>, default: Seq<char>, s: Seq<char>) -> bool {
    match v {
        Some(t) => s == t@,
        None => s == default,
    }
}

/// Whether a text is the one that a setting gives, unless it is not given or blank.
pub open spec fn is_given_unless_blank(v: Option<String>, s: Option<Seq<char>>) -> bool {
    match v {
        Some(t) => s == (if forall|i: int|
            0 <= i < t@.len() ==> is_white_space(#[trigger] t@[i]) {
            None
        } else {
            Some(t@)
        }),
        None => s is None,
    }
}

proof fn lemma_four(a: char, b: char, c: char, d: char)
    requires
        48 <= a as int <= 57,
        48 <= b as int <= 57,
        48 <= c as int <= 57,
        48 <= d as int <= 57,
    ensures
        unsigned_value(seq![a]) == Some((a as int - 48) as nat),
        unsigned_value(seq![a, b]) == Some((a as int * 10 + b as int - 528) as nat),
        unsigned_value(seq![a, b, c]) == Some(
            (a as int * 100 + b as int * 10 + c as int - 5328) as nat,
        ),
        unsigned_value(seq![a, b, c, d]) == Some(
            (a as int * 1000 + b as int * 100 + c as int * 10 + d as int - 53328) as nat,
        ),
{
    numbers_are_read_in_decimal(seq![a], a);
    numbers_are_read_in_decimal(seq![a], b);
    assert(seq![a].push(b) == seq![a, b]);
    numbers_are_read_in_decimal(seq![a, b], c);
    assert(seq![a, b].push(c) == seq![a, b, c]);
    numbers_are_read_in_decimal(seq![a, b, c], d);
    assert(seq![a, b, c].push(d) == seq![a, b, c, d]);
}

proof fn lemma_defaults()
    ensures
        unsigned_value("8000"@) == Some(8000nat),
        unsigned_value("15"@) == Some(15nat),
        unsigned_value("180"@) == Some(180nat),
        unsigned_value("65536"@) == Some(65536nat),
        unsigned_value("1000"@) == Some(1000nat),
{
    reveal_strlit("8000");
    reveal_strlit("15");
    reveal_strlit("180");
    reveal_strlit("65536");
    reveal_strlit("1000");
    lemma_four('8', '0', '0', '0');
    lemma_four('1', '5', '0', '0');
    lemma_four('1', '8', '0', '0');
    lemma_four('1', '0', '0', '0');
    lemma_four('6', '5', '5', '3');
    numbers_are_read_in_decimal(seq!['6', '5', '5', '3'], '6');
    assert("8000"@ == seq!['8', '0', '0', '0']);
    assert("15"@ == seq!['1', '5']);
    assert("180"@ == seq!['1', '8', '0']);
    assert("1000"@ == seq!['1', '0', '0', '0']);
    assert("65536"@ == seq!['6', '5', '5', '3'].push('6'));
}

/// Each setting is what its own text says, or its default where that is not given,
/// whatever the other settings are.
pub proof fn each_setting_goes_by_its_own_text(vars: ConfigVars, c: Config)
    requires
        vars.describe(c),
    ensures
        is_given_text(vars.host, "0.0.0.0"@, c.host@),
        is_given(vars.port, 8000, c.port as int),
        is_given_text(vars.environment, "development"@, c.environment@),
        is_given_text(vars.rust_log, "info,backend=debug"@, c.rust_log@),
        is_given(vars.session_timeout_minutes, 15, c.session_timeout_minutes as int),
        is_given(vars.heartbeat_timeout_seconds, 180, c.heartbeat_timeout_seconds as int),
        is_given(vars.max_message_size, 65536, c.max_message_size as int),
        is_given(vars.max_connections, 1000, c.max_connections as int),
        texts(c.allowed_origins@) == (match vars.allowed_origins {
            Some(t) => listed(t@, ','),
            None => seq!["*"@],
        }),
        is_given_unless_blank(vars.turn_url, text_of(c.turn_url)),
        is_given_unless_blank(vars.turn_username, text_of(c.turn_username)),
        is_given_unless_blank(vars.turn_password, text_of(c.turn_password)),
{
    lemma_defaults();
    reveal_strlit("*");
    let star = "*"@;
    assert(!star.contains(','));
    lists_are_read_piece_by_piece(star, star, ',');
    assert(trimmed(star) == star) by {
        reveal_with_fuel(without_trailing, 1);
    }
    assert(forall|s: Seq<char>| #[trigger]
        is_blank_text(s) <==> forall|i: int|
            0 <= i < s.len() ==> is_white_space(#[trigger] s[i]));
}

/// The settings can be used if and only if each of them can: a host that is given is
/// an address, every number is one and not too large, and the environment is one of
/// the two. The first that cannot is named.
pub proof fn settings_can_be_used_where_each_can(vars: ConfigVars)
    ensures
        ({
            let host = vars.host is Some && !vars.host_is_address;
            let port = is_no_number(vars.port, 65535);
            let environment = vars.environment matches Some(e) && e@ != "development"@ && e@
                != "production"@;
            let session = is_no_number(vars.session_timeout_minutes, u64::MAX as int);
            let heartbeat = is_no_number(vars.heartbeat_timeout_seconds, u64::MAX as int);
            let size = is_no_number(vars.max_message_size, usize::MAX as int);
            let connections = is_no_number(vars.max_connections, usize::MAX as int);
            &&& vars.fault() is None <==> !host && !port && !environment && !session && !heartbeat
                && !size && !connections
            &&& vars.fault() == Some(ConfigError::Host) <==> host
            &&& vars.fault() == Some(ConfigError::Port) <==> !host && port
            &&& vars.fault() == Some(ConfigError::Environment) <==> !host && !port && environment
            &&& vars.fault() == Some(ConfigError::SessionTimeoutMinutes) <==> !host && !port
                && !environment && session
            &&& vars.fault() == Some(ConfigError::HeartbeatTimeoutSeconds) <==> !host && !port
                && !environment && !session && heartbeat
            &&& vars.fault() == Some(ConfigError::MaxMessageSize) <==> !host && !port
                && !environment && !session && !heartbeat && size
            &&& vars.fault() == Some(ConfigError::MaxConnections) <==> !host && !port
                && !environment && !session && !heartbeat && !size && connections
        }),
{
    lemma_defaults();
}

/// What is said of a setting names it, and of a host also what was given.
pub proof fn bad_setting_is_named(error: ConfigError, vars: ConfigVars, host: String)
    requires
        vars.host == Some(host),
    ensures
        error.text(vars) == (match error {
            ConfigError::Host => "Invalid HOST address: "@ + host@,
            ConfigError::Port => "PORT must be valid"@,
            ConfigError::Environment => "ENVIRONMENT must be either development or production"@,
            ConfigError::SessionTimeoutMinutes => "SESSION_TIMEOUT_MINUTES must be valid"@,
            ConfigError::HeartbeatTimeoutSeconds => "HEARTBEAT_TIMEOUT_SECONDS must be valid"@,
            ConfigError::MaxMessageSize => "MAX_MESSAGE_SIZE must be valid"@,
            ConfigError::MaxConnections => "MAX_CONNECTIONS must be valid"@,
        }),
{
}

} // verus!
