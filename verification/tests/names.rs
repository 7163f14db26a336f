use signaling::errors::{AppError, ErrorCode};
use signaling::models::{ServerMessage, VersionedServerMessage};
use signaling::security::{
    code_from, generate_secure_token, generate_transfer_id, is_origin_allowed, redact_ice,
    redact_sdp, redact_token,
};

#[test]
fn error_codes_have_names() {
    assert_eq!(ErrorCode::NotRegistered.as_str(), "NOT_REGISTERED");
    assert_eq!(ErrorCode::AlreadyRegistered.as_str(), "ALREADY_REGISTERED");
    assert_eq!(ErrorCode::InvalidRole.as_str(), "INVALID_ROLE");
    assert_eq!(ErrorCode::SessionExpired.as_str(), "SESSION_EXPIRED");
    assert_eq!(ErrorCode::SessionFull.as_str(), "SESSION_FULL");
    assert_eq!(ErrorCode::InvalidSession.as_str(), "INVALID_SESSION");
    assert_eq!(ErrorCode::Unauthorized.as_str(), "UNAUTHORIZED");
    assert_eq!(ErrorCode::PeerDisconnected.as_str(), "PEER_DISCONNECTED");
    assert_eq!(ErrorCode::PeerNotFound.as_str(), "PEER_NOT_FOUND");
    assert_eq!(ErrorCode::MalformedMessage.as_str(), "MALFORMED_MESSAGE");
    assert_eq!(ErrorCode::InternalError.as_str(), "INTERNAL_ERROR");
    assert_eq!(ErrorCode::RateLimitExceeded.as_str(), "RATE_LIMIT_EXCEEDED");
}

#[test]
fn errors_take_slices_and_strings() {
    let e = AppError::new(ErrorCode::InvalidRole, "no");
    assert_eq!(e.error_type, "error");
    assert_eq!(e.code, ErrorCode::InvalidRole);
    assert_eq!(e.message, "no");
    let e = AppError::new(ErrorCode::SessionFull, String::from("full"));
    assert_eq!(e.error_type, "error");
    assert_eq!(e.code, ErrorCode::SessionFull);
    assert_eq!(e.message, "full");
}

#[test]
fn messages_bear_the_protocol_version() {
    let m = VersionedServerMessage::new(ServerMessage::HeartbeatAck);
    assert_eq!(m.version, "1");
    assert_eq!(m.payload, ServerMessage::HeartbeatAck);
}

#[test]
fn transfer_ids_are_readable() {
    for _ in 0..200 {
        let id = generate_transfer_id();
        assert_eq!(id.chars().count(), 10);
        assert!(id.chars().all(|c| "ABCDEFGHJKLMNPQRSTUVWXYZ23456789".contains(c)));
    }
}

#[test]
fn tokens_are_plain_and_long() {
    for _ in 0..200 {
        let token = generate_secure_token();
        assert_eq!(token.chars().count(), 32);
        assert!(token.chars().all(|c| c.is_ascii_alphanumeric()));
    }
}

#[test]
fn codes_are_drawn_anew() {
    assert_ne!(generate_transfer_id(), generate_transfer_id());
    assert_ne!(generate_secure_token(), generate_secure_token());
}

#[test]
fn codes_use_the_whole_alphabet() {
    let mut ids = String::new();
    let mut tokens = String::new();
    for _ in 0..2000 {
        ids.push_str(&generate_transfer_id());
        tokens.push_str(&generate_secure_token());
    }
    for c in "ABCDEFGHJKLMNPQRSTUVWXYZ23456789".chars() {
        assert!(ids.contains(c));
    }
    for c in "abcdefghijklmnopqrstuvwxyzABCDEFGHIJKLMNOPQRSTUVWXYZ0123456789".chars() {
        assert!(tokens.contains(c));
    }
}

#[test]
fn origins_are_let_in_by_name_or_star() {
    let named = vec!["https://a.example".to_string(), "https://b.example".to_string()];
    assert!(is_origin_allowed("https://a.example", &named));
    assert!(is_origin_allowed("https://b.example", &named));
    assert!(!is_origin_allowed("https://c.example", &named));
    assert!(!is_origin_allowed("https://A.example", &named));
    assert!(!is_origin_allowed("", &named));
    assert!(!is_origin_allowed("*", &named));
    let star = vec!["https://a.example".to_string(), "*".to_string()];
    assert!(is_origin_allowed("https://c.example", &star));
    assert!(is_origin_allowed("", &star));
    assert!(!is_origin_allowed("https://a.example", &[]));
}

#[test]
fn tokens_show_their_ends_only() {
    assert_eq!(redact_token(""), "***");
    assert_eq!(redact_token("abcdef"), "***");
    assert_eq!(redact_token("abcdefg"), "abc...efg");
    assert_eq!(redact_token("abcdefghijklmnopqrstuvwxyz012345"), "abc...345");
    assert_eq!(redact_token("\u{e9}\u{e9}\u{e9}"), "***");
    assert_eq!(redact_token("\u{20ac}123\u{20ac}"), "\u{20ac}...\u{20ac}");
}

#[test]
fn descriptions_and_candidates_show_their_size_only() {
    assert_eq!(redact_sdp(""), "[SDP payload (0 bytes)]");
    assert_eq!(redact_sdp("fake sdp"), "[SDP payload (8 bytes)]");
    assert_eq!(redact_sdp("\u{20ac}"), "[SDP payload (3 bytes)]");
    assert_eq!(redact_ice(""), "[ICE Candidate (0 bytes)]");
    assert_eq!(redact_ice("candidate:1 1 UDP"), "[ICE Candidate (17 bytes)]");
}

#[test]
fn codes_are_picked_by_numbers() {
    let alphabet = "abcdefghijklmnopqrstuvwxyzABCDEFGHIJKLMNOPQRSTUVWXYZ0123456789";
    assert_eq!(code_from(&vec![0, 25, 26, 51, 52, 61], alphabet), "azAZ09");
    assert_eq!(code_from(&Vec::new(), alphabet), "");
    for place in 0..32 {
        for n in 0..62 {
            let mut choices = vec![0; 32];
            choices[place] = n;
            let token = code_from(&choices, alphabet);
            assert_eq!(token.len(), 32);
            assert_eq!(token.as_bytes()[place], alphabet.as_bytes()[n]);
        }
    }
}
