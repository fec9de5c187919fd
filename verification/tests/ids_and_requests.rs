use companion_hivemind::config::Settings;
use companion_hivemind::ids::{parse_uuid, uuid_to_string};
use companion_hivemind::middleware::{AuthContext, Claims, UNAUTHORIZED};
use companion_hivemind::vexa::{vexa_bots_url, vexa_meetings_url};

const ID: u128 = 0x550e8400_e29b_41d4_a716_446655440000;

#[test]
fn uuid_text_is_hyphenated_lowercase() {
    assert_eq!(uuid_to_string(ID), "550e8400-e29b-41d4-a716-446655440000");
    assert_eq!(uuid_to_string(0), "00000000-0000-0000-0000-000000000000");
}

#[test]
fn uuid_parse_accepts_and_rejects() {
    assert_eq!(parse_uuid("550e8400-e29b-41d4-a716-446655440000"), Some(ID));
    assert_eq!(parse_uuid("550E8400E29B41D4A716446655440000"), Some(ID));
    assert_eq!(parse_uuid("not a uuid"), None);
    assert_eq!(parse_uuid(""), None);
}

#[test]
fn uuid_text_parses_back() {
    for v in [0u128, 1, ID, u128::MAX] {
        assert_eq!(parse_uuid(&uuid_to_string(v)), Some(v));
    }
}

#[test]
fn bearer_missing_header() {
    let e = AuthContext::bearer_token(None).unwrap_err();
    assert!(!e.ok);
    assert_eq!(e.error, "Missing Authorization header");
    assert_eq!(UNAUTHORIZED, 401);
}

#[test]
fn bearer_wrong_scheme() {
    for h in ["Basic abc", "bearer abc", "Bearer", "Bearerabc", ""] {
        let e = AuthContext::bearer_token(Some(h)).unwrap_err();
        assert!(!e.ok);
        assert_eq!(e.error, "Invalid Authorization format");
    }
}

#[test]
fn bearer_token_roundtrip() {
    assert_eq!(AuthContext::bearer_token(Some("Bearer abc.def")).unwrap(), "abc.def");
    assert_eq!(AuthContext::bearer_token(Some("Bearer ")).unwrap(), "");
    assert_eq!(AuthContext::bearer_token(Some("Bearer  x")).unwrap(), " x");
}

#[test]
fn claims_become_context() {
    let ctx = AuthContext::from_claims(Some(Claims { user_id: 7, company_id: 9, role: "member".to_string() }))
        .unwrap();
    assert_eq!(ctx, AuthContext { user_id: 7, company_id: 9, role: "member".to_string() });
    let e = AuthContext::from_claims(None).unwrap_err();
    assert!(!e.ok);
    assert_eq!(e.error, "Invalid or expired token");
}

#[test]
fn vexa_urls() {
    let s = Settings::default();
    assert_eq!(vexa_bots_url(&s), "http://vexa-api-gateway:8000/bots");
    assert_eq!(vexa_meetings_url(&s), "http://vexa-api-gateway:8000/meetings");
}
