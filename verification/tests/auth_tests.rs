use std::time::SystemTime;

use lib_mal::auth::RefreshDecision;
use lib_mal::auth::apply_token_response;
use lib_mal::auth::build_auth_url;
use lib_mal::auth::derive_challenge;
use lib_mal::auth::handle_callback;
use lib_mal::auth::is_expired;
use lib_mal::auth::issue_challenge;
use lib_mal::auth::plan_refresh;
use lib_mal::auth::refresh_request_form;
use lib_mal::auth::scan_requests;
use lib_mal::auth::strip_scheme;
use lib_mal::auth::token_endpoint_url;
use lib_mal::auth::token_request_form;
use lib_mal::codec::Tokens;
use lib_mal::codec::encrypt_token;

fn now_secs() -> u64 {
    SystemTime::now().duration_since(SystemTime::UNIX_EPOCH).unwrap().as_secs()
}

fn is_unreserved(c: char) -> bool {
    c.is_ascii_alphanumeric() || c == '-' || c == '.' || c == '~' || c == '_'
}

#[test]
fn challenge_is_deterministic_in_the_verifier() {
    let verifier = "dBjftJeZ4CVP-mB92K27uhbUJU1p1r_wW1gFWFOEjXk.0123456789";
    let once = derive_challenge(verifier);
    let twice = derive_challenge(verifier);
    assert_eq!(once, twice);
    assert_eq!(once.len(), 43);
    assert_ne!(once, verifier);
    assert!(once.chars().all(|c| c.is_ascii_alphanumeric() || c == '-' || c == '_'));
}

#[test]
fn issued_challenge_material_is_well_formed() {
    let c = issue_challenge();
    assert_eq!(c.verifier.len(), 128);
    assert!(c.verifier.chars().all(is_unreserved));
    assert_eq!(c.challenge, derive_challenge(&c.verifier));
    assert_eq!(c.state.len(), 43);
    assert!(c.state.chars().all(is_unreserved));
}

#[test]
fn fresh_challenges_differ() {
    let a = issue_challenge();
    let b = issue_challenge();
    assert_ne!(a.verifier, b.verifier);
}

#[test]
fn auth_url_carries_the_parts() {
    let url = build_auth_url("CLIENT", "CHAL", "STATE");
    assert_eq!(
        url,
        "https://myanimelist.net/v1/oauth2/authorize?response_type=code&client_id=CLIENT&code_challenge=CHAL&state=STATE"
    );
}

#[test]
fn strip_scheme_cuts_http_and_https() {
    assert_eq!(strip_scheme("http://localhost:2525"), "localhost:2525");
    assert_eq!(strip_scheme("https://localhost:2525"), "localhost:2525");
    assert_eq!(strip_scheme("localhost:2525"), "localhost:2525");
}

#[test]
fn callback_with_wrong_state_is_skipped() {
    assert_eq!(handle_callback("/?code=ABC&state=wrong", "expected"), None);
}

#[test]
fn callback_with_expected_state_yields_the_code() {
    let code = handle_callback("/?code=ABC&state=expected", "expected");
    assert_eq!(code, Some(String::from("ABC")));
}

#[test]
fn callback_without_a_cut_point_is_skipped() {
    // the state matches, but no `&` follows the first `=`, so no code
    // can be cut out and the listener keeps waiting
    assert_eq!(handle_callback("/?state=expected", "expected"), None);
}

#[test]
fn redirect_scan_skips_mismatches_and_stops_at_the_match() {
    let requests = vec![
        String::from("/?code=QQQ&state=wrong"),
        String::from("/?code=ABC&state=expected"),
        String::from("/?code=ZZZ&state=expected"),
    ];
    let hit = scan_requests(&requests, "expected");
    assert_eq!(hit, Some((1, String::from("ABC"))));
}

#[test]
fn redirect_scan_without_match_keeps_waiting() {
    let requests = vec![String::from("/favicon.ico"), String::from("/?code=A&state=other")];
    assert_eq!(scan_requests(&requests, "expected"), None);
}

#[test]
fn token_request_form_fields() {
    let form = token_request_form("CID", "CODE", "VERIFIER");
    let expect = vec![
        (String::from("client_id"), String::from("CID")),
        (String::from("grant_type"), String::from("authorization_code")),
        (String::from("code_verifier"), String::from("VERIFIER")),
        (String::from("code"), String::from("CODE")),
    ];
    assert_eq!(form, expect);
}

#[test]
fn refresh_request_form_fields() {
    let form = refresh_request_form("RTOK");
    let expect = vec![
        (String::from("grant_type"), String::from("refresh_token")),
        (String::from("refresh_token"), String::from("RTOK")),
    ];
    assert_eq!(form, expect);
    assert_eq!(token_endpoint_url(), "https://myanimelist.net/v1/oauth2/token");
}

#[test]
fn exchange_response_stamps_a_fresh_record() {
    let body =
        "{\"access_token\":\"T\",\"refresh_token\":\"R\",\"expires_in\":3600,\"token_type\":\"Bearer\"}";
    let now = now_secs();
    let t = apply_token_response(body, now).expect("well-formed response must parse");
    assert_eq!(t.access_token, "T");
    assert_eq!(t.refresh_token, "R");
    assert_eq!(t.expires_in, 3600);
    assert!(t.issued_at >= now && t.issued_at <= now + 1);
}

#[test]
fn malformed_exchange_response_keeps_the_raw_body() {
    let body = "definitely { not json";
    let err = apply_token_response(body, 5).unwrap_err();
    assert_eq!(err.error, "BadResponseError");
    assert_eq!(err.info, Some(String::from(body)));
}

#[test]
fn expiry_is_age_at_least_lifetime() {
    let t = Tokens {
        access_token: String::from("a"),
        refresh_token: String::from("r"),
        expires_in: 3600,
        issued_at: 1000,
    };
    assert!(!is_expired(1000, &t));
    assert!(!is_expired(4599, &t));
    assert!(is_expired(4600, &t));
    assert!(is_expired(9999, &t));
    assert!(!is_expired(999, &t));
}

#[test]
fn fresh_cached_record_is_used_without_refresh() {
    let now = now_secs();
    let rec = Tokens {
        access_token: String::from("CACHED"),
        refresh_token: String::from("KEEP"),
        expires_in: 3600,
        issued_at: now - 10,
    };
    let bytes = encrypt_token(&rec);
    match plan_refresh(true, true, Some(bytes), now) {
        RefreshDecision::UseCached { record } => {
            assert_eq!(record.access_token, "CACHED");
            assert_eq!(record.refresh_token, "KEEP");
            assert_eq!(record.issued_at, now - 10);
        },
        _ => panic!("a fresh record must take the fast path"),
    }
}

#[test]
fn expired_cached_record_asks_for_one_refresh() {
    let now = now_secs();
    let rec = Tokens {
        access_token: String::from("STALE"),
        refresh_token: String::from("RTOK"),
        expires_in: 3600,
        issued_at: now - 7200,
    };
    let bytes = encrypt_token(&rec);
    match plan_refresh(true, true, Some(bytes), now) {
        RefreshDecision::Refresh { record } => {
            assert_eq!(record.refresh_token, "RTOK");
        },
        _ => panic!("an expired record must ask for a refresh"),
    }
}

#[test]
fn missing_directory_downgrades_caching() {
    match plan_refresh(true, false, None, 0) {
        RefreshDecision::FullAuth { will_cache } => assert!(!will_cache),
        _ => panic!("no directory means a full authorization"),
    }
    match plan_refresh(false, true, None, 0) {
        RefreshDecision::FullAuth { will_cache } => assert!(!will_cache),
        _ => panic!("caching off means a full authorization"),
    }
}

#[test]
fn unreadable_cache_means_full_auth_with_caching_kept() {
    match plan_refresh(true, true, None, 0) {
        RefreshDecision::FullAuth { will_cache } => assert!(will_cache),
        _ => panic!("an absent file means a full authorization"),
    }
    match plan_refresh(true, true, Some(vec![1, 2, 3]), 0) {
        RefreshDecision::FullAuth { will_cache } => assert!(will_cache),
        _ => panic!("an undecryptable file means a full authorization"),
    }
}
