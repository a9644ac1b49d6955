use lib_mal::codec::Tokens;
use lib_mal::codec::decrypt_tokens;
use lib_mal::codec::decrypt_tokens_with;
use lib_mal::codec::encrypt_token;
use lib_mal::codec::encrypt_token_with;
use lib_mal::codec::token_response_from_json;
use lib_mal::codec::tokens_from_json;
use lib_mal::codec::tokens_to_json;

fn sample() -> Tokens {
    Tokens {
        access_token: String::from("ACCESS-abc123"),
        refresh_token: String::from("REFRESH-def456"),
        expires_in: 3600,
        issued_at: 1700000000,
    }
}

#[test]
fn encrypt_then_decrypt_round_trips() {
    let rec = sample();
    let sealed = encrypt_token(&rec);
    let back = decrypt_tokens(&sealed).expect("round trip must decode");
    assert_eq!(back.access_token, "ACCESS-abc123");
    assert_eq!(back.refresh_token, "REFRESH-def456");
    assert_eq!(back.expires_in, 3600);
    assert_eq!(back.issued_at, 1700000000);
}

#[test]
fn round_trip_with_special_characters() {
    let rec = Tokens {
        access_token: String::from("a\"b\\c{}:,"),
        refresh_token: String::from("  spaced  \"quoted\"  "),
        expires_in: 0,
        issued_at: u64::MAX,
    };
    let sealed = encrypt_token(&rec);
    let back = decrypt_tokens(&sealed).expect("round trip must decode");
    assert_eq!(back.access_token, "a\"b\\c{}:,");
    assert_eq!(back.refresh_token, "  spaced  \"quoted\"  ");
    assert_eq!(back.expires_in, 0);
    assert_eq!(back.issued_at, u64::MAX);
}

#[test]
fn ciphertext_is_not_the_plaintext() {
    let rec = sample();
    let sealed = encrypt_token(&rec);
    let json = tokens_to_json(&rec);
    assert_ne!(sealed, json.as_bytes().to_vec());
    assert_eq!(sealed.len(), json.len() + 16);
}

#[test]
fn tampered_ciphertext_is_a_decode_error() {
    let rec = sample();
    let mut sealed = encrypt_token(&rec);
    for flip in 0..sealed.len() {
        sealed[flip] ^= 1;
        let out = decrypt_tokens(&sealed);
        match out {
            Ok(_) => panic!("tampered ciphertext must not decode"),
            Err(e) => assert_eq!(e.error, "DecodeError"),
        }
        sealed[flip] ^= 1;
    }
}

#[test]
fn truncated_and_garbage_input_are_decode_errors() {
    let rec = sample();
    let sealed = encrypt_token(&rec);
    let err = decrypt_tokens(&sealed[..sealed.len() - 1]).unwrap_err();
    assert_eq!(err.error, "DecodeError");
    let err = decrypt_tokens(&[]).unwrap_err();
    assert_eq!(err.error, "DecodeError");
    let err = decrypt_tokens(b"not a token file at all").unwrap_err();
    assert_eq!(err.error, "DecodeError");
}

#[test]
fn wrong_key_is_a_decode_error() {
    let rec = sample();
    let key_a: [u8; 32] = [7; 32];
    let key_b: [u8; 32] = [8; 32];
    let nonce: [u8; 12] = [1, 2, 3, 4, 5, 6, 7, 8, 9, 10, 11, 12];
    let sealed = encrypt_token_with(&key_a, &nonce, &rec);
    let back = decrypt_tokens_with(&key_a, &nonce, &sealed).expect("same key must decode");
    assert_eq!(back.access_token, rec.access_token);
    let err = decrypt_tokens_with(&key_b, &nonce, &sealed).unwrap_err();
    assert_eq!(err.error, "DecodeError");
}

#[test]
fn tokens_json_is_canonical() {
    let rec = Tokens {
        access_token: String::from("A"),
        refresh_token: String::from("R"),
        expires_in: 3600,
        issued_at: 99,
    };
    let json = tokens_to_json(&rec);
    assert_eq!(
        json,
        "{\"access_token\":\"A\",\"refresh_token\":\"R\",\"expires_in\":3600,\"issued_at\":99}"
    );
}

#[test]
fn tokens_json_escapes_quotes_and_backslashes() {
    let rec = Tokens {
        access_token: String::from("a\"b\\c"),
        refresh_token: String::from("r"),
        expires_in: 1,
        issued_at: 2,
    };
    let json = tokens_to_json(&rec);
    assert_eq!(
        json,
        "{\"access_token\":\"a\\\"b\\\\c\",\"refresh_token\":\"r\",\"expires_in\":1,\"issued_at\":2}"
    );
    let back = tokens_from_json(&json).expect("escaped form must read back");
    assert_eq!(back.access_token, "a\"b\\c");
}

#[test]
fn tokens_json_reads_any_member_order_and_whitespace() {
    let body = " { \"issued_at\" : 7 , \"expires_in\" : 60 , \"refresh_token\" : \"r\" , \"access_token\" : \"a\" } ";
    let t = tokens_from_json(body).expect("reordered object must read");
    assert_eq!(t.access_token, "a");
    assert_eq!(t.refresh_token, "r");
    assert_eq!(t.expires_in, 60);
    assert_eq!(t.issued_at, 7);
}

#[test]
fn tokens_json_rejects_bad_shapes() {
    assert!(tokens_from_json("").is_none());
    assert!(tokens_from_json("{}").is_none());
    assert!(tokens_from_json("not json").is_none());
    assert!(
        tokens_from_json("{\"access_token\":\"a\",\"refresh_token\":\"r\",\"expires_in\":1}")
            .is_none()
    );
    assert!(
        tokens_from_json(
            "{\"access_token\":\"a\",\"refresh_token\":\"r\",\"expires_in\":1,\"issued_at\":2} tail"
        )
        .is_none()
    );
    assert!(
        tokens_from_json(
            "{\"access_token\":\"a\",\"refresh_token\":\"r\",\"expires_in\":99999999999999999999,\"issued_at\":2}"
        )
        .is_none()
    );
}

#[test]
fn first_member_wins_on_duplicate_keys() {
    let body = "{\"access_token\":\"first\",\"access_token\":\"second\",\"refresh_token\":\"r\",\"expires_in\":1,\"issued_at\":2}";
    let t = tokens_from_json(body).expect("duplicate keys keep the first");
    assert_eq!(t.access_token, "first");
}

#[test]
fn numbers_may_carry_leading_zeros() {
    let body = "{\"access_token\":\"a\",\"refresh_token\":\"r\",\"expires_in\":007,\"issued_at\":0}";
    let t = tokens_from_json(body).expect("leading zeros read as the same number");
    assert_eq!(t.expires_in, 7);
    assert_eq!(t.issued_at, 0);
}

#[test]
fn whitespace_includes_tabs_and_newlines() {
    let body = "{\n\t\"access_token\" :\t\"a\",\r\n\"refresh_token\":\"r\",\"expires_in\":1,\"issued_at\":18446744073709551615\n}";
    let t = tokens_from_json(body).expect("tabs and newlines are whitespace");
    assert_eq!(t.issued_at, u64::MAX);
}

#[test]
fn token_response_reads_the_endpoint_shape() {
    let body =
        "{\"token_type\":\"Bearer\",\"expires_in\":2678400,\"access_token\":\"AT\",\"refresh_token\":\"RT\"}";
    let tr = token_response_from_json(body).expect("endpoint shape must read");
    assert_eq!(tr.token_type, "Bearer");
    assert_eq!(tr.expires_in, 2678400);
    assert_eq!(tr.access_token, "AT");
    assert_eq!(tr.refresh_token, "RT");
    assert!(token_response_from_json("{\"token_type\":\"Bearer\"}").is_none());
}
