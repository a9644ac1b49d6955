use vstd::prelude::*;

use aes_gcm::KeyInit;
use aes_gcm::aead::Aead;

use crate::MALError;
use crate::chartext::lemma_dec_digits_len_u64;
use crate::chartext::push_char;
use crate::chartext::str_chars;
use crate::chartext::u64_to_string;
use crate::json::FieldValV;
use crate::json::lemma_escape_len;
use crate::json::lemma_parse_pair_of_num_member;
use crate::json::lemma_parse_pair_of_str_member;
use crate::json::lemma_skip_ws_no_ws;
use crate::json::lookup;
use crate::json::lookup_num;
use crate::json::lookup_str;
use crate::json::num_member;
use crate::json::parse_members;
use crate::json::parse_object;
use crate::json::quote_chars;
use crate::json::read_object;
use crate::json::find_str;
use crate::json::find_num;
use crate::json::skip_ws;
use crate::json::str_member;
use crate::json::write_quoted;

verus! {

// The durable token bundle and its at-rest codec.  A record is written
// as one JSON object, then sealed with AES-256-GCM; reading inverts
// both steps and treats any failure as a decode error.

/// The durable token bundle: what one successful exchange or refresh
/// leaves behind.  `issued_at` is stamped at the moment of the exchange;
/// the record counts as expired once `now - issued_at >= expires_in`.
#[derive(Debug, Clone)]
pub struct Tokens {
    pub access_token: String,
    pub refresh_token: String,
    pub expires_in: u64,
    pub issued_at: u64,
}

/// The mathematical value of a `Tokens` record.
pub struct TokensV {
    pub access_token: Seq<char>,
    pub refresh_token: Seq<char>,
    pub expires_in: u64,
    pub issued_at: u64,
}

impl View for Tokens {
    type V = TokensV;

    open spec fn view(&self) -> TokensV {
        TokensV {
            access_token: self.access_token@,
            refresh_token: self.refresh_token@,
            expires_in: self.expires_in,
            issued_at: self.issued_at,
        }
    }
}

/// What the token endpoint answers on a successful exchange or refresh.
#[derive(Debug)]
pub struct TokenResponse {
    pub token_type: String,
    pub expires_in: u64,
    pub access_token: String,
    pub refresh_token: String,
}

/// The mathematical value of a `TokenResponse`.
pub struct TokenResponseV {
    pub token_type: Seq<char>,
    pub expires_in: u64,
    pub access_token: Seq<char>,
    pub refresh_token: Seq<char>,
}

impl View for TokenResponse {
    type V = TokenResponseV;

    open spec fn view(&self) -> TokenResponseV {
        TokenResponseV {
            token_type: self.token_type@,
            expires_in: self.expires_in,
            access_token: self.access_token@,
            refresh_token: self.refresh_token@,
        }
    }
}

/// The canonical JSON encoding of a token record.
pub open spec fn encode_tokens(t: TokensV) -> Seq<char> {
    seq!['{'] + str_member("access_token"@, t.access_token) + seq![','] + str_member(
        "refresh_token"@,
        t.refresh_token,
    ) + seq![','] + num_member("expires_in"@, t.expires_in as int) + seq![','] + num_member(
        "issued_at"@,
        t.issued_at as int,
    ) + seq!['}']
}

/// The token record held in a member list, when all four fields are there.
pub open spec fn tokens_of_pairs(ps: Seq<(Seq<char>, FieldValV)>) -> Option<TokensV> {
    match (
        lookup_str(ps, "access_token"@),
        lookup_str(ps, "refresh_token"@),
        lookup_num(ps, "expires_in"@),
        lookup_num(ps, "issued_at"@),
    ) {
        (Some(a), Some(r), Some(e), Some(i)) => Some(
            TokensV { access_token: a, refresh_token: r, expires_in: e, issued_at: i },
        ),
        _ => None,
    }
}

/// The token record denoted by a sequence of characters, if any.
pub open spec fn parse_tokens(s: Seq<char>) -> Option<TokensV> {
    match parse_object(s) {
        Some(ps) => tokens_of_pairs(ps),
        None => None,
    }
}

/// The token-endpoint response held in a member list.
pub open spec fn token_response_of_pairs(ps: Seq<(Seq<char>, FieldValV)>) -> Option<
    TokenResponseV,
> {
    match (
        lookup_str(ps, "token_type"@),
        lookup_num(ps, "expires_in"@),
        lookup_str(ps, "access_token"@),
        lookup_str(ps, "refresh_token"@),
    ) {
        (Some(t), Some(e), Some(a), Some(r)) => Some(
            TokenResponseV { token_type: t, expires_in: e, access_token: a, refresh_token: r },
        ),
        _ => None,
    }
}

/// The token-endpoint response denoted by a sequence of characters.
pub open spec fn parse_token_response(s: Seq<char>) -> Option<TokenResponseV> {
    match parse_object(s) {
        Some(ps) => token_response_of_pairs(ps),
        None => None,
    }
}

/// Encoding a record always yields a readable object with its four
/// members: the writing half of the codec round trip.
pub proof fn lemma_parse_tokens_of_encode(t: TokensV)
    ensures
        parse_tokens(encode_tokens(t)) == Some(t),
{
    let ka = "access_token"@;
    let kr = "refresh_token"@;
    let ke = "expires_in"@;
    let ki = "issued_at"@;
    let m1 = str_member(ka, t.access_token);
    let m2 = str_member(kr, t.refresh_token);
    let m3 = num_member(ke, t.expires_in as int);
    let m4 = num_member(ki, t.issued_at as int);
    let s = encode_tokens(t);

    let r4 = seq!['}'];
    let r3 = seq![','] + (m4 + r4);
    let r2 = seq![','] + (m3 + r3);
    let r1 = seq![','] + (m2 + r2);
    let inner = m1 + r1;
    assert(s =~= seq!['{'] + inner);

    assert(s[0] == '{');
    lemma_skip_ws_no_ws(s);
    assert(s.drop_first() =~= inner);
    assert(quote_chars(ka)[0] == '"');
    assert(inner[0] == '"');
    lemma_skip_ws_no_ws(inner);

    let p1 = (ka, FieldValV::Str(t.access_token));
    let p2 = (kr, FieldValV::Str(t.refresh_token));
    let p3 = (ke, FieldValV::Num(t.expires_in));
    let p4 = (ki, FieldValV::Num(t.issued_at));

    lemma_parse_pair_of_str_member(ka, t.access_token, r1);
    lemma_skip_ws_no_ws(r1);
    assert(r1[0] == ',');
    assert(r1.drop_first() =~= m2 + r2);
    assert(quote_chars(kr)[0] == '"');
    assert((m2 + r2)[0] == '"');
    lemma_skip_ws_no_ws(m2 + r2);

    lemma_parse_pair_of_str_member(kr, t.refresh_token, r2);
    lemma_skip_ws_no_ws(r2);
    assert(r2[0] == ',');
    assert(r2.drop_first() =~= m3 + r3);
    assert(quote_chars(ke)[0] == '"');
    assert((m3 + r3)[0] == '"');
    lemma_skip_ws_no_ws(m3 + r3);

    lemma_parse_pair_of_num_member(ke, t.expires_in as int, r3);
    lemma_skip_ws_no_ws(r3);
    assert(r3[0] == ',');
    assert(r3.drop_first() =~= m4 + r4);
    assert(quote_chars(ki)[0] == '"');
    assert((m4 + r4)[0] == '"');
    lemma_skip_ws_no_ws(m4 + r4);

    lemma_parse_pair_of_num_member(ki, t.issued_at as int, r4);
    lemma_skip_ws_no_ws(r4);
    assert(r4[0] == '}');

    assert(parse_members(m4 + r4) == Some((seq![p4], r4)));
    assert(parse_members(m3 + r3) == Some((seq![p3] + seq![p4], r4)));
    assert(parse_members(m2 + r2) == Some((seq![p2] + (seq![p3] + seq![p4]), r4)));
    assert(parse_members(inner) == Some((seq![p1] + (seq![p2] + (seq![p3] + seq![p4])), r4)));

    let ps = seq![p1, p2, p3, p4];
    assert(seq![p1] + (seq![p2] + (seq![p3] + seq![p4])) =~= ps);
    assert(r4.drop_first() =~= Seq::<char>::empty());
    assert(skip_ws(Seq::<char>::empty()).len() == 0);
    assert(parse_object(s) == Some(ps));

    reveal_strlit("access_token");
    reveal_strlit("refresh_token");
    reveal_strlit("expires_in");
    reveal_strlit("issued_at");
    assert(ka.len() == 12 && kr.len() == 13 && ke.len() == 10 && ki.len() == 9);
    assert(ps.drop_first() =~= seq![p2, p3, p4]);
    assert(seq![p2, p3, p4].drop_first() =~= seq![p3, p4]);
    assert(seq![p3, p4].drop_first() =~= seq![p4]);

    assert(lookup(ps, ka) == Some(p1.1));
    assert(lookup(ps, kr) == lookup(seq![p2, p3, p4], kr));
    assert(lookup(seq![p2, p3, p4], kr) == Some(p2.1));
    assert(lookup(ps, ke) == lookup(seq![p2, p3, p4], ke));
    assert(lookup(seq![p2, p3, p4], ke) == lookup(seq![p3, p4], ke));
    assert(lookup(seq![p3, p4], ke) == Some(p3.1));
    assert(lookup(ps, ki) == lookup(seq![p2, p3, p4], ki));
    assert(lookup(seq![p2, p3, p4], ki) == lookup(seq![p3, p4], ki));
    assert(lookup(seq![p3, p4], ki) == lookup(seq![p4], ki));
    assert(lookup(seq![p4], ki) == Some(p4.1));
    assert(tokens_of_pairs(ps) == Some(t));
}

/// Writes a token record as its canonical JSON object.
pub fn tokens_to_json(t: &Tokens) -> (r: String)
    ensures
        r@ == encode_tokens(t@),
{
    let mut out = String::new();
    push_char(&mut out, '{');
    write_quoted(&mut out, "access_token");
    push_char(&mut out, ':');
    write_quoted(&mut out, t.access_token.as_str());
    push_char(&mut out, ',');
    write_quoted(&mut out, "refresh_token");
    push_char(&mut out, ':');
    write_quoted(&mut out, t.refresh_token.as_str());
    push_char(&mut out, ',');
    write_quoted(&mut out, "expires_in");
    push_char(&mut out, ':');
    let e = u64_to_string(t.expires_in);
    out.append(e.as_str());
    push_char(&mut out, ',');
    write_quoted(&mut out, "issued_at");
    push_char(&mut out, ':');
    let i = u64_to_string(t.issued_at);
    out.append(i.as_str());
    push_char(&mut out, '}');
    assert(out@ =~= encode_tokens(t@));
    out
}

/// Reads a token record back from its JSON object form.
pub fn tokens_from_json(s: &str) -> (r: Option<Tokens>)
    ensures
        match r {
            Some(t) => parse_tokens(s@) == Some(t@),
            None => parse_tokens(s@) is None,
        },
{
    let v = str_chars(s);
    let ps = match read_object(&v) {
        Some(ps) => ps,
        None => {
            return None;
        },
    };
    let a = match find_str(&ps, "access_token") {
        Some(x) => x,
        None => {
            return None;
        },
    };
    let rt = match find_str(&ps, "refresh_token") {
        Some(x) => x,
        None => {
            return None;
        },
    };
    let e = match find_num(&ps, "expires_in") {
        Some(x) => x,
        None => {
            return None;
        },
    };
    let i = match find_num(&ps, "issued_at") {
        Some(x) => x,
        None => {
            return None;
        },
    };
    Some(Tokens { access_token: a, refresh_token: rt, expires_in: e, issued_at: i })
}

/// Reads a token-endpoint response from its JSON object form.
pub fn token_response_from_json(s: &str) -> (r: Option<TokenResponse>)
    ensures
        match r {
            Some(t) => parse_token_response(s@) == Some(t@),
            None => parse_token_response(s@) is None,
        },
{
    let v = str_chars(s);
    let ps = match read_object(&v) {
        Some(ps) => ps,
        None => {
            return None;
        },
    };
    let tt = match find_str(&ps, "token_type") {
        Some(x) => x,
        None => {
            return None;
        },
    };
    let e = match find_num(&ps, "expires_in") {
        Some(x) => x,
        None => {
            return None;
        },
    };
    let a = match find_str(&ps, "access_token") {
        Some(x) => x,
        None => {
            return None;
        },
    };
    let rt = match find_str(&ps, "refresh_token") {
        Some(x) => x,
        None => {
            return None;
        },
    };
    Some(TokenResponse { token_type: tt, expires_in: e, access_token: a, refresh_token: rt })
}

// --- the sealed layer ---

/// The AES-256-GCM ciphertext of the UTF-8 bytes of `plain` under
/// `key` and `nonce`.
pub uninterp spec fn seal_of(key: Seq<u8>, nonce: Seq<u8>, plain: Seq<char>) -> Seq<u8>;

/// The characters sealed inside `cipher` under `key` and `nonce`:
/// present exactly when the ciphertext authenticates and its plaintext
/// is valid UTF-8.
pub uninterp spec fn open_of(key: Seq<u8>, nonce: Seq<u8>, cipher: Seq<u8>) -> Option<Seq<char>>;

/// Relies on aes_gcm's Aes256Gcm: encryption is a deterministic function
/// of key, nonce and plaintext, it succeeds on every plaintext shorter
/// than the GCM limit, and decrypting its result with the same key and
/// nonce yields the plaintext back.
#[verifier::external_body]
fn aead_seal(key: &[u8; 32], nonce: &[u8; 12], plain: &str) -> (r: Vec<u8>)
    requires
        plain@.len() <= 0x10000000,
    ensures
        r@ == seal_of(key@, nonce@, plain@),
        open_of(key@, nonce@, r@) == Some(plain@),
{
    let cipher = aes_gcm::Aes256Gcm::new(&aes_gcm::Key::<aes_gcm::Aes256Gcm>::from(*key));
    cipher.encrypt(&aes_gcm::Nonce::from(*nonce), plain.as_bytes()).unwrap()
}

/// Relies on aes_gcm's Aes256Gcm and std's String::from_utf8: yields the
/// sealed characters exactly when `cipher` authenticates under this key
/// and nonce and the plaintext is valid UTF-8.
#[verifier::external_body]
fn aead_open(key: &[u8; 32], nonce: &[u8; 12], cipher: &[u8]) -> (r: Option<String>)
    ensures
        match r {
            Some(s) => open_of(key@, nonce@, cipher@) == Some(s@),
            None => open_of(key@, nonce@, cipher@) is None,
        },
{
    let c = aes_gcm::Aes256Gcm::new(&aes_gcm::Key::<aes_gcm::Aes256Gcm>::from(*key));
    match c.decrypt(&aes_gcm::Nonce::from(*nonce), cipher) {
        Ok(plain) => String::from_utf8(plain).ok(),
        Err(_) => None,
    }
}

/// The record sealed inside `cipher`, if any: the contract of the
/// reading half of the codec.
pub open spec fn spec_decrypt(key: Seq<u8>, nonce: Seq<u8>, cipher: Seq<u8>) -> Option<TokensV> {
    match open_of(key, nonce, cipher) {
        Some(p) => parse_tokens(p),
        None => None,
    }
}

/// Seals a token record under caller-supplied key material.
///
/// The second clause of the contract is the codec round trip: whatever
/// record goes in is exactly what `decrypt_tokens_with` will read back.
pub fn encrypt_token_with(key: &[u8; 32], nonce: &[u8; 12], toks: &Tokens) -> (r: Vec<u8>)
    requires
        toks.access_token@.len() + toks.refresh_token@.len() <= 0x1000000,
    ensures
        r@ == seal_of(key@, nonce@, encode_tokens(toks@)),
        spec_decrypt(key@, nonce@, r@) == Some(toks@),
{
    let json = tokens_to_json(toks);
    proof {
        lemma_escape_len(toks.access_token@);
        lemma_escape_len(toks.refresh_token@);
        lemma_escape_len("access_token"@);
        lemma_escape_len("refresh_token"@);
        lemma_escape_len("expires_in"@);
        lemma_escape_len("issued_at"@);
        lemma_dec_digits_len_u64(toks.expires_in as int);
        lemma_dec_digits_len_u64(toks.issued_at as int);
        reveal_strlit("access_token");
        reveal_strlit("refresh_token");
        reveal_strlit("expires_in");
        reveal_strlit("issued_at");
    }
    let r = aead_seal(key, nonce, json.as_str());
    proof {
        lemma_parse_tokens_of_encode(toks@);
    }
    r
}

/// Opens a sealed token record; any failure, whether the ciphertext does
/// not authenticate or its plaintext is not a record, is reported as a
/// decode error rather than a panic.
pub fn decrypt_tokens_with(key: &[u8; 32], nonce: &[u8; 12], raw: &[u8]) -> (r: Result<
    Tokens,
    MALError,
>)
    ensures
        match r {
            Ok(t) => spec_decrypt(key@, nonce@, raw@) == Some(t@),
            Err(e) => spec_decrypt(key@, nonce@, raw@) is None && e@ == (crate::MALErrorV {
                error: "DecodeError"@,
                message: Some(
                    if open_of(key@, nonce@, raw@) is None {
                        "Unable to decrypt encrypted tokens"@
                    } else {
                        "couldn't parse decrypted tokens"@
                    },
                ),
                info: None,
            }),
        },
{
    match aead_open(key, nonce, raw) {
        Some(plain) => {
            match tokens_from_json(plain.as_str()) {
                Some(t) => Ok(t),
                None => Err(
                    MALError::new("couldn't parse decrypted tokens", "DecodeError", None),
                ),
            }
        },
        None => Err(MALError::new("Unable to decrypt encrypted tokens", "DecodeError", None)),
    }
}

/// The key baked into the original storage format.  It is a weak scheme
/// (one fixed key for every installation); `encrypt_token_with` and
/// `decrypt_tokens_with` exist so that a caller can supply better
/// material, and these constants only keep old token files readable.
pub fn default_key() -> (r: [u8; 32])
    ensures
        r@ == default_key_spec(),
{
    let r: [u8; 32] = [111, 110, 101, 32, 116, 119, 111, 32, 116, 104, 114, 101, 101, 32, 102, 111,
        117, 114, 32, 102, 105, 118, 101, 32, 115, 105, 120, 32, 115, 101, 118, 101];
    proof {
        assert(r@ =~= default_key_spec());
    }
    r
}

pub open spec fn default_key_spec() -> Seq<u8> {
    seq![111u8, 110, 101, 32, 116, 119, 111, 32, 116, 104, 114, 101, 101, 32, 102, 111, 117, 114,
        32, 102, 105, 118, 101, 32, 115, 105, 120, 32, 115, 101, 118, 101]
}

/// The nonce baked into the original storage format.
pub fn default_nonce() -> (r: [u8; 12])
    ensures
        r@ == default_nonce_spec(),
{
    let r: [u8; 12] = [98, 117, 116, 32, 116, 104, 101, 32, 101, 97, 114, 116];
    proof {
        assert(r@ =~= default_nonce_spec());
    }
    r
}

pub open spec fn default_nonce_spec() -> Seq<u8> {
    seq![98u8, 117, 116, 32, 116, 104, 101, 32, 101, 97, 114, 116]
}

/// Seals a token record with the default key material.
pub fn encrypt_token(toks: &Tokens) -> (r: Vec<u8>)
    requires
        toks.access_token@.len() + toks.refresh_token@.len() <= 0x1000000,
    ensures
        r@ == seal_of(default_key_spec(), default_nonce_spec(), encode_tokens(toks@)),
        spec_decrypt(default_key_spec(), default_nonce_spec(), r@) == Some(toks@),
{
    let key = default_key();
    let nonce = default_nonce();
    encrypt_token_with(&key, &nonce, toks)
}

/// Opens a token record sealed with the default key material.
pub fn decrypt_tokens(raw: &[u8]) -> (r: Result<Tokens, MALError>)
    ensures
        match r {
            Ok(t) => spec_decrypt(default_key_spec(), default_nonce_spec(), raw@) == Some(t@),
            Err(e) => spec_decrypt(default_key_spec(), default_nonce_spec(), raw@) is None
                && e.error@ == "DecodeError"@,
        },
{
    let key = default_key();
    let nonce = default_nonce();
    decrypt_tokens_with(&key, &nonce, raw)
}

} // verus!
