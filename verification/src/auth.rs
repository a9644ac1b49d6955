use vstd::prelude::*;

use crate::MALError;
use crate::chartext::chars_to_string;
use crate::chartext::contains_chars;
use crate::chartext::contains_seq;
use crate::chartext::find_char;
use crate::chartext::find_from;
use crate::chartext::str_chars;
use crate::codec::Tokens;
use crate::codec::TokensV;
use crate::codec::default_key_spec;
use crate::codec::default_nonce_spec;
use crate::codec::decrypt_tokens;
use crate::codec::parse_token_response;
use crate::codec::spec_decrypt;
use crate::codec::token_response_from_json;

verus! {

// The PKCE authorization flow: challenge material, the authorization
// URL, the callback decision, the code-for-token forms, and the refresh
// decision taken at client construction.  Everything that talks to the
// network or binds a socket lives outside the library; these functions
// decide, and their callers only carry values back and forth.

/// A character of the unreserved URL-safe alphabet that PKCE verifiers
/// are drawn from.
pub open spec fn is_unreserved_char(c: char) -> bool {
    ('A' <= c && c <= 'Z') || ('a' <= c && c <= 'z') || ('0' <= c && c <= '9') || c == '-' || c
        == '.' || c == '~' || c == '_'
}

/// A character of the padding-free base64url alphabet.
pub open spec fn is_base64url_char(c: char) -> bool {
    ('A' <= c && c <= 'Z') || ('a' <= c && c <= 'z') || ('0' <= c && c <= '9') || c == '-' || c
        == '_'
}

/// The S256 transform: the base64url form, without padding, of the
/// SHA-256 digest of the verifier's bytes.
pub uninterp spec fn challenge_of(verifier: Seq<char>) -> Seq<char>;

/// Relies on pkce::code_verifier: a fresh random string of `length`
/// characters, each from the unreserved alphabet; the call panics unless
/// 43 <= length <= 128.
#[verifier::external_body]
fn pkce_verifier(length: usize) -> (r: String)
    requires
        43 <= length <= 128,
    ensures
        r@.len() == length as int,
        forall|i: int| 0 <= i < r@.len() ==> is_unreserved_char(#[trigger] r@[i]),
{
    String::from_utf8(pkce::code_verifier(length)).unwrap()
}

/// Relies on pkce::code_challenge: the S256 transform of the verifier,
/// a function of the verifier alone; always 43 base64url characters
/// (the 32-byte SHA-256 digest in unpadded base64).
#[verifier::external_body]
fn pkce_challenge(verifier: &str) -> (r: String)
    ensures
        r@ == challenge_of(verifier@),
        r@.len() == 43,
        forall|i: int| 0 <= i < r@.len() ==> is_base64url_char(#[trigger] r@[i]),
{
    pkce::code_challenge(verifier.as_bytes())
}

/// Derives the S256 challenge for a verifier.  The challenge is a
/// function of the verifier alone: deriving twice from equal verifiers
/// gives equal challenges.
pub fn derive_challenge(verifier: &str) -> (r: String)
    ensures
        r@ == challenge_of(verifier@),
        r@.len() == 43,
        forall|i: int| 0 <= i < r@.len() ==> is_base64url_char(#[trigger] r@[i]),
{
    pkce_challenge(verifier)
}

/// The challenge is a deterministic function of the verifier: deriving
/// it twice from equal verifiers yields equal challenges, on any two
/// occasions.
pub proof fn lemma_challenge_deterministic(v1: Seq<char>, v2: Seq<char>)
    requires
        v1 == v2,
    ensures
        challenge_of(v1) == challenge_of(v2),
{
}

/// Ephemeral material for one authorization attempt.  The verifier stays
/// in memory; the challenge goes into the authorization URL; the state
/// correlates the redirect with this attempt.
#[derive(Debug)]
pub struct AuthorizationChallenge {
    pub verifier: String,
    pub challenge: String,
    pub state: String,
}

pub open spec fn challenge_material_wf(c: AuthorizationChallenge) -> bool {
    &&& c.verifier@.len() == 128
    &&& (forall|i: int| 0 <= i < c.verifier@.len() ==> is_unreserved_char(#[trigger] c.verifier@[i]))
    &&& c.challenge@ == challenge_of(c.verifier@)
    &&& c.challenge@.len() == 43
}

/// Starts one authorization attempt: a fresh 128-character verifier, its
/// S256 challenge, and a fresh random state correlator.
pub fn issue_challenge() -> (r: AuthorizationChallenge)
    ensures
        challenge_material_wf(r),
        r.state@.len() == 43,
        forall|i: int| 0 <= i < r.state@.len() ==> is_unreserved_char(#[trigger] r.state@[i]),
{
    let verifier = pkce_verifier(128);
    let challenge = derive_challenge(verifier.as_str());
    let state = pkce_verifier(43);
    AuthorizationChallenge { verifier, challenge, state }
}

/// The authorization URL shown to the user for one attempt.
pub open spec fn auth_url_chars(client_id: Seq<char>, challenge: Seq<char>, state: Seq<char>) -> Seq<
    char,
> {
    "https://myanimelist.net/v1/oauth2/authorize?response_type=code&client_id="@ + client_id
        + "&code_challenge="@ + challenge + "&state="@ + state
}

/// Builds the authorization URL for one attempt.
pub fn build_auth_url(client_id: &str, challenge: &str, state: &str) -> (r: String)
    ensures
        r@ == auth_url_chars(client_id@, challenge@, state@),
{
    let mut out = String::from_str(
        "https://myanimelist.net/v1/oauth2/authorize?response_type=code&client_id=",
    );
    out.append(client_id);
    out.append("&code_challenge=");
    out.append(challenge);
    out.append("&state=");
    out.append(state);
    out
}

// --- the redirect listener's decision ---

/// Removes any leading `http://` or `https://` from a callback address,
/// but only when the address mentions a scheme at all; the listener binds
/// the bare host and port.
pub open spec fn drop_prefix_rep(s: Seq<char>, p: Seq<char>) -> Seq<char>
    decreases s.len(),
{
    if p.len() > 0 && s.len() >= p.len() && s.subrange(0, p.len() as int) == p {
        drop_prefix_rep(s.skip(p.len() as int), p)
    } else {
        s
    }
}

pub open spec fn strip_scheme_spec(s: Seq<char>) -> Seq<char> {
    if contains_seq(s, "http"@) {
        drop_prefix_rep(drop_prefix_rep(s, "http://"@), "https://"@)
    } else {
        s
    }
}

fn drop_prefix_rep_exec(v: &Vec<char>, from: usize, pat: &Vec<char>) -> (r: usize)
    requires
        from <= v@.len(),
        pat@.len() > 0,
    ensures
        from <= r <= v@.len(),
        drop_prefix_rep(v@.skip(from as int), pat@) == v@.skip(r as int),
{
    let n = v.len();
    let m = pat.len();
    let mut i = from;
    loop
        invariant
            from <= i <= n,
            n == v@.len(),
            m == pat@.len(),
            m > 0,
            drop_prefix_rep(v@.skip(from as int), pat@) == drop_prefix_rep(
                v@.skip(i as int),
                pat@,
            ),
        decreases n - i,
    {
        let hit = if m <= n - i {
            crate::chartext::substr_at(v, pat, i)
        } else {
            false
        };
        proof {
            let s = v@.skip(i as int);
            if i + m <= n {
                assert(s.subrange(0, m as int) =~= v@.subrange(i as int, i + m));
            }
        }
        if hit {
            proof {
                let s = v@.skip(i as int);
                assert(s.skip(m as int) =~= v@.skip(i + m));
            }
            i += m;
        } else {
            proof {
                let s = v@.skip(i as int);
                assert(drop_prefix_rep(s, pat@) == s);
            }
            return i;
        }
    }
}

/// Cuts the scheme off a callback address.
pub fn strip_scheme(url: &str) -> (r: String)
    ensures
        r@ == strip_scheme_spec(url@),
{
    let v = str_chars(url);
    let needle = str_chars("http");
    if !contains_chars(&v, &needle) {
        return url.to_owned();
    }
    let p1 = str_chars("http://");
    let p2 = str_chars("https://");
    proof {
        reveal_strlit("http://");
        reveal_strlit("https://");
        assert(v@.skip(0) =~= v@);
    }
    let i = drop_prefix_rep_exec(&v, 0, &p1);
    let j = drop_prefix_rep_exec(&v, i, &p2);
    chars_to_string(&v, j, v.len())
}

/// The position after the first `=`, and before the next `&`, holds the
/// authorization code of a callback request target.
pub open spec fn code_after_equals(s: Seq<char>) -> Option<Seq<char>> {
    match find_from(s, '=') {
        Some(i) => {
            let tail = s.skip(i + 1);
            match find_from(tail, '&') {
                Some(j) => Some(tail.subrange(0, j)),
                None => None,
            }
        },
        None => None,
    }
}

/// The decision taken for one callback request: the code it carries,
/// exactly when its target names the expected state and a code can be
/// cut out between the first `=` and the following `&`.  Any other
/// request is skipped, never fatal.
pub open spec fn callback_decision(target: Seq<char>, expected_state: Seq<char>) -> Option<
    Seq<char>,
> {
    if contains_seq(target, "state="@ + expected_state) {
        code_after_equals(target)
    } else {
        None
    }
}

/// Decides one callback request.
pub fn handle_callback(target: &str, expected_state: &str) -> (r: Option<String>)
    ensures
        match r {
            Some(code) => callback_decision(target@, expected_state@) == Some(code@),
            None => callback_decision(target@, expected_state@) is None,
        },
{
    let v = str_chars(target);
    let mut pat = str_chars("state=");
    let mut sv = str_chars(expected_state);
    pat.append(&mut sv);
    assert(pat@ =~= "state="@ + expected_state@);
    if !contains_chars(&v, &pat) {
        return None;
    }
    proof {
        assert(v@.skip(0) =~= v@);
    }
    let eq = match find_char(&v, 0, '=') {
        Some(i) => i,
        None => {
            return None;
        },
    };
    let amp = match find_char(&v, eq + 1, '&') {
        Some(j) => j,
        None => {
            return None;
        },
    };
    proof {
        let tail = v@.skip(eq + 1);
        assert(tail.subrange(0, amp - (eq + 1)) =~= v@.subrange(eq + 1, amp as int));
    }
    Some(chars_to_string(&v, eq + 1, amp))
}

/// Walks a finite run of callback requests the way the listener does:
/// requests are inspected in order, each non-matching one is skipped,
/// and the first match ends the walk with its code.
pub fn scan_requests(targets: &Vec<String>, expected_state: &str) -> (r: Option<(usize, String)>)
    ensures
        match r {
            Some(p) => p.0 < targets@.len() && callback_decision(targets@[p.0 as int]@, expected_state@)
                == Some(p.1@) && (forall|j: int|
                0 <= j < p.0 ==> callback_decision(
                    #[trigger] targets@[j]@,
                    expected_state@,
                ) is None),
            None => forall|j: int|
                0 <= j < targets@.len() ==> callback_decision(
                    #[trigger] targets@[j]@,
                    expected_state@,
                ) is None,
        },
{
    let n = targets.len();
    let mut i: usize = 0;
    while i < n
        invariant
            i <= n,
            n == targets@.len(),
            forall|j: int|
                0 <= j < i ==> callback_decision(#[trigger] targets@[j]@, expected_state@) is None,
        decreases n - i,
    {
        match handle_callback(targets[i].as_str(), expected_state) {
            Some(code) => {
                return Some((i, code));
            },
            None => {},
        }
        i += 1;
    }
    None
}

// --- the exchange and refresh decisions ---

/// The form fields POSTed to trade an authorization code for tokens.
pub fn token_request_form(client_id: &str, code: &str, verifier: &str) -> (r: Vec<
    (String, String),
>)
    ensures
        r@.len() == 4,
        r@[0].0@ == "client_id"@ && r@[0].1@ == client_id@,
        r@[1].0@ == "grant_type"@ && r@[1].1@ == "authorization_code"@,
        r@[2].0@ == "code_verifier"@ && r@[2].1@ == verifier@,
        r@[3].0@ == "code"@ && r@[3].1@ == code@,
{
    let mut r: Vec<(String, String)> = Vec::new();
    r.push((String::from_str("client_id"), client_id.to_owned()));
    r.push((String::from_str("grant_type"), String::from_str("authorization_code")));
    r.push((String::from_str("code_verifier"), verifier.to_owned()));
    r.push((String::from_str("code"), code.to_owned()));
    r
}

/// The form fields POSTed to refresh an expired token.
pub fn refresh_request_form(refresh_token: &str) -> (r: Vec<(String, String)>)
    ensures
        r@.len() == 2,
        r@[0].0@ == "grant_type"@ && r@[0].1@ == "refresh_token"@,
        r@[1].0@ == "refresh_token"@ && r@[1].1@ == refresh_token@,
{
    let mut r: Vec<(String, String)> = Vec::new();
    r.push((String::from_str("grant_type"), String::from_str("refresh_token")));
    r.push((String::from_str("refresh_token"), refresh_token.to_owned()));
    r
}

/// The token endpoint that both forms are POSTed to.
pub fn token_endpoint_url() -> (r: String)
    ensures
        r@ == "https://myanimelist.net/v1/oauth2/token"@,
{
    String::from_str("https://myanimelist.net/v1/oauth2/token")
}

/// The record stamped from a successful token-endpoint response at time
/// `now`.
pub open spec fn tokens_of_response(tr: crate::codec::TokenResponseV, now: u64) -> TokensV {
    TokensV {
        access_token: tr.access_token,
        refresh_token: tr.refresh_token,
        expires_in: tr.expires_in,
        issued_at: now,
    }
}

/// Reads a token-endpoint response body and stamps a fresh record with
/// `issued_at = now`.  A body that is not a token response is reported
/// as a bad response carrying the raw body for diagnosis.
pub fn apply_token_response(body: &str, now: u64) -> (r: Result<Tokens, MALError>)
    ensures
        match r {
            Ok(t) => parse_token_response(body@) matches Some(tr) && t@ == tokens_of_response(
                tr,
                now,
            ),
            Err(e) => parse_token_response(body@) is None && e@ == (crate::MALErrorV {
                error: "BadResponseError"@,
                message: Some("Unable to get tokens"@),
                info: Some(body@),
            }),
        },
{
    match token_response_from_json(body) {
        Some(tr) => Ok(
            Tokens {
                access_token: tr.access_token,
                refresh_token: tr.refresh_token,
                expires_in: tr.expires_in,
                issued_at: now,
            },
        ),
        None => Err(
            MALError::new("Unable to get tokens", "BadResponseError", Some(body.to_owned())),
        ),
    }
}

/// Whether a record is expired at time `now`.
pub open spec fn record_expired(now: int, issued_at: int, expires_in: int) -> bool {
    now - issued_at >= expires_in
}

pub fn is_expired(now: u64, t: &Tokens) -> (b: bool)
    ensures
        b == record_expired(now as int, t.issued_at as int, t.expires_in as int),
{
    now >= t.issued_at && now - t.issued_at >= t.expires_in
}

/// What a freshly built client should do about its token cache.
#[derive(Debug)]
pub enum RefreshDecision {
    /// No usable cached record: the caller must run the interactive
    /// authorization flow; `will_cache` says whether a cache directory
    /// is configured and caching stays on.
    FullAuth { will_cache: bool },
    /// The cached record is still fresh: its access token is used as it
    /// stands, with no network call.
    UseCached { record: Tokens },
    /// The cached record has expired: exactly one refresh call to the
    /// token endpoint is owed, quoting this refresh token.
    Refresh { record: Tokens },
}

pub enum RefreshDecisionV {
    FullAuth { will_cache: bool },
    UseCached { record: TokensV },
    Refresh { record: TokensV },
}

impl View for RefreshDecision {
    type V = RefreshDecisionV;

    open spec fn view(&self) -> RefreshDecisionV {
        match self {
            RefreshDecision::FullAuth { will_cache } => RefreshDecisionV::FullAuth {
                will_cache: *will_cache,
            },
            RefreshDecision::UseCached { record } => RefreshDecisionV::UseCached {
                record: record@,
            },
            RefreshDecision::Refresh { record } => RefreshDecisionV::Refresh { record: record@ },
        }
    }
}

/// The decision taken at client construction, given whether caching is
/// asked for, whether a cache directory is configured, the raw cache
/// file if one could be read, and the time.  A missing directory
/// downgrades caching; an absent or undecryptable file means a full
/// authorization; otherwise the record's age alone decides.
pub open spec fn plan_refresh_spec(
    caching: bool,
    has_dir: bool,
    bytes: Option<Seq<u8>>,
    now: u64,
) -> RefreshDecisionV {
    if !(caching && has_dir) {
        RefreshDecisionV::FullAuth { will_cache: caching && has_dir }
    } else {
        match bytes {
            None => RefreshDecisionV::FullAuth { will_cache: true },
            Some(b) => match spec_decrypt(default_key_spec(), default_nonce_spec(), b) {
                None => RefreshDecisionV::FullAuth { will_cache: true },
                Some(t) => if record_expired(now as int, t.issued_at as int, t.expires_in as int) {
                    RefreshDecisionV::Refresh { record: t }
                } else {
                    RefreshDecisionV::UseCached { record: t }
                },
            },
        }
    }
}

/// Takes the refresh decision for a freshly built client.
pub fn plan_refresh(caching: bool, has_dir: bool, cache_bytes: Option<Vec<u8>>, now: u64) -> (r:
    RefreshDecision)
    ensures
        r@ == plan_refresh_spec(
            caching,
            has_dir,
            match cache_bytes {
                Some(b) => Some(b@),
                None => None,
            },
            now,
        ),
{
    if !(caching && has_dir) {
        return RefreshDecision::FullAuth { will_cache: false };
    }
    let bytes = match cache_bytes {
        Some(b) => b,
        None => {
            return RefreshDecision::FullAuth { will_cache: true };
        },
    };
    let record = match decrypt_tokens(bytes.as_slice()) {
        Ok(t) => t,
        Err(_) => {
            return RefreshDecision::FullAuth { will_cache: true };
        },
    };
    if is_expired(now, &record) {
        RefreshDecision::Refresh { record }
    } else {
        RefreshDecision::UseCached { record }
    }
}

} // verus!
