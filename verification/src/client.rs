use vstd::prelude::*;

use crate::MALError;
use crate::MALErrorV;
use crate::auth::AuthorizationChallenge;
use crate::auth::auth_url_chars;
use crate::auth::build_auth_url;
use crate::auth::issue_challenge;
use crate::chartext::all_digit_chars;
use crate::chartext::chars_to_string;
use crate::chartext::dec_digits;
use crate::chartext::digits_val;
use crate::chartext::is_digit_char;
use crate::chartext::join_comma;
use crate::chartext::lemma_digits_val_nonneg;
use crate::chartext::str_chars;
use crate::chartext::u64_to_string;
use crate::fields::AnimeFields;
use crate::fields::field_names;
use crate::json::lookup_str;
use crate::json::parse_object;
use crate::json::read_object;
use crate::json::find_str;
use crate::options::RankingType;
use crate::options::Season;

verus! {

// The client facade: the credential state every data request reads, the
// URLs the endpoints are reached under, and the error fallback that
// every response parse shares.  Sending the requests is the caller's
// business; these functions fix exactly what is sent and how an answer
// is read.

/// The live authorization state of one client instance.
pub struct MALClient {
    pub client_secret: String,
    pub dirs: Option<String>,
    pub access_token: String,
    pub caching: bool,
    pub need_auth: bool,
}

impl MALClient {
    pub fn new(
        client_secret: String,
        dirs: Option<String>,
        access_token: String,
        caching: bool,
        need_auth: bool,
    ) -> (r: MALClient)
        ensures
            r.client_secret == client_secret,
            r.dirs == dirs,
            r.access_token == access_token,
            r.caching == caching,
            r.need_auth == need_auth,
    {
        MALClient { client_secret, dirs, access_token, caching, need_auth }
    }

    /// A client that only carries a ready access token.  It cannot run
    /// the authorization flow, for want of a client id, and does not
    /// cache.
    pub fn with_access_token(token: &str) -> (r: MALClient)
        ensures
            r.client_secret@.len() == 0,
            r.dirs is None,
            r.access_token@ == token@,
            !r.caching,
            !r.need_auth,
    {
        MALClient {
            client_secret: String::new(),
            dirs: None,
            access_token: token.to_owned(),
            caching: false,
            need_auth: false,
        }
    }

    /// Sets the directory used for the token cache.
    pub fn set_cache_dir(&mut self, dir: Option<String>)
        ensures
            *final(self) == (MALClient { dirs: dir, ..*old(self) }),
    {
        self.dirs = dir;
    }

    /// Sets whether the client caches tokens.
    pub fn set_caching(&mut self, caching: bool)
        ensures
            *final(self) == (MALClient { caching, ..*old(self) }),
    {
        self.caching = caching;
    }

    /// The current access token.
    pub fn get_access_token(&self) -> (r: &str)
        ensures
            r@ == self.access_token@,
    {
        self.access_token.as_str()
    }

    /// Whether a full authorization handshake is still owed.
    pub fn need_auth(&self) -> (r: bool)
        ensures
            r == self.need_auth,
    {
        self.need_auth
    }

    /// Installs the access token of a freshly exchanged or refreshed
    /// record: the credentials now carry that token and no handshake is
    /// owed any more; nothing else changes.
    pub fn adopt_record(&mut self, record: &crate::codec::Tokens)
        ensures
            final(self).access_token@ == record.access_token@,
            !final(self).need_auth,
            final(self).client_secret == old(self).client_secret,
            final(self).dirs == old(self).dirs,
            final(self).caching == old(self).caching,
    {
        self.access_token = record.access_token.clone();
        self.need_auth = false;
    }

    /// Starts one authorization attempt: the URL the user must visit,
    /// the challenge that was put in it, and the state correlator the
    /// redirect must quote.
    pub fn get_auth_parts(&self) -> (r: (String, String, String))
        ensures
            r.0@ == auth_url_chars(self.client_secret@, r.1@, r.2@),
            exists|v: Seq<char>| v.len() == 128 && r.1@ == crate::auth::challenge_of(v),
            r.1@.len() == 43,
            r.2@.len() == 43,
    {
        let c: AuthorizationChallenge = issue_challenge();
        let url = build_auth_url(
            self.client_secret.as_str(),
            c.challenge.as_str(),
            c.state.as_str(),
        );
        (url, c.challenge, c.state)
    }
}

// --- the endpoint URLs ---

pub open spec fn limit_or_100(limit: Option<u8>) -> int {
    match limit {
        Some(x) => x as int,
        None => 100,
    }
}

fn limit_string(limit: Option<u8>) -> (r: String)
    ensures
        r@ == dec_digits(limit_or_100(limit)),
{
    match limit {
        Some(x) => u64_to_string(x as u64),
        None => u64_to_string(100),
    }
}

/// The URL of an anime search.
pub fn anime_list_url(query: &str, limit: Option<u8>) -> (r: String)
    ensures
        r@ == "https://api.myanimelist.net/v2/anime?q="@ + query@ + "&limit="@ + dec_digits(
            limit_or_100(limit),
        ),
{
    let mut r = String::from_str("https://api.myanimelist.net/v2/anime?q=");
    r.append(query);
    r.append("&limit=");
    let l = limit_string(limit);
    r.append(l.as_str());
    r
}

/// The URL of a detail request; an absent selection asks for every field.
pub fn anime_details_url(id: u64, fields: Option<AnimeFields>) -> (r: String)
    ensures
        r@ == "https://api.myanimelist.net/v2/anime/"@ + dec_digits(id as int) + "?fields="@
            + join_comma(
            field_names(
                match fields {
                    Some(f) => f,
                    None => AnimeFields { bits: crate::fields::FIELD_ALL },
                },
            ),
        ),
{
    let mut r = String::from_str("https://api.myanimelist.net/v2/anime/");
    let ids = u64_to_string(id);
    r.append(ids.as_str());
    r.append("?fields=");
    let f = match fields {
        Some(f) => f,
        None => AnimeFields::all(),
    };
    let q = f.to_query();
    r.append(q.as_str());
    r
}

/// The URL of a ranking request.
pub fn anime_ranking_url(ranking_type: &RankingType, limit: Option<u8>) -> (r: String)
    ensures
        r@ == "https://api.myanimelist.net/v2/anime/ranking?ranking_type="@
            + ranking_type.query_name() + "&limit="@ + dec_digits(limit_or_100(limit)),
{
    let mut r = String::from_str("https://api.myanimelist.net/v2/anime/ranking?ranking_type=");
    let t = ranking_type.as_query();
    r.append(t.as_str());
    r.append("&limit=");
    let l = limit_string(limit);
    r.append(l.as_str());
    r
}

/// The URL of a seasonal listing.
pub fn seasonal_anime_url(season: &Season, year: u64, limit: Option<u8>) -> (r: String)
    ensures
        r@ == "https://api.myanimelist.net/v2/anime/season/"@ + dec_digits(year as int) + "/"@
            + season.query_name() + "?limit="@ + dec_digits(limit_or_100(limit)),
{
    let mut r = String::from_str("https://api.myanimelist.net/v2/anime/season/");
    let y = u64_to_string(year);
    r.append(y.as_str());
    r.append("/");
    let s = season.as_query();
    r.append(s.as_str());
    r.append("?limit=");
    let l = limit_string(limit);
    r.append(l.as_str());
    r
}

/// The URL of the suggestion listing.
pub fn suggested_anime_url(limit: Option<u8>) -> (r: String)
    ensures
        r@ == "https://api.myanimelist.net/v2/anime/suggestions?limit="@ + dec_digits(
            limit_or_100(limit),
        ),
{
    let mut r = String::from_str("https://api.myanimelist.net/v2/anime/suggestions?limit=");
    let l = limit_string(limit);
    r.append(l.as_str());
    r
}

/// The URL a list entry is updated or deleted under.
pub fn my_list_status_url(id: u64) -> (r: String)
    ensures
        r@ == "https://api.myanimelist.net/v2/anime/"@ + dec_digits(id as int)
            + "/my_list_status"@,
{
    let mut r = String::from_str("https://api.myanimelist.net/v2/anime/");
    let ids = u64_to_string(id);
    r.append(ids.as_str());
    r.append("/my_list_status");
    r
}

/// The URL of the user's own list.
pub fn user_anime_list_url() -> (r: String)
    ensures
        r@ == "https://api.myanimelist.net/v2/users/@me/animelist?fields=list_status&limit=4"@,
{
    String::from_str("https://api.myanimelist.net/v2/users/@me/animelist?fields=list_status&limit=4")
}

/// The URL of the forum board listing.
pub fn forum_boards_url() -> (r: String)
    ensures
        r@ == "https://api.myanimelist.net/v2/forum/boards"@,
{
    String::from_str("https://api.myanimelist.net/v2/forum/boards")
}

/// The URL of one forum topic.
pub fn forum_topic_url(topic_id: u64, limit: Option<u8>) -> (r: String)
    ensures
        r@ == "https://api.myanimelist.net/v2/forum/topic/"@ + dec_digits(topic_id as int)
            + "?limit="@ + dec_digits(limit_or_100(limit)),
{
    let mut r = String::from_str("https://api.myanimelist.net/v2/forum/topic/");
    let ids = u64_to_string(topic_id);
    r.append(ids.as_str());
    r.append("?limit=");
    let l = limit_string(limit);
    r.append(l.as_str());
    r
}

/// One optional query parameter, `name=value` when the value is set.
pub open spec fn opt_query(name: Seq<char>, v: Option<Seq<char>>) -> Seq<Seq<char>> {
    match v {
        Some(s) => seq![name + s],
        None => Seq::empty(),
    }
}

/// The parameter list of a forum topic search, in its fixed order,
/// ending with the limit.
pub open spec fn forum_topics_params(
    board_id: Option<u64>,
    subboard_id: Option<u64>,
    query: Option<Seq<char>>,
    topic_user_name: Option<Seq<char>>,
    user_name: Option<Seq<char>>,
    limit: Option<u64>,
) -> Seq<Seq<char>> {
    opt_query(
        "board_id="@,
        match board_id {
            Some(x) => Some(dec_digits(x as int)),
            None => None,
        },
    ) + opt_query(
        "subboard_id="@,
        match subboard_id {
            Some(x) => Some(dec_digits(x as int)),
            None => None,
        },
    ) + opt_query("q="@, query) + opt_query("topic_user_name="@, topic_user_name) + opt_query(
        "user_name="@,
        user_name,
    ) + seq![
        "limit="@ + dec_digits(
            match limit {
                Some(x) => x as int,
                None => 100,
            },
        ),
    ]
}

/// Appends one `name=value` parameter when the value is set.
fn push_opt_query(params: &mut Vec<String>, name: &str, v: Option<String>)
    ensures
        crate::chartext::strings_view(final(params)@) == crate::chartext::strings_view(
            old(params)@,
        ) + opt_query(
            name@,
            match v {
                Some(s) => Some(s@),
                None => None,
            },
        ),
{
    match v {
        Some(s) => {
            let mut p = name.to_owned();
            p.append(s.as_str());
            let ghost pv = p@;
            params.push(p);
            assert(crate::chartext::strings_view(params@) =~= crate::chartext::strings_view(
                old(params)@,
            ) + seq![pv]);
        },
        None => {
            assert(crate::chartext::strings_view(params@) =~= crate::chartext::strings_view(
                params@,
            ) + opt_query(name@, None));
        },
    }
}

/// The URL of a forum topic search: the set parameters joined onto the
/// topics endpoint.
pub fn forum_topics_url(
    board_id: Option<u64>,
    subboard_id: Option<u64>,
    query: Option<String>,
    topic_user_name: Option<String>,
    user_name: Option<String>,
    limit: Option<u64>,
) -> (r: String)
    ensures
        r@ == "https://api.myanimelist.net/v2/forum/topics?"@ + join_comma(
            forum_topics_params(
                board_id,
                subboard_id,
                match query {
                    Some(s) => Some(s@),
                    None => None,
                },
                match topic_user_name {
                    Some(s) => Some(s@),
                    None => None,
                },
                match user_name {
                    Some(s) => Some(s@),
                    None => None,
                },
                limit,
            ),
        ),
{
    let ghost gq = match query {
        Some(ref s) => Some(s@),
        None => None,
    };
    let ghost gt = match topic_user_name {
        Some(ref s) => Some(s@),
        None => None,
    };
    let ghost gu = match user_name {
        Some(ref s) => Some(s@),
        None => None,
    };
    let mut params: Vec<String> = Vec::new();
    assert(crate::chartext::strings_view(params@) =~= Seq::<Seq<char>>::empty());
    let v_board = match board_id {
        Some(x) => Some(u64_to_string(x)),
        None => None,
    };
    push_opt_query(&mut params, "board_id=", v_board);
    let v_sub = match subboard_id {
        Some(x) => Some(u64_to_string(x)),
        None => None,
    };
    push_opt_query(&mut params, "subboard_id=", v_sub);
    push_opt_query(&mut params, "q=", query);
    push_opt_query(&mut params, "topic_user_name=", topic_user_name);
    push_opt_query(&mut params, "user_name=", user_name);
    let lim = match limit {
        Some(x) => u64_to_string(x),
        None => u64_to_string(100),
    };
    push_opt_query(&mut params, "limit=", Some(lim));
    proof {
        assert(opt_query("limit="@, Some(dec_digits(match limit {
            Some(x) => x as int,
            None => 100,
        }))) =~= seq!["limit="@ + dec_digits(match limit {
            Some(x) => x as int,
            None => 100,
        })]);
        assert(crate::chartext::strings_view(params@) =~= forum_topics_params(
            board_id,
            subboard_id,
            gq,
            gt,
            gu,
            limit,
        ));
    }
    let joined = crate::chartext::join_comma_exec(&params);
    let mut r = String::from_str("https://api.myanimelist.net/v2/forum/topics?");
    r.append(joined.as_str());
    r
}

/// The URL of the caller's own user record.
pub fn my_user_info_url() -> (r: String)
    ensures
        r@ == "https://api.myanimelist.net/v2/users/@me?fields=anime_statistics"@,
{
    String::from_str("https://api.myanimelist.net/v2/users/@me?fields=anime_statistics")
}

/// The URL of one page of an episode listing.
pub fn anime_episodes_url(id: u64, page: u64) -> (r: String)
    ensures
        r@ == "https://api.jikan.moe/v4/anime/"@ + dec_digits(id as int) + "/episodes?page="@
            + dec_digits(page as int),
{
    let mut r = String::from_str("https://api.jikan.moe/v4/anime/");
    let ids = u64_to_string(id);
    r.append(ids.as_str());
    r.append("/episodes?page=");
    let p = u64_to_string(page);
    r.append(p.as_str());
    r
}

/// The URL of the episode page that carries raw scores.
pub fn raw_episodes_url(id: u64, offset: u64) -> (r: String)
    ensures
        r@ == "https://myanimelist.net/anime/"@ + dec_digits(id as int) + "/1/episode?offset="@
            + dec_digits(offset as int),
{
    let mut r = String::from_str("https://myanimelist.net/anime/");
    let ids = u64_to_string(id);
    r.append(ids.as_str());
    r.append("/1/episode?offset=");
    let o = u64_to_string(offset);
    r.append(o.as_str());
    r
}

/// What a delete request's status code means: not-found is the one
/// reported failure, anything else counts as deleted.
pub fn delete_outcome(id: u64, status: u16) -> (r: Result<(), MALError>)
    ensures
        status == 404 ==> (r matches Err(e) && e@ == (MALErrorV {
            error: "404"@,
            message: Some("Anime "@ + dec_digits(id as int) + " not found"@),
            info: None,
        })),
        status != 404 ==> r is Ok,
{
    if status == 404 {
        let mut msg = String::from_str("Anime ");
        let ids = u64_to_string(id);
        msg.append(ids.as_str());
        msg.append(" not found");
        Err(MALError::new(msg.as_str(), "404", None))
    } else {
        Ok(())
    }
}

// --- reading counts off an episode page ---

/// The characters of `s` with every comma removed.
pub open spec fn drop_commas(s: Seq<char>) -> Seq<char>
    decreases s.len(),
{
    if s.len() == 0 {
        Seq::empty()
    } else if s[0] == ',' {
        drop_commas(s.drop_first())
    } else {
        seq![s[0]] + drop_commas(s.drop_first())
    }
}

/// The number a loosely written count denotes: commas are dropped, and
/// anything that is not then a plain decimal `u64` counts as zero.
pub open spec fn loose_count(s: Seq<char>) -> u64 {
    let t = drop_commas(s);
    if t.len() > 0 && all_digit_chars(t) && digits_val(t) <= u64::MAX {
        digits_val(t) as u64
    } else {
        0
    }
}

/// Reads a loosely written count.
pub fn parse_loose_u64(s: &str) -> (r: u64)
    ensures
        r == loose_count(s@),
{
    let v = str_chars(s);
    let n = v.len();
    let mut t: Vec<char> = Vec::new();
    let mut i: usize = 0;
    proof {
        assert(v@.skip(0) =~= v@);
        assert(t@ + drop_commas(v@) =~= drop_commas(v@));
    }
    while i < n
        invariant
            i <= n,
            n == v@.len(),
            v@ == s@,
            drop_commas(v@) == t@ + drop_commas(v@.skip(i as int)),
        decreases n - i,
    {
        let c = v[i];
        assert(v@.skip(i as int)[0] == c);
        assert(v@.skip(i as int).drop_first() =~= v@.skip(i + 1));
        if c != ',' {
            t.push(c);
            proof {
                let q = drop_commas(v@.skip(i + 1));
                assert(t@ + q =~= t@.drop_last() + (seq![c] + q));
            }
        }
        i += 1;
    }
    proof {
        assert(v@.skip(n as int) =~= Seq::<char>::empty());
        assert(t@ + Seq::<char>::empty() =~= t@);
    }
    let m = t.len();
    if m == 0 {
        return 0;
    }
    let mut k: usize = 0;
    while k < m
        invariant
            k <= m,
            1 <= m == t@.len(),
            t@ == drop_commas(s@),
            forall|j: int| 0 <= j < k ==> is_digit_char(t@[j]),
        decreases m - k,
    {
        if !('0' <= t[k] && t[k] <= '9') {
            assert(!is_digit_char(t@[k as int]));
            return 0;
        }
        k += 1;
    }
    let mut acc: u64 = 0;
    let mut p: usize = 0;
    proof {
        assert(t@.subrange(0, 0) =~= Seq::<char>::empty());
    }
    while p < m
        invariant
            p <= m,
            1 <= m == t@.len(),
            t@ == drop_commas(s@),
            all_digit_chars(t@),
            acc == digits_val(t@.subrange(0, p as int)),
        decreases m - p,
    {
        let c = t[p];
        let d: u64 = ((c as u32) - 48) as u64;
        proof {
            let pre = t@.subrange(0, p + 1);
            assert(pre.drop_last() =~= t@.subrange(0, p as int));
            assert(pre.last() == t@[p as int]);
        }
        if acc > (u64::MAX - d) / 10 {
            proof {
                assert(acc * 10 + d > u64::MAX) by {
                    assert(acc >= (u64::MAX - d) / 10 + 1);
                    assert(acc * 10 >= ((u64::MAX - d) / 10 + 1) * 10) by (nonlinear_arith)
                        requires
                            acc >= (u64::MAX - d) / 10 + 1,
                    ;
                    assert(((u64::MAX - d) / 10 + 1) * 10 == ((u64::MAX - d) / 10) * 10 + 10);
                    assert(((u64::MAX - d) / 10) * 10 + (u64::MAX - d) % 10 == u64::MAX - d);
                }
                assert(digits_val(t@.subrange(0, p + 1)) > u64::MAX);
                assert(t@.subrange(0, p + 1) =~= t@.subrange(0, m as int).subrange(0, p + 1));
                assert(t@.subrange(0, m as int) =~= t@);
                crate::chartext::lemma_digits_val_grows(t@, p + 1);
            }
            return 0;
        }
        proof {
            assert(acc * 10 + d <= u64::MAX) by {
                assert(acc <= (u64::MAX - d) / 10);
                assert(acc * 10 <= ((u64::MAX - d) / 10) * 10) by (nonlinear_arith)
                    requires
                        acc <= (u64::MAX - d) / 10,
                ;
                assert(((u64::MAX - d) / 10) * 10 + (u64::MAX - d) % 10 == u64::MAX - d);
            }
        }
        acc = acc * 10 + d;
        p += 1;
    }
    proof {
        assert(t@.subrange(0, m as int) =~= t@);
        lemma_digits_val_nonneg(t@);
    }
    acc
}

/// Whether a line of the episode page is the heading that carries the
/// episode count.
pub fn line_has_count_markers(line: &str) -> (b: bool)
    ensures
        b == (crate::chartext::contains_seq(line@, "Episodes"@) && crate::chartext::contains_seq(
            line@,
            "h2_overwrite"@,
        )),
{
    let v = str_chars(line);
    let p1 = str_chars("Episodes");
    let p2 = str_chars("h2_overwrite");
    let a = crate::chartext::contains_chars(&v, &p1);
    let b = crate::chartext::contains_chars(&v, &p2);
    a && b
}

/// The episode count written on the heading line: the loosely written
/// number between the first `>(` and the following `)<`, up to a slash.
pub open spec fn episodes_count_chars(line: Seq<char>) -> u64 {
    match crate::chartext::find_seq_from(line, ">("@) {
        Some(i) => {
            let after = line.skip(i + 2);
            let before = match crate::chartext::find_seq_from(after, ")<"@) {
                Some(j) => after.subrange(0, j),
                None => after,
            };
            let first = match crate::chartext::find_from(before, '/') {
                Some(k) => before.subrange(0, k),
                None => before,
            };
            loose_count(first)
        },
        None => 0,
    }
}

/// Reads the episode count off the heading line.
pub fn present_episodes_count(line: &str) -> (r: u64)
    ensures
        r == episodes_count_chars(line@),
{
    let v = str_chars(line);
    let n = v.len();
    let open_pat = str_chars(">(");
    let close_pat = str_chars(")<");
    proof {
        reveal_strlit(">(");
        reveal_strlit(")<");
    }
    let i = match crate::chartext::find_seq(&v, &open_pat) {
        Some(i) => i,
        None => {
            return 0;
        },
    };
    let after = crate::chartext::subvec(&v, i + 2, n);
    assert(after@ =~= v@.skip(i + 2));
    let before_end = match crate::chartext::find_seq(&after, &close_pat) {
        Some(j) => j,
        None => after.len(),
    };
    let before = crate::chartext::subvec(&after, 0, before_end);
    proof {
        if before_end == after@.len() {
            assert(before@ =~= after@);
        }
        assert(before@.skip(0) =~= before@);
    }
    let first_end = match crate::chartext::find_char(&before, 0, '/') {
        Some(k) => k,
        None => before.len(),
    };
    let first = chars_to_string(&before, 0, first_end);
    proof {
        if first_end == before@.len() {
            assert(first@ =~= before@);
        }
    }
    parse_loose_u64(first.as_str())
}

// --- the shared response-error fallback ---

/// The error envelope held in a member list: the reported category, and
/// whatever message and info came with it.
pub open spec fn error_envelope_of_pairs(ps: Seq<(Seq<char>, crate::json::FieldValV)>) -> Option<
    MALErrorV,
> {
    match lookup_str(ps, "error"@) {
        Some(e) => Some(
            MALErrorV {
                error: e,
                message: lookup_str(ps, "message"@),
                info: lookup_str(ps, "info"@),
            },
        ),
        None => None,
    }
}

/// The error envelope denoted by a response body, if any.
pub open spec fn parse_error_envelope(s: Seq<char>) -> Option<MALErrorV> {
    match parse_object(s) {
        Some(ps) => error_envelope_of_pairs(ps),
        None => None,
    }
}

/// The error reported for a response that did not parse as its expected
/// type: the API's own error envelope when the body is one, otherwise a
/// generic parse failure carrying the raw body.
pub fn parse_error_fallback(res: &str) -> (r: MALError)
    ensures
        match parse_error_envelope(res@) {
            Some(ev) => r@ == ev,
            None => r@ == (MALErrorV {
                error: "BadResponseError"@,
                message: Some("unable to parse response"@),
                info: Some(res@),
            }),
        },
{
    let v = str_chars(res);
    match read_object(&v) {
        Some(ps) => {
            match find_str(&ps, "error") {
                Some(e) => {
                    let message = find_str(&ps, "message");
                    let info = find_str(&ps, "info");
                    return MALError { error: e, message, info };
                },
                None => {},
            }
        },
        None => {},
    }
    MALError::new("unable to parse response", "BadResponseError", Some(res.to_owned()))
}

} // verus!
