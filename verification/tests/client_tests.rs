use lib_mal::MALError;
use lib_mal::builder::ClientBuilder;
use lib_mal::client::MALClient;
use lib_mal::client::anime_details_url;
use lib_mal::client::anime_episodes_url;
use lib_mal::client::anime_list_url;
use lib_mal::client::anime_ranking_url;
use lib_mal::client::delete_outcome;
use lib_mal::client::forum_boards_url;
use lib_mal::client::forum_topic_url;
use lib_mal::client::forum_topics_url;
use lib_mal::client::line_has_count_markers;
use lib_mal::client::my_list_status_url;
use lib_mal::client::my_user_info_url;
use lib_mal::client::parse_error_fallback;
use lib_mal::client::parse_loose_u64;
use lib_mal::client::present_episodes_count;
use lib_mal::client::raw_episodes_url;
use lib_mal::client::seasonal_anime_url;
use lib_mal::client::suggested_anime_url;
use lib_mal::client::user_anime_list_url;
use lib_mal::fields::AnimeFields;
use lib_mal::fields::FIELD_MEAN;
use lib_mal::fields::FIELD_RANK;
use lib_mal::fields::FIELD_STUDIOS;
use lib_mal::options::RankingType;
use lib_mal::options::Season;

#[test]
fn search_url_takes_query_and_limit() {
    assert_eq!(
        anime_list_url("Mobile Suit Gundam", Some(4)),
        "https://api.myanimelist.net/v2/anime?q=Mobile Suit Gundam&limit=4"
    );
    assert_eq!(
        anime_list_url("one", None),
        "https://api.myanimelist.net/v2/anime?q=one&limit=100"
    );
}

#[test]
fn details_url_names_the_selected_fields() {
    let f = AnimeFields::from_bits(FIELD_RANK | FIELD_MEAN | FIELD_STUDIOS);
    assert_eq!(
        anime_details_url(80, Some(f)),
        "https://api.myanimelist.net/v2/anime/80?fields=mean,rank,studios"
    );
}

#[test]
fn details_url_defaults_to_every_field() {
    let url = anime_details_url(30230, None);
    assert_eq!(
        url,
        "https://api.myanimelist.net/v2/anime/30230?fields=id,title,main_picture,alternative_titles,start_date,end_date,synopsis,mean,rank,popularity,num_list_users,num_scoring_users,nsfw,created_at,updated_at,media_type,status,genres,my_list_status,num_episodes,start_season,broadcast,source,average_episode_duration,rating,pictures,background,related_anime,related_manga,recommendations,studios,statistics"
    );
}

#[test]
fn ranking_and_seasonal_and_suggestion_urls() {
    assert_eq!(
        anime_ranking_url(&RankingType::ByPopularity, Some(5)),
        "https://api.myanimelist.net/v2/anime/ranking?ranking_type=bypopularity&limit=5"
    );
    assert_eq!(
        seasonal_anime_url(&Season::Summer, 2017, Some(4)),
        "https://api.myanimelist.net/v2/anime/season/2017/summer?limit=4"
    );
    assert_eq!(
        suggested_anime_url(Some(10)),
        "https://api.myanimelist.net/v2/anime/suggestions?limit=10"
    );
}

#[test]
fn list_and_forum_and_user_urls() {
    assert_eq!(
        my_list_status_url(32981),
        "https://api.myanimelist.net/v2/anime/32981/my_list_status"
    );
    assert_eq!(
        user_anime_list_url(),
        "https://api.myanimelist.net/v2/users/@me/animelist?fields=list_status&limit=4"
    );
    assert_eq!(forum_boards_url(), "https://api.myanimelist.net/v2/forum/boards");
    assert_eq!(
        forum_topic_url(481, None),
        "https://api.myanimelist.net/v2/forum/topic/481?limit=100"
    );
    assert_eq!(
        my_user_info_url(),
        "https://api.myanimelist.net/v2/users/@me?fields=anime_statistics"
    );
}

#[test]
fn forum_topics_url_joins_the_set_parameters() {
    assert_eq!(
        forum_topics_url(Some(5), None, Some(String::from("gundam")), None, None, None),
        "https://api.myanimelist.net/v2/forum/topics?board_id=5,q=gundam,limit=100"
    );
    assert_eq!(
        forum_topics_url(None, None, None, None, None, Some(7)),
        "https://api.myanimelist.net/v2/forum/topics?limit=7"
    );
}

#[test]
fn episode_listing_urls() {
    assert_eq!(
        anime_episodes_url(21, 1),
        "https://api.jikan.moe/v4/anime/21/episodes?page=1"
    );
    assert_eq!(
        raw_episodes_url(21, 100),
        "https://myanimelist.net/anime/21/1/episode?offset=100"
    );
}

#[test]
fn delete_reports_only_not_found() {
    assert!(delete_outcome(80, 200).is_ok());
    assert!(delete_outcome(80, 500).is_ok());
    let err = delete_outcome(80, 404).unwrap_err();
    assert_eq!(err.error, "404");
    assert_eq!(err.message, Some(String::from("Anime 80 not found")));
    assert_eq!(err.info, None);
}

#[test]
fn error_fallback_reads_the_api_envelope() {
    let e = parse_error_fallback("{\"error\":\"not_found\",\"message\":\"no such show\"}");
    assert_eq!(e.error, "not_found");
    assert_eq!(e.message, Some(String::from("no such show")));
    assert_eq!(e.info, None);
}

#[test]
fn error_fallback_keeps_the_raw_body_otherwise() {
    let e = parse_error_fallback("<html>oops</html>");
    assert_eq!(e.error, "BadResponseError");
    assert_eq!(e.message, Some(String::from("unable to parse response")));
    assert_eq!(e.info, Some(String::from("<html>oops</html>")));
    let e = parse_error_fallback("{\"message\":\"no error key\"}");
    assert_eq!(e.error, "BadResponseError");
}

#[test]
fn loose_counts_drop_commas_and_default_to_zero() {
    assert_eq!(parse_loose_u64("1,234"), 1234);
    assert_eq!(parse_loose_u64("56"), 56);
    assert_eq!(parse_loose_u64(""), 0);
    assert_eq!(parse_loose_u64("12x"), 0);
    assert_eq!(parse_loose_u64("99999999999999999999999"), 0);
}

#[test]
fn episode_count_is_read_off_the_heading_line() {
    let line = "<h2 class=\"h2_overwrite\">Episodes</h2><span>(1,234/5,678)</span>";
    assert!(line_has_count_markers(line));
    assert_eq!(present_episodes_count(line), 1234);
    assert!(!line_has_count_markers("<h2>Episodes</h2>"));
    assert_eq!(present_episodes_count("no markers here"), 0);
}

#[test]
fn client_state_accessors() {
    let mut c = MALClient::with_access_token("TOK");
    assert_eq!(c.get_access_token(), "TOK");
    assert!(!c.need_auth());
    assert!(!c.caching);
    c.set_caching(true);
    assert!(c.caching);
    c.set_cache_dir(Some(String::from("/tmp/cache")));
    assert_eq!(c.dirs, Some(String::from("/tmp/cache")));
    assert_eq!(c.get_access_token(), "TOK");
}

#[test]
fn auth_parts_embed_the_client_id() {
    let c = MALClient::new(String::from("SECRET"), None, String::new(), false, true);
    let (url, challenge, state) = c.get_auth_parts();
    let expect_prefix = format!(
        "https://myanimelist.net/v1/oauth2/authorize?response_type=code&client_id=SECRET&code_challenge={}&state={}",
        challenge, state
    );
    assert_eq!(url, expect_prefix);
    assert_eq!(challenge.len(), 43);
    assert_eq!(state.len(), 43);
}

#[test]
fn builder_collects_configuration() {
    let c = ClientBuilder::new()
        .secret(Some(String::from("ID")))
        .cache_dir(Some(String::from("/var/cache")))
        .access_token(Some(String::from("AT")))
        .caching(true)
        .build_no_refresh();
    assert_eq!(c.client_secret, "ID");
    assert_eq!(c.dirs, Some(String::from("/var/cache")));
    assert_eq!(c.access_token, "AT");
    assert!(c.caching);
    assert!(!c.need_auth);
}

#[test]
fn builder_defaults_are_empty() {
    let c = ClientBuilder::new().build_no_refresh();
    assert_eq!(c.client_secret, "");
    assert_eq!(c.dirs, None);
    assert_eq!(c.access_token, "");
    assert!(!c.caching);
}

#[test]
fn error_description_names_the_category() {
    let e = MALError::new("boom", "Network", None);
    assert_eq!(e.describe(), "lib_mal encountered an error: Network");
}
