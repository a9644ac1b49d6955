use lib_mal::fields::AnimeFields;
use lib_mal::fields::FIELD_ALL;
use lib_mal::fields::FIELD_MEAN;
use lib_mal::fields::FIELD_RANK;
use lib_mal::fields::FIELD_TITLE;
use lib_mal::options::RankingType;
use lib_mal::options::Season;
use lib_mal::options::Status;
use lib_mal::options::StatusBuilder;
use lib_mal::options::StatusUpdate;

#[test]
fn ranking_names() {
    assert_eq!(RankingType::All.as_query(), "all");
    assert_eq!(RankingType::Airing.as_query(), "airing");
    assert_eq!(RankingType::Upcoming.as_query(), "upcoming");
    assert_eq!(RankingType::TV.as_query(), "tv");
    assert_eq!(RankingType::OVA.as_query(), "ova");
    assert_eq!(RankingType::Movie.as_query(), "movie");
    assert_eq!(RankingType::Special.as_query(), "special");
    assert_eq!(RankingType::ByPopularity.as_query(), "bypopularity");
    assert_eq!(RankingType::Favorite.as_query(), "favorite");
}

#[test]
fn season_names() {
    assert_eq!(Season::Winter.as_query(), "winter");
    assert_eq!(Season::Spring.as_query(), "spring");
    assert_eq!(Season::Summer.as_query(), "summer");
    assert_eq!(Season::Fall.as_query(), "fall");
}

#[test]
fn status_names() {
    assert_eq!(Status::Watching.as_query(), "watching");
    assert_eq!(Status::Completed.as_query(), "completed");
    assert_eq!(Status::OnHold.as_query(), "on_hold");
    assert_eq!(Status::Dropped.as_query(), "dropped");
    assert_eq!(Status::PlanToWatch.as_query(), "plan_to_watch");
}

#[test]
fn empty_update_sends_nothing() {
    let u = StatusUpdate::new();
    assert_eq!(u.get_params(), Vec::<(String, String)>::new());
}

#[test]
fn full_update_sends_every_field_in_order() {
    let mut u = StatusUpdate::new();
    u.status(Status::Dropped);
    u.is_rewatching(true);
    u.score(8);
    u.num_watched_episodes(2);
    u.priority(1);
    u.num_times_rewatched(3);
    u.rewatch_value(4);
    u.tags(vec![String::from("mecha"), String::from("classic")]);
    u.comments("solid");
    u.start_date("2020-01-01");
    u.finish_date("2020-02-02");
    let expect = vec![
        (String::from("status"), String::from("dropped")),
        (String::from("is_rewatching"), String::from("true")),
        (String::from("score"), String::from("8")),
        (String::from("num_watched_episodes"), String::from("2")),
        (String::from("priority"), String::from("1")),
        (String::from("num_times_rewatched"), String::from("3")),
        (String::from("rewatch_value"), String::from("4")),
        (String::from("tags"), String::from("mecha,classic")),
        (String::from("comments"), String::from("solid")),
        (String::from("start_date"), String::from("2020-01-01")),
        (String::from("finish_date"), String::from("2020-02-02")),
    ];
    assert_eq!(u.get_params(), expect);
}

#[test]
fn partial_update_keeps_only_set_fields() {
    let mut u = StatusUpdate::new();
    u.num_watched_episodes(2);
    u.status(Status::Watching);
    let expect = vec![
        (String::from("status"), String::from("watching")),
        (String::from("num_watched_episodes"), String::from("2")),
    ];
    assert_eq!(u.get_params(), expect);
}

#[test]
fn status_builder_accumulates_fields() {
    let b = StatusBuilder::new()
        .status(Some(Status::Watching))
        .score(Some(9))
        .num_watched_episodes(Some(12))
        .build();
    assert!(matches!(b.status, Some(Status::Watching)));
    assert_eq!(b.score, Some(9));
    assert_eq!(b.num_watched_episodes, Some(12));
    assert_eq!(b.priority, None);
    assert_eq!(b.tags, None);
}

#[test]
fn field_selection_queries() {
    let f = AnimeFields::from_bits(FIELD_TITLE | FIELD_MEAN | FIELD_RANK);
    assert_eq!(f.to_query(), "title,mean,rank");
    assert_eq!(AnimeFields::none().to_query(), "");
    assert!(AnimeFields::all().contains(FIELD_RANK));
    assert!(!f.contains(FIELD_ALL));
    let g = f.with(FIELD_RANK);
    assert_eq!(g.bits, f.bits);
    let names = AnimeFields::all().get_fields_names();
    assert_eq!(names.len(), 32);
    assert_eq!(names[0], "id");
    assert_eq!(names[31], "statistics");
}
