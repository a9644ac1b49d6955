use vstd::prelude::*;

use crate::chartext::dec_digits;
use crate::chartext::join_comma;
use crate::chartext::join_comma_exec;
use crate::chartext::strings_view;
use crate::chartext::u64_to_string;

verus! {

// Request options for the data endpoints: the rankings, seasons and
// watching statuses the catalog understands, and the form fields of a
// list-status update.

/// The rankings a ranking request can ask for.
#[derive(Debug, Clone, Copy)]
pub enum RankingType {
    All,
    Airing,
    Upcoming,
    TV,
    OVA,
    Movie,
    Special,
    ByPopularity,
    Favorite,
}

impl RankingType {
    /// The name of this ranking in a query string.
    pub open spec fn query_name(self) -> Seq<char> {
        match self {
            RankingType::All => "all"@,
            RankingType::Airing => "airing"@,
            RankingType::Upcoming => "upcoming"@,
            RankingType::TV => "tv"@,
            RankingType::OVA => "ova"@,
            RankingType::Movie => "movie"@,
            RankingType::Special => "special"@,
            RankingType::ByPopularity => "bypopularity"@,
            RankingType::Favorite => "favorite"@,
        }
    }

    pub fn as_query(&self) -> (r: String)
        ensures
            r@ == self.query_name(),
    {
        match self {
            RankingType::All => String::from_str("all"),
            RankingType::Airing => String::from_str("airing"),
            RankingType::Upcoming => String::from_str("upcoming"),
            RankingType::TV => String::from_str("tv"),
            RankingType::OVA => String::from_str("ova"),
            RankingType::Movie => String::from_str("movie"),
            RankingType::Special => String::from_str("special"),
            RankingType::ByPopularity => String::from_str("bypopularity"),
            RankingType::Favorite => String::from_str("favorite"),
        }
    }
}

/// The four seasons a seasonal request can name.
#[derive(Debug, Clone, Copy)]
pub enum Season {
    Winter,
    Spring,
    Summer,
    Fall,
}

impl Season {
    /// The name of this season in a query string.
    pub open spec fn query_name(self) -> Seq<char> {
        match self {
            Season::Winter => "winter"@,
            Season::Spring => "spring"@,
            Season::Summer => "summer"@,
            Season::Fall => "fall"@,
        }
    }

    pub fn as_query(&self) -> (r: String)
        ensures
            r@ == self.query_name(),
    {
        match self {
            Season::Winter => String::from_str("winter"),
            Season::Spring => String::from_str("spring"),
            Season::Summer => String::from_str("summer"),
            Season::Fall => String::from_str("fall"),
        }
    }
}

/// The watching statuses an entry of a user's list can carry.
#[derive(Debug, Clone, Copy)]
pub enum Status {
    Watching,
    Completed,
    OnHold,
    Dropped,
    PlanToWatch,
}

impl Status {
    /// The name of this status in a form field.
    pub open spec fn query_name(self) -> Seq<char> {
        match self {
            Status::Watching => "watching"@,
            Status::Completed => "completed"@,
            Status::OnHold => "on_hold"@,
            Status::Dropped => "dropped"@,
            Status::PlanToWatch => "plan_to_watch"@,
        }
    }

    pub fn as_query(&self) -> (r: String)
        ensures
            r@ == self.query_name(),
    {
        match self {
            Status::Watching => String::from_str("watching"),
            Status::Completed => String::from_str("completed"),
            Status::OnHold => String::from_str("on_hold"),
            Status::Dropped => String::from_str("dropped"),
            Status::PlanToWatch => String::from_str("plan_to_watch"),
        }
    }
}

/// Anything that can stand in a form-encoded request body.
pub trait Params {
    fn get_params(self) -> Vec<(String, String)>;
}

/// A partial update of one list entry: only the set fields are sent.
#[derive(Debug)]
pub struct StatusUpdate {
    pub status: Option<Status>,
    pub is_rewatching: Option<bool>,
    pub score: Option<u8>,
    pub num_watched_episodes: Option<u32>,
    pub priority: Option<u8>,
    pub num_times_rewatched: Option<u32>,
    pub rewatch_value: Option<u8>,
    pub tags: Option<Vec<String>>,
    pub comments: Option<String>,
    pub start_date: Option<String>,
    pub finish_date: Option<String>,
}

/// One form field, present when the option is set.
pub open spec fn opt_param(k: Seq<char>, v: Option<Seq<char>>) -> Seq<(Seq<char>, Seq<char>)> {
    match v {
        Some(s) => seq![(k, s)],
        None => Seq::empty(),
    }
}

pub open spec fn bool_chars(b: bool) -> Seq<char> {
    if b {
        "true"@
    } else {
        "false"@
    }
}

/// The form fields of an update, in their fixed order.
pub open spec fn spec_params(u: StatusUpdate) -> Seq<(Seq<char>, Seq<char>)> {
    opt_param(
        "status"@,
        match u.status {
            Some(s) => Some(s.query_name()),
            None => None,
        },
    ) + opt_param(
        "is_rewatching"@,
        match u.is_rewatching {
            Some(b) => Some(bool_chars(b)),
            None => None,
        },
    ) + opt_param(
        "score"@,
        match u.score {
            Some(x) => Some(dec_digits(x as int)),
            None => None,
        },
    ) + opt_param(
        "num_watched_episodes"@,
        match u.num_watched_episodes {
            Some(x) => Some(dec_digits(x as int)),
            None => None,
        },
    ) + opt_param(
        "priority"@,
        match u.priority {
            Some(x) => Some(dec_digits(x as int)),
            None => None,
        },
    ) + opt_param(
        "num_times_rewatched"@,
        match u.num_times_rewatched {
            Some(x) => Some(dec_digits(x as int)),
            None => None,
        },
    ) + opt_param(
        "rewatch_value"@,
        match u.rewatch_value {
            Some(x) => Some(dec_digits(x as int)),
            None => None,
        },
    ) + opt_param(
        "tags"@,
        match u.tags {
            Some(ts) => Some(join_comma(strings_view(ts@))),
            None => None,
        },
    ) + opt_param(
        "comments"@,
        match u.comments {
            Some(s) => Some(s@),
            None => None,
        },
    ) + opt_param(
        "start_date"@,
        match u.start_date {
            Some(s) => Some(s@),
            None => None,
        },
    ) + opt_param(
        "finish_date"@,
        match u.finish_date {
            Some(s) => Some(s@),
            None => None,
        },
    )
}

/// The views of a sequence of form fields.
pub open spec fn form_view(ps: Seq<(String, String)>) -> Seq<(Seq<char>, Seq<char>)> {
    Seq::new(ps.len(), |i: int| (ps[i].0@, ps[i].1@))
}

pub open spec fn opt_str_view(v: Option<String>) -> Option<Seq<char>> {
    match v {
        Some(s) => Some(s@),
        None => None,
    }
}

/// Appends one form field when its value is set.
fn push_opt(params: &mut Vec<(String, String)>, key: &str, v: Option<String>)
    ensures
        form_view(final(params)@) == form_view(old(params)@) + opt_param(key@, opt_str_view(v)),
{
    match v {
        Some(s) => {
            let ghost sv = s@;
            params.push((key.to_owned(), s));
            assert(form_view(params@) =~= form_view(old(params)@) + seq![(key@, sv)]);
        },
        None => {
            assert(form_view(params@) =~= form_view(params@) + opt_param(key@, None));
        },
    }
}

impl StatusUpdate {
    /// A fresh update with no field set.
    pub fn new() -> (r: StatusUpdate)
        ensures
            r.status is None,
            r.is_rewatching is None,
            r.score is None,
            r.num_watched_episodes is None,
            r.priority is None,
            r.num_times_rewatched is None,
            r.rewatch_value is None,
            r.tags is None,
            r.comments is None,
            r.start_date is None,
            r.finish_date is None,
    {
        StatusUpdate {
            status: None,
            is_rewatching: None,
            score: None,
            num_watched_episodes: None,
            priority: None,
            num_times_rewatched: None,
            rewatch_value: None,
            tags: None,
            comments: None,
            start_date: None,
            finish_date: None,
        }
    }

    pub fn status(&mut self, status: Status)
        ensures
            *final(self) == (StatusUpdate { status: Some(status), ..*old(self) }),
    {
        self.status = Some(status);
    }

    pub fn is_rewatching(&mut self, is_rewatching: bool)
        ensures
            *final(self) == (StatusUpdate { is_rewatching: Some(is_rewatching), ..*old(self) }),
    {
        self.is_rewatching = Some(is_rewatching);
    }

    pub fn score(&mut self, score: u8)
        ensures
            *final(self) == (StatusUpdate { score: Some(score), ..*old(self) }),
    {
        self.score = Some(score);
    }

    pub fn num_watched_episodes(&mut self, num_watched_episodes: u32)
        ensures
            *final(self) == (StatusUpdate {
                num_watched_episodes: Some(num_watched_episodes),
                ..*old(self)
            }),
    {
        self.num_watched_episodes = Some(num_watched_episodes);
    }

    pub fn priority(&mut self, priority: u8)
        ensures
            *final(self) == (StatusUpdate { priority: Some(priority), ..*old(self) }),
    {
        self.priority = Some(priority);
    }

    pub fn num_times_rewatched(&mut self, num_times_rewatched: u32)
        ensures
            *final(self) == (StatusUpdate {
                num_times_rewatched: Some(num_times_rewatched),
                ..*old(self)
            }),
    {
        self.num_times_rewatched = Some(num_times_rewatched);
    }

    pub fn rewatch_value(&mut self, rewatch_value: u8)
        ensures
            *final(self) == (StatusUpdate { rewatch_value: Some(rewatch_value), ..*old(self) }),
    {
        self.rewatch_value = Some(rewatch_value);
    }

    pub fn tags(&mut self, tags: Vec<String>)
        ensures
            *final(self) == (StatusUpdate { tags: Some(tags), ..*old(self) }),
    {
        self.tags = Some(tags);
    }

    pub fn comments(&mut self, comments: &str)
        ensures
            final(self).comments matches Some(c) && c@ == comments@,
            *final(self) == (StatusUpdate { comments: final(self).comments, ..*old(self) }),
    {
        self.comments = Some(comments.to_owned());
    }

    pub fn start_date(&mut self, start_date: &str)
        ensures
            final(self).start_date matches Some(c) && c@ == start_date@,
            *final(self) == (StatusUpdate { start_date: final(self).start_date, ..*old(self) }),
    {
        self.start_date = Some(start_date.to_owned());
    }

    pub fn finish_date(&mut self, finish_date: &str)
        ensures
            final(self).finish_date matches Some(c) && c@ == finish_date@,
            *final(self) == (StatusUpdate { finish_date: final(self).finish_date, ..*old(self) }),
    {
        self.finish_date = Some(finish_date.to_owned());
    }

    /// The form fields of this update, set fields only, in the fixed
    /// order that `spec_params` lays down.
    pub fn get_params(self) -> (r: Vec<(String, String)>)
        ensures
            form_view(r@) == spec_params(self),
    {
        let ghost u = self;
        let mut params: Vec<(String, String)> = Vec::new();
        assert(form_view(params@) =~= Seq::<(Seq<char>, Seq<char>)>::empty());
        let v_status = match &self.status {
            Some(s) => Some(s.as_query()),
            None => None,
        };
        push_opt(&mut params, "status", v_status);
        let v_rw = match &self.is_rewatching {
            Some(b) => Some(
                if *b {
                    String::from_str("true")
                } else {
                    String::from_str("false")
                },
            ),
            None => None,
        };
        push_opt(&mut params, "is_rewatching", v_rw);
        let v_score = match &self.score {
            Some(x) => Some(u64_to_string(*x as u64)),
            None => None,
        };
        push_opt(&mut params, "score", v_score);
        let v_nwe = match &self.num_watched_episodes {
            Some(x) => Some(u64_to_string(*x as u64)),
            None => None,
        };
        push_opt(&mut params, "num_watched_episodes", v_nwe);
        let v_prio = match &self.priority {
            Some(x) => Some(u64_to_string(*x as u64)),
            None => None,
        };
        push_opt(&mut params, "priority", v_prio);
        let v_ntr = match &self.num_times_rewatched {
            Some(x) => Some(u64_to_string(*x as u64)),
            None => None,
        };
        push_opt(&mut params, "num_times_rewatched", v_ntr);
        let v_rwv = match &self.rewatch_value {
            Some(x) => Some(u64_to_string(*x as u64)),
            None => None,
        };
        push_opt(&mut params, "rewatch_value", v_rwv);
        let v_tags = match &self.tags {
            Some(ts) => Some(join_comma_exec(ts)),
            None => None,
        };
        push_opt(&mut params, "tags", v_tags);
        push_opt(&mut params, "comments", self.comments);
        push_opt(&mut params, "start_date", self.start_date);
        push_opt(&mut params, "finish_date", self.finish_date);
        assert(form_view(params@) =~= spec_params(u));
        params
    }
}

impl Params for StatusUpdate {
    fn get_params(self) -> Vec<(String, String)> {
        StatusUpdate::get_params(self)
    }
}

/// Builds a `StatusUpdate`-shaped value field by field, moving itself
/// through each step.
pub struct StatusBuilder {
    pub status: Option<Status>,
    pub is_rewatching: Option<bool>,
    pub score: Option<u8>,
    pub num_watched_episodes: Option<u32>,
    pub priority: Option<u8>,
    pub num_times_rewatched: Option<u32>,
    pub rewatch_value: Option<u8>,
    pub tags: Option<Vec<String>>,
    pub comments: Option<String>,
    pub start_date: Option<String>,
    pub finish_date: Option<String>,
}

impl StatusBuilder {
    /// A fresh builder with no field set.
    pub fn new() -> (r: StatusBuilder)
        ensures
            r.status is None,
            r.is_rewatching is None,
            r.score is None,
            r.num_watched_episodes is None,
            r.priority is None,
            r.num_times_rewatched is None,
            r.rewatch_value is None,
            r.tags is None,
            r.comments is None,
            r.start_date is None,
            r.finish_date is None,
    {
        StatusBuilder {
            status: None,
            is_rewatching: None,
            score: None,
            num_watched_episodes: None,
            priority: None,
            num_times_rewatched: None,
            rewatch_value: None,
            tags: None,
            comments: None,
            start_date: None,
            finish_date: None,
        }
    }

    pub fn status(self, status: Option<Status>) -> (r: StatusBuilder)
        ensures
            r == (StatusBuilder { status, ..self }),
    {
        StatusBuilder { status, ..self }
    }

    pub fn is_rewatching(self, is_rewatching: Option<bool>) -> (r: StatusBuilder)
        ensures
            r == (StatusBuilder { is_rewatching, ..self }),
    {
        StatusBuilder { is_rewatching, ..self }
    }

    pub fn score(self, score: Option<u8>) -> (r: StatusBuilder)
        ensures
            r == (StatusBuilder { score, ..self }),
    {
        StatusBuilder { score, ..self }
    }

    pub fn num_watched_episodes(self, num_watched_episodes: Option<u32>) -> (r: StatusBuilder)
        ensures
            r == (StatusBuilder { num_watched_episodes, ..self }),
    {
        StatusBuilder { num_watched_episodes, ..self }
    }

    pub fn priority(self, priority: Option<u8>) -> (r: StatusBuilder)
        ensures
            r == (StatusBuilder { priority, ..self }),
    {
        StatusBuilder { priority, ..self }
    }

    pub fn num_times_rewatched(self, num_times_rewatched: Option<u32>) -> (r: StatusBuilder)
        ensures
            r == (StatusBuilder { num_times_rewatched, ..self }),
    {
        StatusBuilder { num_times_rewatched, ..self }
    }

    pub fn rewatch_value(self, rewatch_value: Option<u8>) -> (r: StatusBuilder)
        ensures
            r == (StatusBuilder { rewatch_value, ..self }),
    {
        StatusBuilder { rewatch_value, ..self }
    }

    pub fn tags(self, tags: Option<Vec<String>>) -> (r: StatusBuilder)
        ensures
            r == (StatusBuilder { tags, ..self }),
    {
        StatusBuilder { tags, ..self }
    }

    pub fn comments(self, comments: Option<String>) -> (r: StatusBuilder)
        ensures
            r == (StatusBuilder { comments, ..self }),
    {
        StatusBuilder { comments, ..self }
    }

    pub fn start_date(self, start_date: Option<String>) -> (r: StatusBuilder)
        ensures
            r == (StatusBuilder { start_date, ..self }),
    {
        StatusBuilder { start_date, ..self }
    }

    pub fn finish_date(self, finish_date: Option<String>) -> (r: StatusBuilder)
        ensures
            r == (StatusBuilder { finish_date, ..self }),
    {
        StatusBuilder { finish_date, ..self }
    }

    /// Finishes the build; the value is what was accumulated.
    pub fn build(self) -> (r: StatusBuilder)
        ensures
            r == self,
    {
        self
    }
}

} // verus!
