use vstd::prelude::*;

use std::collections::HashMap;

verus! {

// The typed response records whose fields are plain values.  The richer
// records of the catalog endpoints carry free-form JSON and floating
// point scores and live with the transport code, outside this crate's
// contracts.

/// One entry of a user's list, as the list endpoints report it.
#[derive(Debug, Clone)]
pub struct ListStatus {
    pub status: Option<String>,
    pub num_episodes_watched: Option<u32>,
    pub score: Option<u8>,
    pub updated_at: Option<String>,
    pub is_rewatching: Option<bool>,
    pub priority: Option<u32>,
    pub rewatch_value: Option<u32>,
    pub tags: Option<Vec<String>>,
    pub comments: Option<String>,
    pub start_date: Option<String>,
    pub finish_date: Option<String>,
}

/// How many users hold a show in each status.
#[derive(Debug)]
pub struct Stats {
    pub status: HashMap<String, String>,
    pub num_list_users: u32,
}

/// A show's titles besides its main one.
#[derive(Debug)]
pub struct AlternativeTitles {
    pub synonyms: Vec<String>,
    pub languages: HashMap<String, String>,
}

/// One episode of a show's episode listing.
#[derive(Debug, Clone)]
pub struct EpisodeNode {
    pub mal_id: Option<u32>,
    pub url: Option<String>,
    pub title: Option<String>,
    pub title_japanese: Option<String>,
    pub title_romanji: Option<String>,
    pub duration: Option<u32>,
    pub aired: Option<String>,
    pub filler: Option<bool>,
    pub recap: Option<bool>,
    pub forum_url: Option<String>,
}

} // verus!
