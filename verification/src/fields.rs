use vstd::prelude::*;

use crate::chartext::join_comma;
use crate::chartext::join_comma_exec;
use crate::chartext::strings_view;

verus! {

// Field selection for detail requests: which of the show's attributes
// the caller wants returned.  A selection is a set of named fields with
// a stable order in the query string, given by one table.

pub const FIELD_ID: u32 = 0x1;

pub const FIELD_TITLE: u32 = 0x2;

pub const FIELD_MAIN_PICTURE: u32 = 0x4;

pub const FIELD_ALTERNATIVE_TITLES: u32 = 0x8;

pub const FIELD_START_DATE: u32 = 0x10;

pub const FIELD_END_DATE: u32 = 0x20;

pub const FIELD_SYNOPSIS: u32 = 0x40;

pub const FIELD_MEAN: u32 = 0x80;

pub const FIELD_RANK: u32 = 0x100;

pub const FIELD_POPULARITY: u32 = 0x200;

pub const FIELD_NUM_LIST_USERS: u32 = 0x400;

pub const FIELD_NUM_SCORING_USERS: u32 = 0x800;

pub const FIELD_NSFW: u32 = 0x1000;

pub const FIELD_CREATED_AT: u32 = 0x2000;

pub const FIELD_UPDATED_AT: u32 = 0x4000;

pub const FIELD_MEDIA_TYPE: u32 = 0x8000;

pub const FIELD_STATUS: u32 = 0x10000;

pub const FIELD_GENRES: u32 = 0x20000;

pub const FIELD_MY_LIST_STATUS: u32 = 0x40000;

pub const FIELD_NUM_EPISODES: u32 = 0x80000;

pub const FIELD_START_SEASON: u32 = 0x100000;

pub const FIELD_BROADCAST: u32 = 0x200000;

pub const FIELD_SOURCE: u32 = 0x400000;

pub const FIELD_AVERAGE_EPISODE_DURATION: u32 = 0x800000;

pub const FIELD_RATING: u32 = 0x1000000;

pub const FIELD_PICTURES: u32 = 0x2000000;

pub const FIELD_BACKGROUND: u32 = 0x4000000;

pub const FIELD_RELATED_ANIME: u32 = 0x8000000;

pub const FIELD_RELATED_MANGA: u32 = 0x10000000;

pub const FIELD_RECOMMENDATIONS: u32 = 0x20000000;

pub const FIELD_STUDIOS: u32 = 0x40000000;

pub const FIELD_STATISTICS: u32 = 0x80000000;

pub const FIELD_ALL: u32 = 0xFFFFFFFF;

/// A set of requested fields.
#[derive(Debug, Clone, Copy, PartialEq, Eq, Structural)]
pub struct AnimeFields {
    pub bits: u32,
}

/// Every field, its bit and its name, in query-string order.
pub open spec fn fields_table() -> Seq<(u32, Seq<char>)> {
    seq![
        (FIELD_ID, "id"@),
        (FIELD_TITLE, "title"@),
        (FIELD_MAIN_PICTURE, "main_picture"@),
        (FIELD_ALTERNATIVE_TITLES, "alternative_titles"@),
        (FIELD_START_DATE, "start_date"@),
        (FIELD_END_DATE, "end_date"@),
        (FIELD_SYNOPSIS, "synopsis"@),
        (FIELD_MEAN, "mean"@),
        (FIELD_RANK, "rank"@),
        (FIELD_POPULARITY, "popularity"@),
        (FIELD_NUM_LIST_USERS, "num_list_users"@),
        (FIELD_NUM_SCORING_USERS, "num_scoring_users"@),
        (FIELD_NSFW, "nsfw"@),
        (FIELD_CREATED_AT, "created_at"@),
        (FIELD_UPDATED_AT, "updated_at"@),
        (FIELD_MEDIA_TYPE, "media_type"@),
        (FIELD_STATUS, "status"@),
        (FIELD_GENRES, "genres"@),
        (FIELD_MY_LIST_STATUS, "my_list_status"@),
        (FIELD_NUM_EPISODES, "num_episodes"@),
        (FIELD_START_SEASON, "start_season"@),
        (FIELD_BROADCAST, "broadcast"@),
        (FIELD_SOURCE, "source"@),
        (FIELD_AVERAGE_EPISODE_DURATION, "average_episode_duration"@),
        (FIELD_RATING, "rating"@),
        (FIELD_PICTURES, "pictures"@),
        (FIELD_BACKGROUND, "background"@),
        (FIELD_RELATED_ANIME, "related_anime"@),
        (FIELD_RELATED_MANGA, "related_manga"@),
        (FIELD_RECOMMENDATIONS, "recommendations"@),
        (FIELD_STUDIOS, "studios"@),
        (FIELD_STATISTICS, "statistics"@),
    ]
}

/// The names of the table entries whose bit is set in `bits`, in table
/// order.
pub open spec fn names_of(bits: u32, t: Seq<(u32, Seq<char>)>) -> Seq<Seq<char>>
    decreases t.len(),
{
    if t.len() == 0 {
        Seq::empty()
    } else {
        let head: Seq<Seq<char>> = if bits & t[0].0 != 0 {
            seq![t[0].1]
        } else {
            Seq::empty()
        };
        head + names_of(bits, t.drop_first())
    }
}

/// The names of the selected fields, in their fixed order.
pub open spec fn field_names(f: AnimeFields) -> Seq<Seq<char>> {
    names_of(f.bits, fields_table())
}

pub open spec fn table_view(ps: Seq<(u32, String)>) -> Seq<(u32, Seq<char>)> {
    Seq::new(ps.len(), |i: int| (ps[i].0, ps[i].1@))
}

fn fields_table_exec() -> (r: Vec<(u32, String)>)
    ensures
        table_view(r@) == fields_table(),
{
    let mut t: Vec<(u32, String)> = Vec::new();
    t.push((FIELD_ID, String::from_str("id")));
    t.push((FIELD_TITLE, String::from_str("title")));
    t.push((FIELD_MAIN_PICTURE, String::from_str("main_picture")));
    t.push((FIELD_ALTERNATIVE_TITLES, String::from_str("alternative_titles")));
    t.push((FIELD_START_DATE, String::from_str("start_date")));
    t.push((FIELD_END_DATE, String::from_str("end_date")));
    t.push((FIELD_SYNOPSIS, String::from_str("synopsis")));
    t.push((FIELD_MEAN, String::from_str("mean")));
    t.push((FIELD_RANK, String::from_str("rank")));
    t.push((FIELD_POPULARITY, String::from_str("popularity")));
    t.push((FIELD_NUM_LIST_USERS, String::from_str("num_list_users")));
    t.push((FIELD_NUM_SCORING_USERS, String::from_str("num_scoring_users")));
    t.push((FIELD_NSFW, String::from_str("nsfw")));
    t.push((FIELD_CREATED_AT, String::from_str("created_at")));
    t.push((FIELD_UPDATED_AT, String::from_str("updated_at")));
    t.push((FIELD_MEDIA_TYPE, String::from_str("media_type")));
    t.push((FIELD_STATUS, String::from_str("status")));
    t.push((FIELD_GENRES, String::from_str("genres")));
    t.push((FIELD_MY_LIST_STATUS, String::from_str("my_list_status")));
    t.push((FIELD_NUM_EPISODES, String::from_str("num_episodes")));
    t.push((FIELD_START_SEASON, String::from_str("start_season")));
    t.push((FIELD_BROADCAST, String::from_str("broadcast")));
    t.push((FIELD_SOURCE, String::from_str("source")));
    t.push((FIELD_AVERAGE_EPISODE_DURATION, String::from_str("average_episode_duration")));
    t.push((FIELD_RATING, String::from_str("rating")));
    t.push((FIELD_PICTURES, String::from_str("pictures")));
    t.push((FIELD_BACKGROUND, String::from_str("background")));
    t.push((FIELD_RELATED_ANIME, String::from_str("related_anime")));
    t.push((FIELD_RELATED_MANGA, String::from_str("related_manga")));
    t.push((FIELD_RECOMMENDATIONS, String::from_str("recommendations")));
    t.push((FIELD_STUDIOS, String::from_str("studios")));
    t.push((FIELD_STATISTICS, String::from_str("statistics")));
    assert(table_view(t@) =~= fields_table());
    t
}

impl AnimeFields {
    /// The selection holding every field.
    pub fn all() -> (r: AnimeFields)
        ensures
            r.bits == FIELD_ALL,
    {
        AnimeFields { bits: FIELD_ALL }
    }

    /// The empty selection.
    pub fn none() -> (r: AnimeFields)
        ensures
            r.bits == 0,
    {
        AnimeFields { bits: 0 }
    }

    /// The selection with exactly the given bits.
    pub fn from_bits(bits: u32) -> (r: AnimeFields)
        ensures
            r.bits == bits,
    {
        AnimeFields { bits }
    }

    /// This selection together with more fields.
    pub fn with(self, mask: u32) -> (r: AnimeFields)
        ensures
            r.bits == self.bits | mask,
    {
        AnimeFields { bits: self.bits | mask }
    }

    /// Whether every field of `mask` is selected.
    pub fn contains(&self, mask: u32) -> (b: bool)
        ensures
            b == (self.bits & mask == mask),
    {
        self.bits & mask == mask
    }

    /// The names of the selected fields, in their fixed order.
    pub fn get_fields_names(&self) -> (r: Vec<String>)
        ensures
            strings_view(r@) == field_names(*self),
    {
        let tab = fields_table_exec();
        let mut names: Vec<String> = Vec::new();
        let n = tab.len();
        let mut i: usize = 0;
        proof {
            assert(table_view(tab@).skip(0) =~= fields_table());
            assert(strings_view(names@) =~= Seq::<Seq<char>>::empty());
        }
        while i < n
            invariant
                i <= n,
                n == tab@.len(),
                table_view(tab@) == fields_table(),
                names_of(self.bits, fields_table()) == strings_view(names@) + names_of(
                    self.bits,
                    table_view(tab@).skip(i as int),
                ),
            decreases n - i,
        {
            proof {
                let tv = table_view(tab@);
                assert(tv.skip(i as int)[0] == tv[i as int]);
                assert(tv.skip(i as int).drop_first() =~= tv.skip(i + 1));
            }
            let entry = &tab[i];
            if self.bits & entry.0 != 0 {
                names.push(entry.1.clone());
                proof {
                    let tv = table_view(tab@);
                    assert(strings_view(names@) =~= strings_view(names@.drop_last()) + seq![
                        tv[i as int].1,
                    ]);
                    assert(strings_view(names@) + names_of(self.bits, tv.skip(i + 1))
                        =~= strings_view(names@.drop_last()) + (seq![tv[i as int].1] + names_of(
                        self.bits,
                        tv.skip(i + 1),
                    )));
                }
            } else {
                proof {
                    let tv = table_view(tab@);
                    assert(strings_view(names@) + names_of(self.bits, tv.skip(i + 1))
                        =~= strings_view(names@) + (Seq::<Seq<char>>::empty() + names_of(
                        self.bits,
                        tv.skip(i + 1),
                    )));
                }
            }
            i += 1;
        }
        proof {
            assert(table_view(tab@).skip(n as int) =~= Seq::<(u32, Seq<char>)>::empty());
            assert(strings_view(names@) + Seq::<Seq<char>>::empty() =~= strings_view(names@));
        }
        names
    }

    /// The query-string form of the selection: the selected names joined
    /// with commas.
    pub fn to_query(&self) -> (r: String)
        ensures
            r@ == join_comma(field_names(*self)),
    {
        let names = self.get_fields_names();
        join_comma_exec(&names)
    }
}

} // verus!
