//! The data that flows between the scrapers and the terminal interface.

use vstd::prelude::*;

use crate::text::{
    decimal, first_where, lemma_first_where, lemma_first_where_is, lemma_first_where_none, push_decimal,
    push_str, str_eq, to_string,
};

verus! {

// ————————————————————————————————————————————————
// Anime categories
// ————————————————————————————————————————————————

/// Category of an anime on the catalogue site.
#[derive(Debug, Clone)]
pub enum AnimeCategory {
    /// Regular TV series (categoryId 1)
    TvAnime,
    /// Film (categoryId 2)
    Movie,
    /// Original Video Animation (categoryId 3)
    Ova,
    /// Special episode (categoryId 4)
    Special,
    /// Unrecognised category
    Unknown(String),
}

impl AnimeCategory {
    /// The category for the numeric `categoryId` of the site.
    pub fn from_id(id: u32) -> (r: Self)
        ensures
            id == 1 ==> r is TvAnime,
            id == 2 ==> r is Movie,
            id == 3 ==> r is Ova,
            id == 4 ==> r is Special,
            !(1 <= id <= 4) ==> (r matches AnimeCategory::Unknown(t) && t@ == decimal(id as nat)),
    {
        match id {
            1 => AnimeCategory::TvAnime,
            2 => AnimeCategory::Movie,
            3 => AnimeCategory::Ova,
            4 => AnimeCategory::Special,
            _ => {
                let mut t = String::new();
                push_decimal(&mut t, id as u64);
                assert(t@ =~= decimal(id as nat));
                AnimeCategory::Unknown(t)
            },
        }
    }

    /// The category for a category name as the site writes it.
    pub fn from_name(name: &str) -> (r: Self)
        ensures
            (name@ == "TV Anime"@ || name@ == "tv-anime"@) ==> r is TvAnime,
            (name@ == "Movie"@ || name@ == "movie"@) ==> r is Movie,
            (name@ == "OVA"@ || name@ == "ova"@) ==> r is Ova,
            (name@ == "Special"@ || name@ == "special"@) ==> r is Special,
            !(name@ == "TV Anime"@ || name@ == "tv-anime"@ || name@ == "Movie"@ || name@ == "movie"@
                || name@ == "OVA"@ || name@ == "ova"@ || name@ == "Special"@ || name@ == "special"@)
                ==> (r matches AnimeCategory::Unknown(t) && t@ == name@),
    {
        proof {
            reveal_strlit("TV Anime");
            reveal_strlit("tv-anime");
            reveal_strlit("Movie");
            reveal_strlit("movie");
            reveal_strlit("OVA");
            reveal_strlit("ova");
            reveal_strlit("Special");
            reveal_strlit("special");
            assert("TV Anime"@.len() == 8 && "tv-anime"@.len() == 8 && "Movie"@.len() == 5
                && "movie"@.len() == 5 && "OVA"@.len() == 3 && "ova"@.len() == 3
                && "Special"@.len() == 7 && "special"@.len() == 7);
            assert("TV Anime"@[0] != "tv-anime"@[0]);
        }
        if str_eq(name, "TV Anime") || str_eq(name, "tv-anime") {
            AnimeCategory::TvAnime
        } else if str_eq(name, "Movie") || str_eq(name, "movie") {
            AnimeCategory::Movie
        } else if str_eq(name, "OVA") || str_eq(name, "ova") {
            AnimeCategory::Ova
        } else if str_eq(name, "Special") || str_eq(name, "special") {
            AnimeCategory::Special
        } else {
            AnimeCategory::Unknown(to_string(name))
        }
    }

    /// Short label shown in the terminal.
    pub fn display(&self) -> (r: &'static str)
        ensures
            r@ == match self {
                AnimeCategory::TvAnime => "TV"@,
                AnimeCategory::Movie => "Movie"@,
                AnimeCategory::Ova => "OVA"@,
                AnimeCategory::Special => "Especial"@,
                AnimeCategory::Unknown(_) => "?"@,
            },
    {
        match self {
            AnimeCategory::TvAnime => "TV",
            AnimeCategory::Movie => "Movie",
            AnimeCategory::Ova => "OVA",
            AnimeCategory::Special => "Especial",
            AnimeCategory::Unknown(_) => "?",
        }
    }

    /// A copy of this category.
    pub fn copy(&self) -> (r: Self)
        ensures
            r == *self,
    {
        match self {
            AnimeCategory::TvAnime => AnimeCategory::TvAnime,
            AnimeCategory::Movie => AnimeCategory::Movie,
            AnimeCategory::Ova => AnimeCategory::Ova,
            AnimeCategory::Special => AnimeCategory::Special,
            AnimeCategory::Unknown(t) => AnimeCategory::Unknown(t.clone()),
        }
    }
}

// ————————————————————————————————————————————————
// Anime (search result)
// ————————————————————————————————————————————————

/// An anime as listed among the search results.
#[derive(Debug, Clone)]
pub struct Anime {
    /// Internal id on the site, as text (e.g. "197")
    pub id: String,
    /// Title (e.g. "One Piece")
    pub title: String,
    /// URL slug (e.g. "one-piece"); the page is `/media/{slug}`
    pub slug: String,
    /// Synopsis (may be long)
    pub synopsis: String,
    /// Category (TV, Movie, OVA, Special)
    pub category: AnimeCategory,
    /// MyAnimeList id, when known
    pub mal_id: Option<u32>,
    /// Number of episodes, once the anime page has been read
    pub episodes_count: Option<u32>,
    /// Score (0.0 - 10.0) as the decimal text the site writes, once the
    /// anime page has been read; always a valid decimal literal
    pub score: Option<String>,
}

/// `base` followed by `tail` pieces: the string `base ++ a ++ b`.
pub open spec fn media_url(base: Seq<char>, slug: Seq<char>) -> Seq<char> {
    base + "/media/"@ + slug
}

impl Anime {
    /// The full URL of the anime's page: `{base}/media/{slug}`.
    pub fn page_url(&self, base: &str) -> (r: String)
        ensures
            r@ == media_url(base@, self.slug@),
    {
        let mut r = String::new();
        push_str(&mut r, base);
        push_str(&mut r, "/media/");
        push_str(&mut r, self.slug.as_str());
        assert(r@ =~= media_url(base@, self.slug@));
        r
    }

    /// A copy of this anime.
    pub fn copy(&self) -> (r: Self)
        ensures
            r == *self,
    {
        Anime {
            id: self.id.clone(),
            title: self.title.clone(),
            slug: self.slug.clone(),
            synopsis: self.synopsis.clone(),
            category: self.category.copy(),
            mal_id: self.mal_id,
            episodes_count: self.episodes_count,
            score: match &self.score {
                Some(t) => Some(t.clone()),
                None => None,
            },
        }
    }
}

// ————————————————————————————————————————————————
// Episode
// ————————————————————————————————————————————————

/// An episode of an anime.
#[derive(Debug, Clone)]
pub struct Episode {
    /// Internal id of the episode on the site (e.g. 3433)
    pub id: u32,
    /// Episode number (1, 2, 3...)
    pub number: u32,
    /// Slug of the anime it belongs to
    pub anime_slug: String,
}

impl Episode {
    /// The full URL of the episode's page: `{base}/media/{anime_slug}/{number}`.
    pub fn page_url(&self, base: &str) -> (r: String)
        ensures
            r@ == media_url(base@, self.anime_slug@) + "/"@ + decimal(self.number as nat),
    {
        let mut r = String::new();
        push_str(&mut r, base);
        push_str(&mut r, "/media/");
        push_str(&mut r, self.anime_slug.as_str());
        push_str(&mut r, "/");
        push_decimal(&mut r, self.number as u64);
        assert(r@ =~= media_url(base@, self.anime_slug@) + "/"@ + decimal(self.number as nat));
        r
    }

    /// The title shown in the terminal: `Episodio {number}`.
    pub fn display_title(&self) -> (r: String)
        ensures
            r@ == "Episodio "@ + decimal(self.number as nat),
    {
        let mut r = String::new();
        push_str(&mut r, "Episodio ");
        push_decimal(&mut r, self.number as u64);
        r
    }

    /// A copy of this episode.
    pub fn copy(&self) -> (r: Self)
        ensures
            r == *self,
    {
        Episode { id: self.id, number: self.number, anime_slug: self.anime_slug.clone() }
    }
}

// ————————————————————————————————————————————————
// Video sources
// ————————————————————————————————————————————————

/// Audio of a video source.
#[derive(Debug, Clone, Copy, PartialEq, Eq, Structural)]
pub enum AudioType {
    /// Original audio with Spanish subtitles
    Sub,
    /// Spanish dub
    Dub,
}

impl AudioType {
    /// Label shown in the terminal.
    pub fn display(&self) -> (r: &'static str)
        ensures
            r@ == match self {
                AudioType::Sub => "SUB"@,
                AudioType::Dub => "DUB"@,
            },
    {
        match self {
            AudioType::Sub => "SUB",
            AudioType::Dub => "DUB",
        }
    }
}

/// One video server offered for an episode.
#[derive(Debug, Clone)]
pub struct VideoSource {
    /// Server name (e.g. "HLS", "Mega", "MP4Upload")
    pub server: String,
    /// Embed or stream URL
    pub url: String,
    /// Audio (SUB or DUB)
    pub audio: AudioType,
    /// Quality, when known (e.g. "1080p")
    pub quality: Option<String>,
}

/// The servers that mpv plays without further configuration.
pub open spec fn mpv_compatible_server(server: Seq<char>) -> bool {
    server == "HLS"@ || server == "PDrain"@
}

impl VideoSource {
    /// Whether mpv plays this source directly: the HLS and PDrain servers.
    pub fn is_mpv_compatible(&self) -> (r: bool)
        ensures
            r == mpv_compatible_server(self.server@),
    {
        str_eq(self.server.as_str(), "HLS") || str_eq(self.server.as_str(), "PDrain")
    }

    /// A copy of this source.
    pub fn copy(&self) -> (r: Self)
        ensures
            r == *self,
    {
        VideoSource {
            server: self.server.clone(),
            url: self.url.clone(),
            audio: self.audio,
            quality: match &self.quality {
                Some(q) => Some(q.clone()),
                None => None,
            },
        }
    }
}

/// The video sources of an episode, grouped by audio.
#[derive(Debug, Clone)]
pub struct EpisodeSources {
    /// Subtitled sources
    pub sub: Vec<VideoSource>,
    /// Dubbed sources (may be empty)
    pub dub: Vec<VideoSource>,
}

impl Default for EpisodeSources {
    fn default() -> (r: Self)
        ensures
            r.sub@.len() == 0,
            r.dub@.len() == 0,
    {
        EpisodeSources { sub: Vec::new(), dub: Vec::new() }
    }
}

/// The first source in `srcs` whose server is named `name`.
pub open spec fn first_with_server(srcs: Seq<VideoSource>, name: Seq<char>) -> Option<int> {
    first_where(|i: int| 0 <= i < srcs.len() && srcs[i].server@ == name, 0, srcs.len() as int)
}

/// The best source for mpv among `srcs`: the first HLS one, else the first
/// PDrain one.
pub open spec fn best_mpv_index(srcs: Seq<VideoSource>) -> Option<int> {
    match first_with_server(srcs, "HLS"@) {
        Some(i) => Some(i),
        None => first_with_server(srcs, "PDrain"@),
    }
}

/// The source to play among `srcs`, in the order HLS, PDrain, any other:
/// the first HLS one, else the first PDrain one, else the first source.
pub open spec fn best_source(srcs: Seq<VideoSource>) -> Option<int> {
    match best_mpv_index(srcs) {
        Some(i) => Some(i),
        None => if srcs.len() > 0 {
            Some(0)
        } else {
            None
        },
    }
}

/// The first source in `srcs` whose server is named `name`.
pub fn find_server(srcs: &Vec<VideoSource>, name: &str) -> (r: Option<usize>)
    ensures
        r matches Some(i) ==> first_with_server(srcs@, name@) == Some(i as int),
        r is None ==> first_with_server(srcs@, name@) is None,
{
    let ghost p = |i: int| 0 <= i < srcs@.len() && srcs@[i].server@ == name@;
    let mut i: usize = 0;
    while i < srcs.len()
        invariant
            i <= srcs.len(),
            p == (|i: int| 0 <= i < srcs@.len() && srcs@[i].server@ == name@),
            forall|j: int| 0 <= j < i ==> !#[trigger] p(j),
        decreases srcs.len() - i,
    {
        if str_eq(srcs[i].server.as_str(), name) {
            proof {
                lemma_first_where_is(p, 0, srcs@.len() as int, i as int);
            }
            return Some(i);
        }
        i += 1;
    }
    proof {
        lemma_first_where_none(p, 0, srcs@.len() as int);
    }
    None
}

impl EpisodeSources {
    /// The sources with the given audio.
    pub fn get(&self, audio: &AudioType) -> (r: &Vec<VideoSource>)
        ensures
            r@ == match audio {
                AudioType::Sub => self.sub@,
                AudioType::Dub => self.dub@,
            },
    {
        match audio {
            AudioType::Sub => &self.sub,
            AudioType::Dub => &self.dub,
        }
    }

    /// Whether there is any dubbed source.
    pub fn has_dub(&self) -> (r: bool)
        ensures
            r == (self.dub@.len() > 0),
    {
        self.dub.len() > 0
    }

    /// The best source for mpv with the given audio (see `best_source`):
    /// the first HLS source, else the first PDrain source, else the first
    /// source; none only when there is no source of that audio.
    pub fn best_for_mpv(&self, audio: &AudioType) -> (r: Option<&VideoSource>)
        ensures
            ({
                let srcs = self.get_spec(*audio);
                match best_source(srcs) {
                    Some(i) => r == Some(&srcs[i]),
                    None => r is None,
                }
            }),
    {
        let sources = self.get(audio);
        proof {
            lemma_first_where(|i: int| 0 <= i < sources@.len() && sources@[i].server@ == "HLS"@, 0, sources@.len() as int);
            lemma_first_where(|i: int| 0 <= i < sources@.len() && sources@[i].server@ == "PDrain"@, 0, sources@.len() as int);
        }
        match find_server(sources, "HLS") {
            Some(i) => Some(&sources[i]),
            None => match find_server(sources, "PDrain") {
                Some(i) => Some(&sources[i]),
                None => if sources.len() > 0 {
                    Some(&sources[0])
                } else {
                    None
                },
            },
        }
    }

    /// The sources with the given audio.
    pub open spec fn get_spec(&self, audio: AudioType) -> Seq<VideoSource> {
        match audio {
            AudioType::Sub => self.sub@,
            AudioType::Dub => self.dub@,
        }
    }
}


/// The first source of server `name` at `at` is where `first_with_server`
/// points.
pub proof fn lemma_first_with_server_at(srcs: Seq<VideoSource>, name: &str, at: int)
    requires
        0 <= at < srcs.len(),
        srcs[at].server@ == name@,
        forall|j: int| 0 <= j < at ==> srcs[j].server@ != name@,
    ensures
        first_with_server(srcs, name@) == Some(at),
{
    let f = |i: int| 0 <= i < srcs.len() && srcs[i].server@ == name@;
    lemma_first_where(f, 0, srcs.len() as int);
    assert(f(at));
    match first_with_server(srcs, name@) {
        Some(k) => {
            if k < at {
                assert(srcs[k].server@ != name@);
            } else if k > at {
                assert(srcs[at].server@ == name@);
            }
        },
        None => {
            assert(srcs[at].server@ == name@);
        },
    }
}

/// With no source of server `name`, `first_with_server` finds none.
pub proof fn lemma_first_with_server_none(srcs: Seq<VideoSource>, name: &str)
    requires
        forall|j: int| 0 <= j < srcs.len() ==> srcs[j].server@ != name@,
    ensures
        first_with_server(srcs, name@) is None,
{
    lemma_first_where(|i: int| 0 <= i < srcs.len() && srcs[i].server@ == name@, 0, srcs.len() as int);
    if let Some(k) = first_with_server(srcs, name@) {
        assert(srcs[k].server@ != name@);
    }
}

/// The first source of server `name` is the one `first_with_server` finds,
/// and it finds none when the list has none.
pub proof fn law_first_with_server(srcs: Seq<VideoSource>, name: &str)
    ensures
        forall|i: int|
            0 <= i < srcs.len() && (#[trigger] srcs[i]).server@ == name@ && (forall|j: int|
                0 <= j < i ==> srcs[j].server@ != name@) ==> first_with_server(srcs, name@) == Some(i),
        (forall|j: int| 0 <= j < srcs.len() ==> srcs[j].server@ != name@) ==> first_with_server(srcs, name@) is None,
{
    assert forall|i: int|
        0 <= i < srcs.len() && (#[trigger] srcs[i]).server@ == name@ && (forall|j: int|
            0 <= j < i ==> srcs[j].server@ != name@) implies first_with_server(srcs, name@) == Some(i) by {
        lemma_first_with_server_at(srcs, name, i);
    }
    if forall|j: int| 0 <= j < srcs.len() ==> srcs[j].server@ != name@ {
        lemma_first_with_server_none(srcs, name);
    }
}

proof fn lemma_best_is_hls(srcs: Seq<VideoSource>, i: int)
    requires
        0 <= i < srcs.len(),
        srcs[i].server@ == "HLS"@,
        forall|j: int| 0 <= j < i ==> srcs[j].server@ != "HLS"@,
    ensures
        best_source(srcs) == Some(i),
{
    lemma_first_with_server_at(srcs, "HLS", i);
}

proof fn lemma_best_is_pdrain(srcs: Seq<VideoSource>, i: int)
    requires
        0 <= i < srcs.len(),
        srcs[i].server@ == "PDrain"@,
        forall|j: int| 0 <= j < srcs.len() ==> srcs[j].server@ != "HLS"@,
        forall|j: int| 0 <= j < i ==> srcs[j].server@ != "PDrain"@,
    ensures
        best_source(srcs) == Some(i),
{
    lemma_first_with_server_none(srcs, "HLS");
    lemma_first_with_server_at(srcs, "PDrain", i);
}

proof fn lemma_best_is_first(srcs: Seq<VideoSource>)
    requires
        forall|j: int| 0 <= j < srcs.len() ==> srcs[j].server@ != "HLS"@ && srcs[j].server@ != "PDrain"@,
    ensures
        best_source(srcs) == (if srcs.len() > 0 { Some(0int) } else { None }),
{
    lemma_first_with_server_none(srcs, "HLS");
    lemma_first_with_server_none(srcs, "PDrain");
}

/// With no preferred server, the source to play is the first HLS one.
pub proof fn law_source_prefers_hls(srcs: Seq<VideoSource>)
    ensures
        forall|i: int|
            0 <= i < srcs.len() && (#[trigger] srcs[i]).server@ == "HLS"@ && (forall|j: int|
                0 <= j < i ==> srcs[j].server@ != "HLS"@) ==> best_source(srcs) == Some(i),
{
    assert forall|i: int|
        0 <= i < srcs.len() && (#[trigger] srcs[i]).server@ == "HLS"@ && (forall|j: int|
            0 <= j < i ==> srcs[j].server@ != "HLS"@) implies best_source(srcs) == Some(i) by {
        lemma_best_is_hls(srcs, i);
    }
}

/// With no preferred server and no HLS source, the source to play is the
/// first PDrain one.
pub proof fn law_source_then_pdrain(srcs: Seq<VideoSource>)
    ensures
        (forall|j: int| 0 <= j < srcs.len() ==> srcs[j].server@ != "HLS"@) ==> forall|i: int|
            0 <= i < srcs.len() && (#[trigger] srcs[i]).server@ == "PDrain"@ && (forall|j: int|
                0 <= j < i ==> srcs[j].server@ != "PDrain"@) ==> best_source(srcs) == Some(i),
{
    if forall|j: int| 0 <= j < srcs.len() ==> srcs[j].server@ != "HLS"@ {
        assert forall|i: int|
            0 <= i < srcs.len() && (#[trigger] srcs[i]).server@ == "PDrain"@ && (forall|j: int|
                0 <= j < i ==> srcs[j].server@ != "PDrain"@) implies best_source(srcs) == Some(i) by {
            lemma_best_is_pdrain(srcs, i);
        }
    }
}

/// With no preferred server and neither an HLS nor a PDrain source, the
/// source to play is the first of the list, and there is none only for an
/// empty list.
pub proof fn law_source_then_first(srcs: Seq<VideoSource>)
    ensures
        (forall|j: int| 0 <= j < srcs.len() ==> srcs[j].server@ != "HLS"@ && srcs[j].server@ != "PDrain"@)
            ==> best_source(srcs) == (if srcs.len() > 0 { Some(0int) } else { None }),
        srcs.len() == 0 ==> best_source(srcs) is None,
{
    if forall|j: int| 0 <= j < srcs.len() ==> srcs[j].server@ != "HLS"@ && srcs[j].server@ != "PDrain"@ {
        lemma_best_is_first(srcs);
    }
    if srcs.len() == 0 {
        lemma_best_is_first(srcs);
    }
}

} // verus!
