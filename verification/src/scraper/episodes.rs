//! The episodes of an anime and its metadata, read from the HTML of its page
//! `/media/{slug}`.
//!
//! The page embeds the episodes as `episodes:[{id:3433,number:1},...]`.

use vstd::prelude::*;
use vstd::multiset::Multiset;

use crate::config::BASE_URL;
use crate::structs::{media_url, Anime, AnimeCategory, Episode};
use crate::text::{
    chars_of, close_index, close_index_exec, find_from, find_from_exec, find_key_run, first_where,
    key_run_capture, lemma_first_where, lemma_first_where_is, lemma_first_where_none, lemma_run_end,
    occurs_at, occurs_at_exec, parse_u32, opt_chars, parse_u32_exec, push_str, run_end, scan_run,
    string_of, sub_vec, to_string, CharClass,
};

verus! {

broadcast use vstd::seq_lib::group_to_multiset_ensures, vstd::multiset::group_multiset_axioms;

// ————————————————————————————————————————————————
// The grammar of the episodes block
// ————————————————————————————————————————————————

/// The pattern `episodes:\[(\{[^]]+\})\]` matches at `i`: after the key and
/// an opening brace comes a run of characters other than `]`, at least two
/// long, whose last character is `}`, and then a `]`.
pub open spec fn episodes_block_at(s: Seq<char>, i: int) -> bool {
    let a = i + "episodes:["@.len();
    let e = run_end(s, a + 1, CharClass::NotCloseBracket);
    &&& occurs_at(s, i, "episodes:[{"@)
    &&& e < s.len()
    &&& e >= a + 3
    &&& s[e - 1] == '}'
}

/// What the pattern captures at its leftmost match: from the opening brace
/// to the closing one.
pub open spec fn episodes_block_by_pattern(s: Seq<char>) -> Option<Seq<char>> {
    match first_where(|i: int| episodes_block_at(s, i), 0, s.len() + 1int) {
        Some(i) => {
            let a = i + "episodes:["@.len();
            Some(s.subrange(a, run_end(s, a + 1, CharClass::NotCloseBracket)))
        },
        None => None,
    }
}

/// The episodes block found by bracket counting from the first
/// `episodes:[`: the text up to the bracket that closes it, when not empty.
pub open spec fn episodes_block_by_brackets(s: Seq<char>) -> Option<Seq<char>> {
    match find_from(s, "episodes:["@, 0) {
        Some(p) => {
            let start = p + "episodes:["@.len();
            match close_index(s, start, 1, '[', ']') {
                Some(j) => if j > start {
                    Some(s.subrange(start, j))
                } else {
                    None
                },
                None => None,
            }
        },
        None => None,
    }
}

/// The episodes block of a page: by the pattern, else by bracket counting,
/// else empty.
pub open spec fn episodes_block(s: Seq<char>) -> Seq<char> {
    match episodes_block_by_pattern(s) {
        Some(b) => b,
        None => match episodes_block_by_brackets(s) {
            Some(b) => b,
            None => Seq::empty(),
        },
    }
}

/// Where the id of an entry at `i` starts.
pub open spec fn id_start(i: int) -> int {
    i + "{id:"@.len()
}

/// Where the id of an entry at `i` ends.
pub open spec fn id_end(s: Seq<char>, i: int) -> int {
    run_end(s, id_start(i), CharClass::Digit)
}

/// Where the number of an entry at `i` starts.
pub open spec fn number_start(s: Seq<char>, i: int) -> int {
    id_end(s, i) + ",number:"@.len()
}

/// Where the number of an entry at `i` ends.
pub open spec fn number_end(s: Seq<char>, i: int) -> int {
    run_end(s, number_start(s, i), CharClass::Digit)
}

/// The pattern `\{id:(\d+),number:(\d+)\}` matches at `i`.
pub open spec fn episode_entry_at(s: Seq<char>, i: int) -> bool {
    &&& occurs_at(s, i, "{id:"@)
    &&& id_end(s, i) > id_start(i)
    &&& occurs_at(s, id_end(s, i), ",number:"@)
    &&& number_end(s, i) > number_start(s, i)
    &&& occurs_at(s, number_end(s, i), "}"@)
}

/// Where the entry at `i` ends.
pub open spec fn episode_entry_end(s: Seq<char>, i: int) -> int {
    number_end(s, i) + 1
}

/// The next entry at or after `pos`.
pub open spec fn next_episode_entry(s: Seq<char>, pos: int) -> Option<int> {
    first_where(|i: int| episode_entry_at(s, i), pos, s.len() + 1int)
}

pub proof fn lemma_episode_entry_bounds(s: Seq<char>, i: int)
    requires
        episode_entry_at(s, i),
    ensures
        i < id_start(i) < id_end(s, i) < number_start(s, i) < number_end(s, i) < episode_entry_end(s, i) <= s.len(),
{
    reveal_strlit("{id:");
    reveal_strlit(",number:");
    reveal_strlit("}");
    lemma_run_end(s, id_start(i), CharClass::Digit);
    lemma_run_end(s, number_start(s, i), CharClass::Digit);
}

/// The `(id, number)` pairs of the entries of `s[pos..]` (found left to
/// right without overlap) whose id and number both read as `u32`.
#[verifier::opaque]
pub open spec fn episode_pairs_from(s: Seq<char>, pos: int) -> Seq<(u32, u32)>
    decreases s.len() + 1 - pos,
{
    if pos < 0 || pos > s.len() {
        Seq::empty()
    } else {
        match next_episode_entry(s, pos) {
            Some(i) => {
                proof {
                    lemma_first_where(|i: int| episode_entry_at(s, i), pos, s.len() + 1int);
                    lemma_episode_entry_bounds(s, i);
                }
                let id = parse_u32(s.subrange(id_start(i), id_end(s, i)));
                let number = parse_u32(s.subrange(number_start(s, i), number_end(s, i)));
                let rest = episode_pairs_from(s, episode_entry_end(s, i));
                if id is Some && number is Some {
                    seq![(id->0, number->0)] + rest
                } else {
                    rest
                }
            },
            None => Seq::empty(),
        }
    }
}

pub proof fn lemma_episode_pairs_step(s: Seq<char>, pos: int)
    requires
        0 <= pos <= s.len(),
    ensures
        next_episode_entry(s, pos) is None ==> episode_pairs_from(s, pos) == Seq::<(u32, u32)>::empty(),
        next_episode_entry(s, pos) matches Some(i) ==> {
            let id = parse_u32(s.subrange(id_start(i), id_end(s, i)));
            let number = parse_u32(s.subrange(number_start(s, i), number_end(s, i)));
            let rest = episode_pairs_from(s, episode_entry_end(s, i));
            &&& pos <= i
            &&& episode_entry_at(s, i)
            &&& i < id_start(i) < id_end(s, i) < number_start(s, i) < number_end(s, i) < episode_entry_end(s, i) <= s.len()
            &&& episode_pairs_from(s, pos) == if id is Some && number is Some {
                seq![(id->0, number->0)] + rest
            } else {
                rest
            }
        },
{
    reveal(episode_pairs_from);
    lemma_first_where(|i: int| episode_entry_at(s, i), pos, s.len() + 1int);
    if let Some(i) = next_episode_entry(s, pos) {
        lemma_episode_entry_bounds(s, i);
    }
}

/// The `(id, number)` pairs listed by a page's episodes block.
pub open spec fn page_episode_pairs(html: Seq<char>) -> Seq<(u32, u32)> {
    episode_pairs_from(episodes_block(html), 0)
}

/// The numbers of `v` never decrease.
pub open spec fn sorted_by_number(v: Seq<(u32, u32)>) -> bool {
    forall|i: int, j: int| 0 <= i < j < v.len() ==> v[i].1 <= v[j].1
}

/// The `(id, number)` of each episode.
pub open spec fn episode_keys(v: Seq<Episode>) -> Seq<(u32, u32)> {
    v.map_values(|e: Episode| (e.id, e.number))
}

/// Where `x` goes among `out`, ordered by number: before the first pair
/// with a greater number (after all those with a number not greater).
pub open spec fn insert_pos(out: Seq<(u32, u32)>, x: (u32, u32)) -> int {
    match first_where(|j: int| 0 <= j < out.len() && out[j].1 > x.1, 0, out.len() as int) {
        Some(j) => j,
        None => out.len() as int,
    }
}

/// The pairs ordered by number, those with the same number in the order of
/// the page.
pub open spec fn sorted_pairs(v: Seq<(u32, u32)>) -> Seq<(u32, u32)>
    decreases v.len(),
{
    if v.len() == 0 {
        v
    } else {
        let out = sorted_pairs(v.drop_last());
        out.insert(insert_pos(out, v.last()), v.last())
    }
}

/// `eps` are the episodes of the pairs `pairs` ordered by number (those
/// with the same number in the order of the page), all of the anime `slug`;
/// so they are ordered and they are the page's pairs, no more, no fewer.
pub open spec fn episodes_of_pairs(eps: Seq<Episode>, pairs: Seq<(u32, u32)>, slug: Seq<char>) -> bool {
    &&& episode_keys(eps) == sorted_pairs(pairs)
    &&& sorted_by_number(episode_keys(eps))
    &&& episode_keys(eps).to_multiset() == pairs.to_multiset()
    &&& forall|j: int| 0 <= j < eps.len() ==> (#[trigger] eps[j]).anime_slug@ == slug
}

// ————————————————————————————————————————————————
// Metadata
// ————————————————————————————————————————————————

/// Metadata of an anime read from its page together with the episodes.
#[derive(Debug)]
pub struct AnimeMetadata {
    /// Total number of episodes according to the site
    pub episodes_count: Option<u32>,
    /// Score (0.0 - 10.0) as the decimal text the site writes
    pub score: Option<String>,
    /// Category
    pub category: Option<AnimeCategory>,
    /// MyAnimeList id
    pub mal_id: Option<u32>,
}

/// `t` reads as a float literal (`str::parse::<f32>` succeeds) when it is
/// made only of digits and dots: it holds at most one dot, at least one
/// digit, and all its other characters are ASCII digits.
pub open spec fn is_decimal_literal(t: Seq<char>) -> bool {
    &&& forall|i: int| 0 <= i < t.len() ==> (#[trigger] t[i] == '.' || crate::text::is_ascii_digit(t[i]))
    &&& forall|i: int, j: int| 0 <= i < j < t.len() && t[i] == '.' ==> t[j] != '.'
    &&& exists|i: int| 0 <= i < t.len() && crate::text::is_ascii_digit(#[trigger] t[i])
}

/// The digits after the first `key` that is followed by at least one digit,
/// read as a `u32` (none when absent or not a `u32`).
pub open spec fn key_number(html: Seq<char>, key: Seq<char>) -> Option<u32> {
    match key_run_capture(html, key, CharClass::Digit, false) {
        Some(t) => parse_u32(t),
        None => None,
    }
}

/// The score text: what `score:([\d.]+)` captures, when it reads as a float.
pub open spec fn page_score(html: Seq<char>) -> Option<Seq<char>> {
    match key_run_capture(html, "score:"@, CharClass::DigitOrDot, false) {
        Some(t) => if is_decimal_literal(t) {
            Some(t)
        } else {
            None
        },
        None => None,
    }
}

/// The pattern `category:\{id:\d+,name:"([^"]+)"` matches at `i`.
pub open spec fn category_name_at(s: Seq<char>, i: int) -> bool {
    let a = i + "category:{id:"@.len();
    let d = run_end(s, a, CharClass::Digit);
    let b = d + ",name:\""@.len();
    let e = run_end(s, b, CharClass::NotQuote);
    &&& occurs_at(s, i, "category:{id:"@)
    &&& d > a
    &&& occurs_at(s, d, ",name:\""@)
    &&& e > b
    &&& e < s.len()
}

/// The category name that the pattern captures at its leftmost match.
pub open spec fn page_category_name(s: Seq<char>) -> Option<Seq<char>> {
    match first_where(|i: int| category_name_at(s, i), 0, s.len() + 1int) {
        Some(i) => {
            let a = i + "category:{id:"@.len();
            let b = run_end(s, a, CharClass::Digit) + ",name:\""@.len();
            Some(s.subrange(b, run_end(s, b, CharClass::NotQuote)))
        },
        None => None,
    }
}

/// The metadata that `m` holds is the metadata of the page `html`.
pub open spec fn metadata_of(m: AnimeMetadata, html: Seq<char>) -> bool {
    &&& m.episodes_count == key_number(html, "episodesCount:"@)
    &&& m.mal_id == key_number(html, "malId:"@)
    &&& match page_score(html) {
        Some(t) => m.score matches Some(sc) && sc@ == t,
        None => m.score is None,
    }
    &&& match page_category_name(html) {
        Some(n) => m.category matches Some(c) && category_named(c, n),
        None => m.category is None,
    }
}

/// `c` is the category that `AnimeCategory::from_name` gives for `n`.
pub open spec fn category_named(c: AnimeCategory, n: Seq<char>) -> bool {
    if n == "TV Anime"@ || n == "tv-anime"@ {
        c is TvAnime
    } else if n == "Movie"@ || n == "movie"@ {
        c is Movie
    } else if n == "OVA"@ || n == "ova"@ {
        c is Ova
    } else if n == "Special"@ || n == "special"@ {
        c is Special
    } else {
        c matches AnimeCategory::Unknown(t) && t@ == n
    }
}

// ————————————————————————————————————————————————
// Executable parsing
// ————————————————————————————————————————————————

/// The digits after `key`, read as a `u32`.
fn key_number_exec(s: &Vec<char>, key: &str) -> (r: Option<u32>)
    ensures
        r == key_number(s@, key@),
{
    let k = chars_of(key);
    match find_key_run(s, &k, CharClass::Digit, false) {
        Some((a, e)) => parse_u32_exec(s, a, e),
        None => None,
    }
}

/// Whether `v[a..e)` is a decimal literal.
fn is_decimal_literal_exec(v: &Vec<char>, a: usize, e: usize) -> (r: bool)
    requires
        a <= e <= v.len(),
    ensures
        r == is_decimal_literal(v@.subrange(a as int, e as int)),
{
    let ghost t = v@.subrange(a as int, e as int);
    let mut dots: usize = 0;
    let mut digits: usize = 0;
    let mut k = a;
    while k < e
        invariant
            a <= k <= e <= v.len(),
            t == v@.subrange(a as int, e as int),
            dots <= 1,
            forall|i: int| 0 <= i < k - a ==> (#[trigger] t[i] == '.' || crate::text::is_ascii_digit(t[i])),
            dots == 0 ==> forall|i: int| 0 <= i < k - a ==> t[i] != '.',
            forall|i: int, j: int| 0 <= i < j < k - a && t[i] == '.' ==> t[j] != '.',
            dots == 1 ==> exists|i: int| 0 <= i < k - a && t[i] == '.',
            digits == 0 ==> forall|i: int| 0 <= i < k - a ==> !crate::text::is_ascii_digit(#[trigger] t[i]),
            digits > 0 ==> exists|i: int| 0 <= i < k - a && crate::text::is_ascii_digit(#[trigger] t[i]),
        decreases e - k,
    {
        let c = v[k];
        assert(t[k - a] == c);
        if c == '.' {
            if dots == 1 {
                proof {
                    let i = choose|i: int| 0 <= i < k - a && t[i] == '.';
                    assert(t[i] == '.' && t[k - a] == '.');
                }
                return false;
            }
            dots = 1;
        } else if '0' <= c && c <= '9' {
            if digits == 0 {
                digits = 1;
            }
        } else {
            return false;
        }
        k += 1;
    }
    if digits == 0 {
        return false;
    }
    true
}

/// The score text of a page.
fn page_score_exec(s: &Vec<char>) -> (r: Option<String>)
    ensures
        match page_score(s@) {
            Some(t) => r matches Some(sc) && sc@ == t,
            None => r is None,
        },
{
    let k = chars_of("score:");
    match find_key_run(s, &k, CharClass::DigitOrDot, false) {
        Some((a, e)) => {
            if is_decimal_literal_exec(s, a, e) {
                Some(crate::text::string_of(s, a, e))
            } else {
                None
            }
        },
        None => None,
    }
}

/// Whether the category pattern matches at `i`; if so, the span of the name.
fn category_name_exec(s: &Vec<char>, i: usize) -> (r: Option<(usize, usize)>)
    requires
        i <= s.len(),
    ensures
        r is None ==> !category_name_at(s@, i as int),
        r matches Some((b, e)) ==> category_name_at(s@, i as int) && b == run_end(s@, i + "category:{id:"@.len(),
            CharClass::Digit) + ",name:\""@.len() && e == run_end(s@, b as int, CharClass::NotQuote),
{
    let key = chars_of("category:{id:");
    let mid = chars_of(",name:\"");
    if !occurs_at_exec(s, i, &key) {
        return None;
    }
    let a = i + key.len();
    let d = scan_run(s, a, CharClass::Digit);
    if d == a || !occurs_at_exec(s, d, &mid) {
        return None;
    }
    let b = d + mid.len();
    let e = scan_run(s, b, CharClass::NotQuote);
    if e == b || e == s.len() {
        return None;
    }
    Some((b, e))
}

/// The category name of a page.
fn page_category_name_exec(s: &Vec<char>) -> (r: Option<String>)
    ensures
        match page_category_name(s@) {
            Some(n) => r matches Some(t) && t@ == n,
            None => r is None,
        },
{
    let ghost p = |i: int| category_name_at(s@, i);
    let mut i: usize = 0;
    loop
        invariant
            i <= s.len(),
            p == (|i: int| category_name_at(s@, i)),
            forall|j: int| 0 <= j < i ==> !#[trigger] p(j),
        decreases s.len() - i,
    {
        match category_name_exec(s, i) {
            Some((b, e)) => {
                proof {
                    lemma_first_where_is(p, 0, s@.len() + 1int, i as int);
                }
                return Some(crate::text::string_of(s, b, e));
            },
            None => {},
        }
        if i == s.len() {
            proof {
                lemma_first_where_none(p, 0, s@.len() + 1int);
            }
            return None;
        }
        i += 1;
    }
}

/// Reads the anime's metadata from its page.
fn extract_anime_metadata(s: &Vec<char>) -> (r: AnimeMetadata)
    ensures
        metadata_of(r, s@),
{
    let episodes_count = key_number_exec(s, "episodesCount:");
    let score = page_score_exec(s);
    let category = match page_category_name_exec(s) {
        Some(n) => {
            let c = AnimeCategory::from_name(n.as_str());
            proof {
                reveal_strlit("TV Anime");
                reveal_strlit("tv-anime");
                reveal_strlit("Movie");
                reveal_strlit("movie");
                reveal_strlit("OVA");
                reveal_strlit("ova");
                reveal_strlit("Special");
                reveal_strlit("special");
            }
            Some(c)
        },
        None => None,
    };
    let mal_id = key_number_exec(s, "malId:");
    AnimeMetadata { episodes_count, score, category, mal_id }
}

/// Whether the episodes pattern matches at `i`; if so, the end of the capture.
fn episodes_block_exec_at(s: &Vec<char>, i: usize) -> (r: Option<usize>)
    requires
        i <= s.len(),
    ensures
        r is None ==> !episodes_block_at(s@, i as int),
        r matches Some(e) ==> episodes_block_at(s@, i as int) && e == run_end(s@, i + "episodes:["@.len() + 1,
            CharClass::NotCloseBracket),
{
    let key = chars_of("episodes:[{");
    proof {
        lemma_episodes_keys();
    }
    if !occurs_at_exec(s, i, &key) {
        return None;
    }
    let a = i + 10;
    let e = scan_run(s, a + 1, CharClass::NotCloseBracket);
    if e < s.len() && e - a >= 3 && s[e - 1] == '}' {
        Some(e)
    } else {
        None
    }
}

proof fn lemma_episodes_keys()
    ensures
        "episodes:["@.len() == 10,
        "episodes:[{"@.len() == 11,
{
    reveal_strlit("episodes:[");
    reveal_strlit("episodes:[{");
}

/// The span of the episodes block found by the pattern.
fn episodes_block_by_pattern_exec(s: &Vec<char>) -> (r: Option<(usize, usize)>)
    ensures
        r is None ==> episodes_block_by_pattern(s@) is None,
        r matches Some((a, e)) ==> a <= e <= s.len() && episodes_block_by_pattern(s@) == Some(s@.subrange(a as int, e as int)),
{
    proof {
        lemma_episodes_keys();
    }
    let ghost p = |i: int| episodes_block_at(s@, i);
    let mut i: usize = 0;
    loop
        invariant
            i <= s.len(),
            "episodes:["@.len() == 10,
            p == (|i: int| episodes_block_at(s@, i)),
            forall|j: int| 0 <= j < i ==> !#[trigger] p(j),
        decreases s.len() - i,
    {
        match episodes_block_exec_at(s, i) {
            Some(e) => {
                proof {
                    lemma_first_where_is(p, 0, s@.len() + 1int, i as int);
                }
                return Some((i + 10, e));
            },
            None => {},
        }
        if i == s.len() {
            proof {
                lemma_first_where_none(p, 0, s@.len() + 1int);
            }
            return None;
        }
        i += 1;
    }
}

/// The span of the episodes block found by bracket counting.
fn episodes_block_by_brackets_exec(s: &Vec<char>) -> (r: Option<(usize, usize)>)
    ensures
        r is None ==> episodes_block_by_brackets(s@) is None,
        r matches Some((a, e)) ==> a <= e <= s.len() && episodes_block_by_brackets(s@) == Some(s@.subrange(a as int, e as int)),
{
    let key = chars_of("episodes:[");
    proof {
        lemma_episodes_keys();
    }
    match find_from_exec(s, &key, 0) {
        None => None,
        Some(p) => {
            assert(p + 10 <= s.len());
            let start = p + 10;
            match close_index_exec(s, start, 1, '[', ']') {
                None => None,
                Some(j) => {
                    if j > start {
                        Some((start, j))
                    } else {
                        None
                    }
                },
            }
        },
    }
}

/// The episodes block of a page found by bracket counting from the first
/// `episodes:[` (see `episodes_block_by_brackets`), used when the pattern
/// does not match.
pub fn extract_episodes_block_fallback(html: &str) -> (r: Option<String>)
    ensures
        match episodes_block_by_brackets(html@) {
            Some(b) => r matches Some(t) && t@ == b,
            None => r is None,
        },
{
    let s = chars_of(html);
    match episodes_block_by_brackets_exec(&s) {
        Some((a, e)) => Some(string_of(&s, a, e)),
        None => None,
    }
}

/// The episodes block of a page (see `episodes_block`).
fn episodes_block_exec(s: &Vec<char>) -> (r: Vec<char>)
    ensures
        r@ == episodes_block(s@),
{
    match episodes_block_by_pattern_exec(s) {
        Some((a, e)) => sub_vec(s, a, e),
        None => match episodes_block_by_brackets_exec(s) {
            Some((a, e)) => sub_vec(s, a, e),
            None => Vec::new(),
        },
    }
}

/// Whether an entry matches at `i`; if so, its spans.
fn episode_entry_exec(s: &Vec<char>, i: usize) -> (r: Option<(usize, usize, usize, usize)>)
    requires
        i <= s.len(),
    ensures
        r is None ==> !episode_entry_at(s@, i as int),
        r matches Some((a, d1, b, d2)) ==> {
            &&& episode_entry_at(s@, i as int)
            &&& a == id_start(i as int)
            &&& d1 == id_end(s@, i as int)
            &&& b == number_start(s@, i as int)
            &&& d2 == number_end(s@, i as int)
        },
{
    proof {
        reveal_strlit("{id:");
        reveal_strlit(",number:");
        reveal_strlit("}");
    }
    let key = chars_of("{id:");
    let mid = chars_of(",number:");
    let tail = chars_of("}");
    if !occurs_at_exec(s, i, &key) {
        return None;
    }
    let a = i + key.len();
    let d1 = scan_run(s, a, CharClass::Digit);
    if d1 == a || !occurs_at_exec(s, d1, &mid) {
        return None;
    }
    let b = d1 + mid.len();
    let d2 = scan_run(s, b, CharClass::Digit);
    if d2 == b || !occurs_at_exec(s, d2, &tail) {
        return None;
    }
    Some((a, d1, b, d2))
}

/// The next entry at or after `pos`, with its spans.
fn next_episode_entry_exec(s: &Vec<char>, pos: usize) -> (r: Option<(usize, usize, usize, usize)>)
    requires
        pos <= s.len(),
    ensures
        r is None ==> next_episode_entry(s@, pos as int) is None,
        r matches Some((a, d1, b, d2)) ==> {
            &&& next_episode_entry(s@, pos as int) matches Some(i)
            &&& a == id_start(i)
            &&& d1 == id_end(s@, i)
            &&& b == number_start(s@, i)
            &&& d2 == number_end(s@, i)
        },
{
    let ghost p = |i: int| episode_entry_at(s@, i);
    let mut i = pos;
    loop
        invariant
            pos <= i <= s.len(),
            p == (|i: int| episode_entry_at(s@, i)),
            forall|j: int| pos <= j < i ==> !#[trigger] p(j),
        decreases s.len() - i,
    {
        let found = episode_entry_exec(s, i);
        if found.is_some() {
            proof {
                lemma_first_where_is(p, pos as int, s@.len() + 1int, i as int);
            }
            return found;
        }
        if i == s.len() {
            proof {
                lemma_first_where_none(p, pos as int, s@.len() + 1int);
            }
            return None;
        }
        i += 1;
    }
}

/// The `(id, number)` pairs of the entries of the block `b`.
#[verifier::spinoff_prover]
#[verifier::rlimit(40)]
fn episode_pairs(b: &Vec<char>) -> (r: Vec<(u32, u32)>)
    ensures
        r@ == episode_pairs_from(b@, 0),
{
    let mut out: Vec<(u32, u32)> = Vec::new();
    let mut pos: usize = 0;
    loop
        invariant
            pos <= b.len(),
            episode_pairs_from(b@, 0) == out@ + episode_pairs_from(b@, pos as int),
        decreases b.len() + 1 - pos,
    {
        proof {
            lemma_episode_pairs_step(b@, pos as int);
        }
        match next_episode_entry_exec(b, pos) {
            None => {
                assert(out@ + episode_pairs_from(b@, pos as int) =~= out@);
                return out;
            },
            Some((a, d1, bb, d2)) => {
                let id = parse_u32_exec(b, a, d1);
                let number = parse_u32_exec(b, bb, d2);
                let ghost before = out@;
                match (id, number) {
                    (Some(i), Some(n)) => {
                        out.push((i, n));
                        assert(out@ + episode_pairs_from(b@, d2 + 1) =~= before + (seq![(i, n)] + episode_pairs_from(b@, d2 + 1)));
                    },
                    _ => {},
                }
                pos = d2 + 1;
            },
        }
    }
}

proof fn lemma_insert_to_multiset<A>(s: Seq<A>, pos: int, x: A)
    requires
        0 <= pos <= s.len(),
    ensures
        s.insert(pos, x).to_multiset() =~= s.to_multiset().insert(x),
{
    let t = s.insert(pos, x);
    assert(t.remove(pos) =~= s);
    assert(t[pos] == x);
    assert(t.contains(x));
    assert(s.to_multiset() =~= t.to_multiset().remove(x));
}

/// `v` ordered by number (stable insertion sort).
#[verifier::spinoff_prover]
fn sort_by_number(v: &Vec<(u32, u32)>) -> (r: Vec<(u32, u32)>)
    ensures
        r@ == sorted_pairs(v@),
        sorted_by_number(r@),
        r@.to_multiset() == v@.to_multiset(),
{
    let mut out: Vec<(u32, u32)> = Vec::new();
    let mut k: usize = 0;
    while k < v.len()
        invariant
            k <= v.len(),
            sorted_by_number(out@),
            out@ == sorted_pairs(v@.subrange(0, k as int)),
            out@.to_multiset() == v@.subrange(0, k as int).to_multiset(),
        decreases v.len() - k,
    {
        let x = v[k];
        let mut pos: usize = 0;
        while pos < out.len() && out[pos].1 <= x.1
            invariant
                pos <= out.len(),
                forall|j: int| 0 <= j < pos ==> out@[j].1 <= x.1,
            decreases out.len() - pos,
        {
            pos += 1;
        }
        let ghost before = out@;
        proof {
            let q = |j: int| 0 <= j < before.len() && before[j].1 > x.1;
            if pos < before.len() {
                lemma_first_where_is(q, 0, before.len() as int, pos as int);
            } else {
                lemma_first_where_none(q, 0, before.len() as int);
            }
            assert(insert_pos(before, x) == pos);
            assert(v@.subrange(0, k + 1).drop_last() =~= v@.subrange(0, k as int));
            assert(v@.subrange(0, k + 1).last() == x);
            lemma_insert_to_multiset(before, pos as int, x);
            assert(v@.subrange(0, k + 1) =~= v@.subrange(0, k as int).push(x));
        }
        out.insert(pos, x);
        proof {
            assert(out@ == before.insert(pos as int, x));
            assert forall|i: int, j: int| 0 <= i < j < out@.len() implies out@[i].1 <= out@[j].1 by {
                if j < pos {
                } else if j == pos {
                    assert(out@[i] == before[i]);
                } else if i < pos {
                    assert(out@[j] == before[j - 1]);
                    assert(before[i].1 <= x.1);
                    if pos < before.len() {
                        assert(before[pos as int].1 > x.1);
                    }
                } else if i == pos {
                    assert(out@[j] == before[j - 1]);
                    assert(before[pos as int].1 > x.1);
                } else {
                    assert(out@[j] == before[j - 1]);
                    assert(out@[i] == before[i - 1]);
                }
            }
        }
        k += 1;
    }
    assert(v@.subrange(0, v@.len() as int) =~= v@);
    out
}

/// Reads the episodes and the metadata of an anime from its page.
///
/// Finds the `episodes:[...]` block (by the pattern, else by bracket
/// counting), reads each `{id:N,number:M}` entry whose numbers are `u32`,
/// and orders the episodes by number. A page without a block gives no
/// episodes; reading never fails.
pub fn parse_episodes_from_html(html: &str, anime_slug: &str) -> (r: (Vec<Episode>, AnimeMetadata))
    ensures
        episodes_of_pairs(r.0@, page_episode_pairs(html@), anime_slug@),
        metadata_of(r.1, html@),
{
    let s = chars_of(html);
    let metadata = extract_anime_metadata(&s);
    let block = episodes_block_exec(&s);
    let pairs = episode_pairs(&block);
    let sorted = sort_by_number(&pairs);
    let mut episodes: Vec<Episode> = Vec::new();
    let mut k: usize = 0;
    while k < sorted.len()
        invariant
            k <= sorted.len(),
            episodes@.len() == k,
            episode_keys(episodes@) == sorted@.subrange(0, k as int),
            forall|j: int| 0 <= j < k ==> (#[trigger] episodes@[j]).anime_slug@ == anime_slug@,
        decreases sorted.len() - k,
    {
        let (id, number) = sorted[k];
        let slug = crate::text::to_string(anime_slug);
        episodes.push(Episode { id, number, anime_slug: slug });
        assert(episode_keys(episodes@) =~= sorted@.subrange(0, k + 1));
        k += 1;
    }
    assert(sorted@.subrange(0, sorted@.len() as int) =~= sorted@);
    (episodes, metadata)
}

/// The URL of an anime's page: `{BASE_URL}/media/{slug}`.
pub fn anime_page_url(slug: &str) -> (r: String)
    ensures
        r@ == media_url(BASE_URL@, slug@),
{
    let mut r = to_string(BASE_URL);
    push_str(&mut r, "/media/");
    push_str(&mut r, slug);
    assert(r@ =~= media_url(BASE_URL@, slug@));
    r
}

/// Reads the episodes of `anime` from its page (see
/// `parse_episodes_from_html`) and records on `anime` the number of
/// episodes and the score that the page gives; what the page does not give
/// stays as it was, and nothing else changes.
pub fn get_episodes(anime: &mut Anime, html: &str) -> (r: Vec<Episode>)
    ensures
        episodes_of_pairs(r@, page_episode_pairs(html@), old(anime).slug@),
        final(anime).episodes_count == match key_number(html@, "episodesCount:"@) {
            Some(n) => Some(n),
            None => old(anime).episodes_count,
        },
        opt_chars(final(anime).score) == match page_score(html@) {
            Some(t) => Some(t),
            None => opt_chars(old(anime).score),
        },
        *final(anime) == (Anime {
            episodes_count: final(anime).episodes_count,
            score: final(anime).score,
            ..*old(anime)
        }),
{
    let (episodes, metadata) = parse_episodes_from_html(html, anime.slug.as_str());
    if let Some(count) = metadata.episodes_count {
        anime.episodes_count = Some(count);
    }
    if let Some(score) = metadata.score {
        anime.score = Some(score);
    }
    episodes
}


/// The score kept from a page is the text that `score:` is followed by,
/// exactly when that text reads as a float: a whole number of ASCII digits
/// (`8`) is kept, and so are digits with one decimal point (`8.7`, `.5`,
/// `8.`); a text with two points (`8.7.1`), with no digit (`.`) or with a
/// digit that is not ASCII is dropped; and a page where `score:` is not
/// followed by a digit or a point has no score.
pub proof fn law_page_score(html: Seq<char>, t: Seq<char>, a: Seq<char>, b: Seq<char>)
    ensures
        key_run_capture(html, "score:"@, CharClass::DigitOrDot, false) is None ==> page_score(html) is None,
        key_run_capture(html, "score:"@, CharClass::DigitOrDot, false) == Some(t) ==> {
            &&& (t.len() > 0 && (forall|i: int| 0 <= i < t.len() ==> crate::text::is_ascii_digit(#[trigger] t[i])))
                ==> page_score(html) == Some(t)
            &&& (t == a + seq!['.'] + b && a.len() + b.len() > 0 && (forall|i: int|
                0 <= i < a.len() ==> crate::text::is_ascii_digit(#[trigger] a[i])) && (forall|i: int|
                0 <= i < b.len() ==> crate::text::is_ascii_digit(#[trigger] b[i]))) ==> page_score(html) == Some(t)
            &&& (exists|i: int, j: int| 0 <= i < j < t.len() && t[i] == '.' && t[j] == '.') ==> page_score(html)
                is None
            &&& (forall|i: int| 0 <= i < t.len() ==> !crate::text::is_ascii_digit(#[trigger] t[i])) ==> page_score(
                html,
            ) is None
            &&& (exists|i: int| 0 <= i < t.len() && t[i] != '.' && !crate::text::is_ascii_digit(#[trigger] t[i]))
                ==> page_score(html) is None
        },
{
    if key_run_capture(html, "score:"@, CharClass::DigitOrDot, false) == Some(t) {
        if t.len() > 0 && (forall|i: int| 0 <= i < t.len() ==> crate::text::is_ascii_digit(#[trigger] t[i])) {
            assert(crate::text::is_ascii_digit(t[0]));
            assert(is_decimal_literal(t));
        }
        if t == a + seq!['.'] + b && a.len() + b.len() > 0 && (forall|i: int|
            0 <= i < a.len() ==> crate::text::is_ascii_digit(#[trigger] a[i])) && (forall|i: int|
            0 <= i < b.len() ==> crate::text::is_ascii_digit(#[trigger] b[i])) {
            assert forall|i: int| 0 <= i < t.len() implies (#[trigger] t[i] == '.' || crate::text::is_ascii_digit(
                t[i],
            )) by {
                if i < a.len() {
                    assert(t[i] == a[i]);
                } else if i > a.len() {
                    assert(t[i] == b[i - a.len() - 1]);
                }
            }
            assert forall|i: int, j: int| 0 <= i < j < t.len() && t[i] == '.' implies t[j] != '.' by {
                if i < a.len() {
                    assert(t[i] == a[i]);
                } else if i > a.len() {
                    assert(t[i] == b[i - a.len() - 1]);
                }
                assert(t[j] == b[j - a.len() - 1]);
            }
            if a.len() > 0 {
                assert(crate::text::is_ascii_digit(t[0]));
            } else {
                assert(t[a.len() as int + 1] == b[0]);
                assert(crate::text::is_ascii_digit(t[a.len() as int + 1]));
            }
        }
    }
}

} // verus!
