//! The video sources of an episode, read from the HTML of its page
//! `/media/{slug}/{number}`.
//!
//! The page embeds the sources as a JavaScript literal:
//! `embeds:{SUB:[{server:"HLS",url:"..."},...],DUB:[...]}`.

use vstd::prelude::*;

use crate::config::BASE_URL;
use crate::structs::{media_url, AudioType, EpisodeSources, VideoSource};
use crate::text::{
    chars_of, close_index, close_index_exec, find_from, find_from_exec, find_key_lazy, find_key_run,
    first_where, key_lazy_pos, key_run_pos, lazy_end, lemma_first_where, lemma_first_where_is,
    lemma_first_where_none, lemma_run_end, occurs_at, occurs_at_exec, run_end, scan_run, starts_with,
    string_of, sub_vec, decimal, push_decimal, push_str, to_string, CharClass,
};

verus! {

// ————————————————————————————————————————————————
// The grammar of the embeds block
// ————————————————————————————————————————————————

/// What the pattern `embeds:\{(.*?)\},downloads:` captures at its leftmost match.
pub open spec fn embeds_by_pattern(s: Seq<char>) -> Option<Seq<char>> {
    match key_lazy_pos(s, "embeds:{"@, 0, "},downloads:"@) {
        Some(i) => {
            let a = i + "embeds:{"@.len();
            Some(s.subrange(a, lazy_end(s, a, 0, "},downloads:"@)->0))
        },
        None => None,
    }
}

/// The embeds block found by brace counting from the first `embeds:{`:
/// the text between that brace and the brace that closes it.
pub open spec fn embeds_by_braces(s: Seq<char>) -> Option<Seq<char>> {
    match find_from(s, "embeds:{"@, 0) {
        Some(p) => {
            let start = p + "embeds:{"@.len() - 1;
            match close_index(s, start, 0, '{', '}') {
                Some(j) => Some(s.subrange(start + 1, j)),
                None => None,
            }
        },
        None => None,
    }
}

/// The content of the embeds block of a page: by the pattern, else by brace
/// counting, else empty.
pub open spec fn embeds_content(s: Seq<char>) -> Seq<char> {
    match embeds_by_pattern(s) {
        Some(c) => c,
        None => match embeds_by_braces(s) {
            Some(c) => c,
            None => Seq::empty(),
        },
    }
}

/// The key that opens the list of sources with the given audio.
pub open spec fn audio_key(audio: AudioType) -> Seq<char> {
    match audio {
        AudioType::Sub => "SUB:["@,
        AudioType::Dub => "DUB:["@,
    }
}

/// What `SUB:\[([^\]]+)\]` (or the `DUB` one) captures in the embeds block.
pub open spec fn audio_block(content: Seq<char>, audio: AudioType) -> Option<Seq<char>> {
    match key_run_pos(content, audio_key(audio), CharClass::NotCloseBracket, true) {
        Some(i) => {
            let a = i + audio_key(audio).len();
            Some(content.subrange(a, run_end(content, a, CharClass::NotCloseBracket)))
        },
        None => None,
    }
}

/// `{server:"` at `i`: where the server name starts.
pub open spec fn server_start(i: int) -> int {
    i + "{server:\""@.len()
}

/// Where the server name that starts at `server_start(i)` ends.
pub open spec fn server_end(s: Seq<char>, i: int) -> int {
    run_end(s, server_start(i), CharClass::NotQuote)
}

/// Where the url starts.
pub open spec fn url_start(s: Seq<char>, i: int) -> int {
    server_end(s, i) + "\",url:\""@.len()
}

/// Where the url ends.
pub open spec fn url_end(s: Seq<char>, i: int) -> int {
    run_end(s, url_start(s, i), CharClass::NotQuote)
}

/// The pattern `\{server:"([^"]+)",url:"([^"]+)"\}` matches at `i`.
pub open spec fn source_entry_at(s: Seq<char>, i: int) -> bool {
    &&& occurs_at(s, i, "{server:\""@)
    &&& server_end(s, i) > server_start(i)
    &&& occurs_at(s, server_end(s, i), "\",url:\""@)
    &&& url_end(s, i) > url_start(s, i)
    &&& occurs_at(s, url_end(s, i), "\"}"@)
}

/// Where the match at `i` ends.
pub open spec fn source_entry_end(s: Seq<char>, i: int) -> int {
    url_end(s, i) + "\"}"@.len()
}

/// The next match of the source pattern at or after `pos`.
pub open spec fn next_source_entry(s: Seq<char>, pos: int) -> Option<int> {
    first_where(|i: int| source_entry_at(s, i), pos, s.len() + 1int)
}

pub proof fn lemma_source_entry_bounds(s: Seq<char>, i: int)
    requires
        source_entry_at(s, i),
    ensures
        i < server_start(i) < server_end(s, i) < url_start(s, i) < url_end(s, i) < source_entry_end(s, i) <= s.len(),
{
    reveal_strlit("{server:\"");
    reveal_strlit("\",url:\"");
    reveal_strlit("\"}");
    lemma_run_end(s, server_start(i), CharClass::NotQuote);
    lemma_run_end(s, url_start(s, i), CharClass::NotQuote);
}

/// The `(server, url)` pairs that the source pattern captures in `s[pos..]`,
/// left to right without overlap, keeping those whose url starts with `http`.
#[verifier::opaque]
pub open spec fn source_pairs_from(s: Seq<char>, pos: int) -> Seq<(Seq<char>, Seq<char>)>
    decreases s.len() + 1 - pos,
{
    if pos < 0 || pos > s.len() {
        Seq::empty()
    } else {
        match next_source_entry(s, pos) {
            Some(i) => {
                proof {
                    lemma_first_where(|i: int| source_entry_at(s, i), pos, s.len() + 1int);
                    lemma_source_entry_bounds(s, i);
                }
                let server = s.subrange(server_start(i), server_end(s, i));
                let url = s.subrange(url_start(s, i), url_end(s, i));
                let rest = source_pairs_from(s, source_entry_end(s, i));
                if starts_with(url, "http"@) {
                    seq![(server, url)] + rest
                } else {
                    rest
                }
            },
            None => Seq::empty(),
        }
    }
}

pub proof fn lemma_source_pairs_step(s: Seq<char>, pos: int)
    requires
        0 <= pos <= s.len(),
    ensures
        next_source_entry(s, pos) is None ==> source_pairs_from(s, pos) == Seq::<(Seq<char>, Seq<char>)>::empty(),
        next_source_entry(s, pos) matches Some(i) ==> {
            let server = s.subrange(server_start(i), server_end(s, i));
            let url = s.subrange(url_start(s, i), url_end(s, i));
            let rest = source_pairs_from(s, source_entry_end(s, i));
            &&& pos <= i
            &&& source_entry_at(s, i)
            &&& i < server_start(i) < server_end(s, i) < url_start(s, i) < url_end(s, i) < source_entry_end(s, i) <= s.len()
            &&& source_pairs_from(s, pos) == if starts_with(url, "http"@) {
                seq![(server, url)] + rest
            } else {
                rest
            }
        },
{
    reveal(source_pairs_from);
    lemma_first_where(|i: int| source_entry_at(s, i), pos, s.len() + 1int);
    if let Some(i) = next_source_entry(s, pos) {
        lemma_source_entry_bounds(s, i);
    }
}

/// The sources with the given audio that a page's embeds block lists: each
/// pair of `source_pairs_from` of the audio block, with that audio and no
/// quality.
pub open spec fn block_sources(content: Seq<char>, audio: AudioType) -> Seq<(Seq<char>, Seq<char>)> {
    match audio_block(content, audio) {
        Some(b) => source_pairs_from(b, 0),
        None => Seq::empty(),
    }
}

/// `v` is the source made of the pair `p` with the given audio.
pub open spec fn source_from_pair(v: VideoSource, p: (Seq<char>, Seq<char>), audio: AudioType) -> bool {
    &&& v.server@ == p.0
    &&& v.url@ == p.1
    &&& v.audio == audio
    &&& v.quality is None
}

/// `vs` are the sources made of the pairs `ps`, in order.
pub open spec fn sources_from_pairs(vs: Seq<VideoSource>, ps: Seq<(Seq<char>, Seq<char>)>, audio: AudioType) -> bool {
    &&& vs.len() == ps.len()
    &&& forall|j: int| 0 <= j < vs.len() ==> source_from_pair(#[trigger] vs[j], ps[j], audio)
}

// ————————————————————————————————————————————————
// Executable parsing
// ————————————————————————————————————————————————

/// Whether the source pattern matches at `i`; if so, the spans of the
/// server and the url and the end of the match.
fn source_entry_exec(s: &Vec<char>, i: usize) -> (r: Option<(usize, usize, usize, usize, usize)>)
    requires
        i <= s.len(),
    ensures
        r is None ==> !source_entry_at(s@, i as int),
        r matches Some((a, e1, b, e2, end)) ==> {
            &&& source_entry_at(s@, i as int)
            &&& a == server_start(i as int)
            &&& e1 == server_end(s@, i as int)
            &&& b == url_start(s@, i as int)
            &&& e2 == url_end(s@, i as int)
            &&& end == source_entry_end(s@, i as int)
        },
{
    proof {
        reveal_strlit("{server:\"");
        reveal_strlit("\",url:\"");
        reveal_strlit("\"}");
    }
    let key = chars_of("{server:\"");
    let mid = chars_of("\",url:\"");
    let tail = chars_of("\"}");
    if !occurs_at_exec(s, i, &key) {
        return None;
    }
    let a = i + key.len();
    let e1 = scan_run(s, a, CharClass::NotQuote);
    if e1 == a || !occurs_at_exec(s, e1, &mid) {
        return None;
    }
    let b = e1 + mid.len();
    let e2 = scan_run(s, b, CharClass::NotQuote);
    if e2 == b || !occurs_at_exec(s, e2, &tail) {
        return None;
    }
    Some((a, e1, b, e2, e2 + tail.len()))
}

/// The next match of the source pattern at or after `pos`, with its spans.
fn next_source_entry_exec(s: &Vec<char>, pos: usize) -> (r: Option<(usize, usize, usize, usize, usize)>)
    requires
        pos <= s.len(),
    ensures
        r is None ==> next_source_entry(s@, pos as int) is None,
        r matches Some((a, e1, b, e2, end)) ==> {
            &&& next_source_entry(s@, pos as int) matches Some(i)
            &&& a == server_start(i)
            &&& e1 == server_end(s@, i)
            &&& b == url_start(s@, i)
            &&& e2 == url_end(s@, i)
            &&& end == source_entry_end(s@, i)
        },
{
    let ghost p = |i: int| source_entry_at(s@, i);
    let mut i = pos;
    loop
        invariant
            pos <= i <= s.len(),
            p == (|i: int| source_entry_at(s@, i)),
            forall|j: int| pos <= j < i ==> !#[trigger] p(j),
        decreases s.len() - i,
    {
        let found = source_entry_exec(s, i);
        if found.is_some() {
            proof {
                lemma_first_where_is(p, pos as int, s@.len() + 1int, i as int);
            }
            return found;
        }
        if i == s.len() {
            proof {
                lemma_first_where_none(p, pos as int, s@.len() + 1int);
            }
            return None;
        }
        i += 1;
    }
}

/// The sources with the given audio listed by the block `b`.
#[verifier::spinoff_prover]
#[verifier::rlimit(40)]
fn sources_in_block(b: &Vec<char>, audio: AudioType) -> (r: Vec<VideoSource>)
    ensures
        sources_from_pairs(r@, source_pairs_from(b@, 0), audio),
{
    let mut out: Vec<VideoSource> = Vec::new();
    let ghost mut done: Seq<(Seq<char>, Seq<char>)> = Seq::empty();
    let mut pos: usize = 0;
    let http = chars_of("http");
    loop
        invariant
            pos <= b.len(),
            http@ == "http"@,
            sources_from_pairs(out@, done, audio),
            source_pairs_from(b@, 0) == done + source_pairs_from(b@, pos as int),
        decreases b.len() + 1 - pos,
    {
        proof {
            lemma_source_pairs_step(b@, pos as int);
        }
        match next_source_entry_exec(b, pos) {
            None => {
                assert(done + source_pairs_from(b@, pos as int) =~= done);
                return out;
            },
            Some((a, e1, bb, e2, end)) => {
                let ghost server = b@.subrange(a as int, e1 as int);
                let ghost url = b@.subrange(bb as int, e2 as int);
                let url_v = sub_vec(b, bb, e2);
                if occurs_at_exec(&url_v, 0, &http) {
                    let src = VideoSource {
                        server: string_of(b, a, e1),
                        url: string_of(b, bb, e2),
                        audio: audio,
                        quality: None,
                    };
                    proof {
                        let old_done = done;
                        done = done.push((server, url));
                        assert(done + source_pairs_from(b@, end as int) =~= old_done + (seq![(server, url)]
                            + source_pairs_from(b@, end as int)));
                    }
                    out.push(src);
                }
                pos = end;
            },
        }
    }
}

/// The sources with the given audio listed by the embeds block content.
fn extract_sources_from_block(content: &Vec<char>, audio: AudioType) -> (r: Vec<VideoSource>)
    ensures
        sources_from_pairs(r@, block_sources(content@, audio), audio),
{
    let key = match audio {
        AudioType::Sub => chars_of("SUB:["),
        AudioType::Dub => chars_of("DUB:["),
    };
    match find_key_run(content, &key, CharClass::NotCloseBracket, true) {
        None => Vec::new(),
        Some((a, e)) => {
            let block = sub_vec(content, a, e);
            sources_in_block(&block, audio)
        },
    }
}

/// The span of the embeds block found by the pattern.
fn embeds_by_pattern_exec(s: &Vec<char>) -> (r: Option<(usize, usize)>)
    ensures
        r is None ==> embeds_by_pattern(s@) is None,
        r matches Some((a, e)) ==> a <= e <= s.len() && embeds_by_pattern(s@) == Some(s@.subrange(a as int, e as int)),
{
    let key = chars_of("embeds:{");
    let term = chars_of("},downloads:");
    match find_key_lazy(s, &key, 0, &term) {
        Some((i, e)) => {
            proof {
                lemma_first_where(|e: int| occurs_at(s@, e, term@) && crate::text::no_newline(s@, i + key@.len(), e), i + key@.len(), s@.len() + 1int);
            }
            Some((i + key.len(), e))
        },
        None => None,
    }
}

/// The span of the embeds block found by brace counting.
fn embeds_by_braces_exec(s: &Vec<char>) -> (r: Option<(usize, usize)>)
    ensures
        r is None ==> embeds_by_braces(s@) is None,
        r matches Some((a, e)) ==> a <= e <= s.len() && embeds_by_braces(s@) == Some(s@.subrange(a as int, e as int)),
{
    let key = chars_of("embeds:{");
    proof {
        lemma_embeds_key();
    }
    match find_from_exec(s, &key, 0) {
        None => None,
        Some(p) => {
            assert(key@.len() == 8);
            assert(p + 8 <= s.len());
            let start = p + 7;
            match close_index_exec(s, start, 0, '{', '}') {
                None => None,
                Some(j) => {
                    proof {
                        // the brace at `start` opens, so it does not close
                        crate::text::lemma_occurs_at_index(s@, p as int, key@, 7);
                    }
                    Some((start + 1, j))
                },
            }
        },
    }
}

/// The content of the embeds block of a page found by brace counting
/// from the first `embeds:{` (see `embeds_by_braces`), used when the
/// pattern does not match.
pub fn extract_embeds_block_fallback(html: &str) -> (r: Option<String>)
    ensures
        match embeds_by_braces(html@) {
            Some(b) => r matches Some(t) && t@ == b,
            None => r is None,
        },
{
    let s = chars_of(html);
    match embeds_by_braces_exec(&s) {
        Some((a, e)) => Some(string_of(&s, a, e)),
        None => None,
    }
}

proof fn lemma_embeds_key()
    ensures
        "embeds:{"@.len() == 8,
        "embeds:{"@[7] == '{',
{
    reveal_strlit("embeds:{");
}

/// The embeds block content of a page (see `embeds_content`).
fn embeds_content_exec(s: &Vec<char>) -> (r: Vec<char>)
    ensures
        r@ == embeds_content(s@),
{
    match embeds_by_pattern_exec(s) {
        Some((a, e)) => sub_vec(s, a, e),
        None => match embeds_by_braces_exec(s) {
            Some((a, e)) => sub_vec(s, a, e),
            None => Vec::new(),
        },
    }
}

/// Reads the video sources from the HTML of an episode page.
///
/// Finds the `embeds:{...}` block (by the pattern
/// `embeds:\{(.*?)\},downloads:`, else by brace counting), then the
/// `SUB:[...]` and `DUB:[...]` lists in it, then each
/// `{server:"...",url:"..."}` pair, keeping the urls that start with
/// `http`. Reading never fails: a page without sources gives empty lists.
pub fn parse_sources_from_html(html: &str) -> (r: Result<EpisodeSources, ()>)
    ensures
        r matches Ok(srcs) && sources_from_pairs(srcs.sub@, block_sources(embeds_content(html@), AudioType::Sub), AudioType::Sub)
            && sources_from_pairs(srcs.dub@, block_sources(embeds_content(html@), AudioType::Dub), AudioType::Dub),
{
    let s = chars_of(html);
    let content = embeds_content_exec(&s);
    let sub = extract_sources_from_block(&content, AudioType::Sub);
    let dub = extract_sources_from_block(&content, AudioType::Dub);
    Ok(EpisodeSources { sub, dub })
}

/// The URL of an episode's page: `{BASE_URL}/media/{slug}/{number}`.
pub fn episode_page_url(anime_slug: &str, episode_number: u32) -> (r: String)
    ensures
        r@ == media_url(BASE_URL@, anime_slug@) + "/"@ + decimal(episode_number as nat),
{
    let mut r = to_string(BASE_URL);
    push_str(&mut r, "/media/");
    push_str(&mut r, anime_slug);
    push_str(&mut r, "/");
    push_decimal(&mut r, episode_number as u64);
    assert(r@ =~= media_url(BASE_URL@, anime_slug@) + "/"@ + decimal(episode_number as nat));
    r
}

} // verus!
