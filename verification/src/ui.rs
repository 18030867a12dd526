//! The text that the screens show, apart from how they draw it.

use vstd::prelude::*;

use crate::logger::pad_right;
use crate::structs::{mpv_compatible_server, AnimeCategory, Episode, VideoSource};
use crate::text::{
    byte_prefix, chars_of, decimal, first_where, is_byte_boundary, lemma_first_where_is,
    lemma_first_where_none, occurs_at, occurs_at_exec, push_char, push_decimal, push_decimal_padded, push_str,
    str_byte_len, str_byte_prefix, str_is_byte_boundary, string_of, to_string, utf8_len, zero_pad,
};

verus! {

// ————————————————————————————————————————————————
// Shortening text to fit
// ————————————————————————————————————————————————

/// `s` cut to `max_len` characters: unchanged when it fits, else its first
/// `max_len - 1` characters and `…`.
pub open spec fn truncated(s: Seq<char>, max_len: nat) -> Seq<char> {
    if s.len() <= max_len {
        s
    } else {
        s.take(max_len - 1) + seq!['…']
    }
}

/// Shortens a title to `max_len` characters (see `truncated`). A text that
/// does not fit needs room for at least the `…`.
pub fn truncate_str(s: &str, max_len: usize) -> (r: String)
    requires
        s@.len() > max_len ==> max_len >= 1,
    ensures
        r@ == truncated(s@, max_len as nat),
{
    let v = chars_of(s);
    if v.len() <= max_len {
        return to_string(s);
    }
    let mut r = string_of(&v, 0, max_len - 1);
    push_char(&mut r, '…');
    assert(r@ =~= truncated(s@, max_len as nat));
    r
}

/// `s` without every leading repetition of `p`
/// (`str::trim_start_matches` with a string pattern).
pub open spec fn strip_prefixes(s: Seq<char>, p: Seq<char>) -> Seq<char>
    decreases s.len(),
{
    if p.len() > 0 && occurs_at(s, 0, p) {
        strip_prefixes(s.skip(p.len() as int), p)
    } else {
        s
    }
}

/// A URL without its leading `https://` and then `http://` prefixes.
pub open spec fn without_scheme(url: Seq<char>) -> Seq<char> {
    strip_prefixes(strip_prefixes(url, "https://"@), "http://"@)
}

/// A URL cut to `max_len` bytes: unchanged when it fits; else without its
/// scheme when that fits; else the first `max_len - 1` bytes of that and `…`.
pub open spec fn truncated_url(url: Seq<char>, max_len: nat) -> Seq<char> {
    if utf8_len(url) <= max_len {
        url
    } else if utf8_len(without_scheme(url)) <= max_len {
        without_scheme(url)
    } else {
        byte_prefix(without_scheme(url), max_len - 1) + seq!['…']
    }
}

/// A URL to be cut can be cut: room for the `…`, and a cut that falls
/// between characters (slicing a `str` panics otherwise).
pub open spec fn url_cut_ok(url: Seq<char>, max_len: nat) -> bool {
    (utf8_len(url) > max_len && utf8_len(without_scheme(url)) > max_len) ==> (max_len >= 1
        && is_byte_boundary(without_scheme(url), max_len - 1))
}

/// The index after the leading repetitions of `p` in `s` from `start`.
fn skip_prefixes(s: &Vec<char>, start: usize, p: &Vec<char>) -> (r: usize)
    requires
        start <= s.len(),
    ensures
        start <= r <= s.len(),
        s@.subrange(r as int, s@.len() as int) == strip_prefixes(s@.subrange(start as int, s@.len() as int), p@),
{
    let mut k = start;
    if p.len() == 0 {
        return k;
    }
    while occurs_at_exec(s, k, p)
        invariant
            start <= k <= s.len(),
            p@.len() > 0,
            strip_prefixes(s@.subrange(k as int, s@.len() as int), p@) == strip_prefixes(
                s@.subrange(start as int, s@.len() as int),
                p@,
            ),
        decreases s.len() - k,
    {
        let ghost t = s@.subrange(k as int, s@.len() as int);
        assert(occurs_at(t, 0, p@)) by {
            assert(t.subrange(0, p@.len() as int) =~= s@.subrange(k as int, k + p@.len()));
        }
        assert(t.skip(p@.len() as int) =~= s@.subrange(k + p@.len(), s@.len() as int));
        k = k + p.len();
    }
    let ghost t = s@.subrange(k as int, s@.len() as int);
    assert(!occurs_at(t, 0, p@)) by {
        if occurs_at(t, 0, p@) {
            assert(t.subrange(0, p@.len() as int) =~= s@.subrange(k as int, k + p@.len()));
        }
    }
    k
}

/// The part of a URL after its leading `https://` and `http://` prefixes.
fn without_scheme_exec(url: &str) -> (r: String)
    ensures
        r@ == without_scheme(url@),
{
    let v = chars_of(url);
    let https = chars_of("https://");
    let http = chars_of("http://");
    let a = skip_prefixes(&v, 0, &https);
    let b = skip_prefixes(&v, a, &http);
    assert(v@.subrange(0, v@.len() as int) =~= v@);
    string_of(&v, b, v.len())
}

/// Whether `truncate_url(url, max_len)` may be called (see `url_cut_ok`).
pub fn url_cut_is_ok(url: &str, max_len: usize) -> (r: bool)
    ensures
        r == url_cut_ok(url@, max_len as nat),
{
    if str_byte_len(url) <= max_len {
        return true;
    }
    let rest = without_scheme_exec(url);
    str_byte_len(rest.as_str()) <= max_len || (max_len >= 1 && str_is_byte_boundary(rest.as_str(), max_len - 1))
}

/// Shortens a URL to `max_len` bytes (see `truncated_url`).
pub fn truncate_url(url: &str, max_len: usize) -> (r: String)
    requires
        url_cut_ok(url@, max_len as nat),
    ensures
        r@ == truncated_url(url@, max_len as nat),
{
    if str_byte_len(url) <= max_len {
        return to_string(url);
    }
    let rest = without_scheme_exec(url);
    if str_byte_len(rest.as_str()) <= max_len {
        return rest;
    }
    let mut r = to_string(str_byte_prefix(rest.as_str(), max_len - 1));
    push_char(&mut r, '…');
    r
}

// ————————————————————————————————————————————————
// The episodes list
// ————————————————————————————————————————————————

/// The label of an episode in the list: `Ep. ` and its number on at least
/// four digits (`Ep. 0007`).
pub fn episode_label(number: u32) -> (r: String)
    ensures
        r@ == "Ep. "@ + zero_pad(decimal(number as nat), 4),
{
    let mut r = to_string("Ep. ");
    push_decimal_padded(&mut r, number as u64, 4);
    r
}

/// The number of episodes shown in the title: the count the anime page
/// gave, else the number of episodes listed.
pub fn episodes_count_label(episodes_count: Option<u32>, listed: usize) -> (r: String)
    ensures
        r@ == decimal(
            match episodes_count {
                Some(c) => c as nat,
                None => listed as nat,
            },
        ) + " episodios"@,
{
    let mut r = String::new();
    match episodes_count {
        Some(c) => push_decimal(&mut r, c as u64),
        None => push_decimal(&mut r, listed as u64),
    }
    push_str(&mut r, " episodios");
    r
}

/// The number of the selected episode, 0 when none is selected.
pub fn selected_episode_number(episodes: &Vec<Episode>, selected: Option<usize>) -> (r: u32)
    ensures
        r == match selected {
            Some(i) => if i < episodes@.len() {
                episodes@[i as int].number
            } else {
                0
            },
            None => 0,
        },
{
    match selected {
        Some(i) => if i < episodes.len() {
            episodes[i].number
        } else {
            0
        },
        None => 0,
    }
}

// ————————————————————————————————————————————————
// Plain search output
// ————————————————————————————————————————————————

/// The first line of `s` (`str::lines`): up to the first `\n`, without a
/// `\r` just before it; the whole of `s` when it has no `\n`.
pub open spec fn first_line(s: Seq<char>) -> Seq<char> {
    match first_where(|i: int| 0 <= i < s.len() && s[i] == '\n', 0, s.len() as int) {
        Some(i) => if i > 0 && s[i - 1] == '\r' {
            s.take(i - 1)
        } else {
            s.take(i)
        },
        None => s,
    }
}

/// The synopsis as the plain search shows it: its first line, cut at 80
/// bytes and then followed by `...` when longer.
pub open spec fn synopsis_preview_of(synopsis: Seq<char>) -> Seq<char> {
    let l = first_line(synopsis);
    if utf8_len(l) > 80 {
        byte_prefix(l, 80) + "..."@
    } else {
        l
    }
}

/// The first line of `s` (see `first_line`).
fn first_line_exec(s: &str) -> (r: String)
    ensures
        r@ == first_line(s@),
{
    let v = chars_of(s);
    let ghost p = |i: int| 0 <= i < v@.len() && v@[i] == '\n';
    let mut k: usize = 0;
    while k < v.len() && v[k] != '\n'
        invariant
            k <= v.len(),
            v@ == s@,
            p == (|i: int| 0 <= i < v@.len() && v@[i] == '\n'),
            forall|i: int| 0 <= i < k ==> !#[trigger] p(i),
        decreases v.len() - k,
    {
        k += 1;
    }
    let end = if k < v.len() {
        proof {
            lemma_first_where_is(p, 0, v@.len() as int, k as int);
        }
        if k > 0 && v[k - 1] == '\r' {
            k - 1
        } else {
            k
        }
    } else {
        proof {
            lemma_first_where_none(p, 0, v@.len() as int);
        }
        k
    };
    let line = string_of(&v, 0, end);
    assert(line@ == first_line(s@)) by {
        if end == v.len() {
            assert(v@.subrange(0, end as int) =~= v@);
        }
    }
    line
}

/// Whether `synopsis_preview(synopsis)` may be called: a first line longer
/// than 80 bytes has a character boundary at byte 80.
pub fn synopsis_cut_is_ok(synopsis: &str) -> (r: bool)
    ensures
        r == (utf8_len(first_line(synopsis@)) > 80 ==> is_byte_boundary(first_line(synopsis@), 80)),
{
    let line = first_line_exec(synopsis);
    str_byte_len(line.as_str()) <= 80 || str_is_byte_boundary(line.as_str(), 80)
}

/// The first line of a synopsis cut to 80 bytes (see `synopsis_preview_of`).
/// A line to be cut must have a character boundary at byte 80.
pub fn synopsis_preview(synopsis: &str) -> (r: String)
    requires
        utf8_len(first_line(synopsis@)) > 80 ==> is_byte_boundary(first_line(synopsis@), 80),
    ensures
        r@ == synopsis_preview_of(synopsis@),
{
    let line = first_line_exec(synopsis);
    if str_byte_len(line.as_str()) > 80 {
        let mut r = to_string(str_byte_prefix(line.as_str(), 80));
        push_str(&mut r, "...");
        r
    } else {
        line
    }
}

// ————————————————————————————————————————————————
// The results screen
// ————————————————————————————————————————————————

/// The title of the results list: the query in quotes, the number of
/// results, and the page when there is more than one.
pub open spec fn results_title_of(query: Seq<char>, total: nat, page: u32, total_pages: u32) -> Seq<char> {
    "\""@ + query + "\" — "@ + decimal(total) + " resultados"@ + if total_pages > 1 {
        " [pág. "@ + decimal(page as nat) + "/"@ + decimal(total_pages as nat) + "]"@
    } else {
        Seq::empty()
    }
}

/// The title of the results list (see `results_title_of`).
pub fn results_title(query: &str, total: usize, page: u32, total_pages: u32) -> (r: String)
    ensures
        r@ == results_title_of(query@, total as nat, page, total_pages),
{
    let mut r = to_string("\"");
    push_str(&mut r, query);
    push_str(&mut r, "\" — ");
    push_decimal(&mut r, total as u64);
    push_str(&mut r, " resultados");
    if total_pages > 1 {
        push_str(&mut r, " [pág. ");
        push_decimal(&mut r, page as u64);
        push_str(&mut r, "/");
        push_decimal(&mut r, total_pages as u64);
        push_str(&mut r, "]");
    }
    assert(r@ =~= results_title_of(query@, total as nat, page, total_pages));
    r
}

/// The badge of a category in the results list.
pub fn category_badge(category: &AnimeCategory) -> (r: &'static str)
    ensures
        r@ == match category {
            AnimeCategory::TvAnime => " TV  "@,
            AnimeCategory::Movie => "MOV  "@,
            AnimeCategory::Ova => " OVA "@,
            AnimeCategory::Special => " ESP "@,
            AnimeCategory::Unknown(_) => "  ?  "@,
        },
{
    match category {
        AnimeCategory::TvAnime => " TV  ",
        AnimeCategory::Movie => "MOV  ",
        AnimeCategory::Ova => " OVA ",
        AnimeCategory::Special => " ESP ",
        AnimeCategory::Unknown(_) => "  ?  ",
    }
}

/// The synopsis shown for an anime: its own, or a notice when it has none.
pub fn synopsis_or_notice(synopsis: &str) -> (r: &str)
    ensures
        r@ == if synopsis@.len() == 0 {
            "Sin sinopsis disponible."@
        } else {
            synopsis@
        },
{
    if synopsis.is_empty() {
        "Sin sinopsis disponible."
    } else {
        synopsis
    }
}

// ————————————————————————————————————————————————
// The sources screen
// ————————————————————————————————————————————————

/// How a source will be played, as the sources screen tells it.
#[derive(Debug, Clone, Copy, PartialEq, Eq, Structural)]
pub enum PlayMode {
    /// mpv plays it directly
    Mpv,
    /// mpv could play it but is not installed: the browser
    BrowserForLackOfMpv,
    /// the browser
    Browser,
}

/// How a source of the given server is played on a system with or without mpv.
pub open spec fn play_mode_of(server: Seq<char>, mpv_available: bool) -> PlayMode {
    if mpv_compatible_server(server) && mpv_available {
        PlayMode::Mpv
    } else if mpv_compatible_server(server) {
        PlayMode::BrowserForLackOfMpv
    } else {
        PlayMode::Browser
    }
}

/// How a source is played (see `play_mode_of`).
pub fn play_mode(source: &VideoSource, mpv_available: bool) -> (r: PlayMode)
    ensures
        r == play_mode_of(source.server@, mpv_available),
{
    if source.is_mpv_compatible() && mpv_available {
        PlayMode::Mpv
    } else if source.is_mpv_compatible() {
        PlayMode::BrowserForLackOfMpv
    } else {
        PlayMode::Browser
    }
}

impl PlayMode {
    /// The player tag beside a server.
    pub fn icon(&self) -> (r: &'static str)
        ensures
            r@ == match self {
                PlayMode::Mpv => "🎬 mpv"@,
                _ => "🌐 web"@,
            },
    {
        match self {
            PlayMode::Mpv => "🎬 mpv",
            _ => "🌐 web",
        }
    }

    /// How the selected source will be played, in words.
    pub fn description(&self) -> (r: &'static str)
        ensures
            r@ == match self {
                PlayMode::Mpv => "mpv directo — sin anuncios"@,
                PlayMode::BrowserForLackOfMpv => "compatible con mpv (no instalado) — se usará navegador"@,
                PlayMode::Browser => "se abrirá en el navegador del sistema"@,
            },
    {
        match self {
            PlayMode::Mpv => "mpv directo — sin anuncios",
            PlayMode::BrowserForLackOfMpv => "compatible con mpv (no instalado) — se usará navegador",
            PlayMode::Browser => "se abrirá en el navegador del sistema",
        }
    }
}

/// The tab of the dubbed sources: their number, or that there are none.
pub fn dub_tab_label(dub_count: usize) -> (r: String)
    ensures
        r@ == if dub_count > 0 {
            "[ DUB ("@ + decimal(dub_count as nat) + ") ]"@
        } else {
            "[ DUB (no disponible) ]"@
        },
{
    if dub_count > 0 {
        let mut r = to_string("[ DUB (");
        push_decimal(&mut r, dub_count as u64);
        push_str(&mut r, ") ]");
        r
    } else {
        to_string("[ DUB (no disponible) ]")
    }
}

/// The tab of the subtitled sources with their number.
pub fn sub_tab_label(sub_count: usize) -> (r: String)
    ensures
        r@ == "[ SUB ("@ + decimal(sub_count as nat) + ") ]"@,
{
    let mut r = to_string("[ SUB (");
    push_decimal(&mut r, sub_count as u64);
    push_str(&mut r, ") ]");
    r
}

/// The header of the sources screen: the anime's title (`Anime` when none
/// is chosen) and the episode's number (0 when none is chosen).
pub fn sources_header(title: Option<&str>, number: Option<u32>) -> (r: String)
    ensures
        r@ == (match title {
            Some(t) => t@,
            None => "Anime"@,
        }) + " — Ep. "@ + decimal(
            match number {
                Some(n) => n as nat,
                None => 0,
            },
        ),
{
    let mut r = match title {
        Some(t) => to_string(t),
        None => to_string("Anime"),
    };
    push_str(&mut r, " — Ep. ");
    match number {
        Some(n) => push_decimal(&mut r, n as u64),
        None => push_decimal(&mut r, 0),
    }
    r
}

/// A server's name padded with spaces to twelve characters (`{:<12}`).
pub fn server_column(server: &str) -> (r: String)
    ensures
        r@ == pad_right(server@, 12),
{
    let n = chars_of(server).len();
    let mut r = to_string(server);
    let mut k = n;
    while k < 12
        invariant
            n == server@.len(),
            n <= k <= 12 || (n > 12 && k == n),
            k >= n,
            r@ == server@ + Seq::new((k - n) as nat, |i: int| ' '),
        decreases 12 - k,
    {
        push_char(&mut r, ' ');
        assert(r@ =~= server@ + Seq::new((k + 1 - n) as nat, |i: int| ' '));
        k += 1;
    }
    assert(r@ =~= pad_right(server@, 12));
    r
}

} // verus!
