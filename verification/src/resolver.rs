//! Turning the embed URL of a video server into a URL that mpv plays.
//!
//! - Zilla Networks (HLS): `/play/{32 hex}` becomes `/m3u8/{32 hex}`, with
//!   the player page as Referer.
//! - PixelDrain: `pixeldrain.com/u/{id}` becomes `pixeldrain.com/api/file/{id}`.
//! - MP4Upload: the mp4 URL is read from the embed page.
//! - Any other server is opened in the browser.

use vstd::prelude::*;

use crate::logger::{LogEvent, LogEventView};
use crate::text::{
    byte_cut, fit_count_exec, chars_of, contains, find_key_run, first_where, key_run_capture, lemma_first_where_is,
    lemma_occurs_at_index, lemma_run_end_at, is_ascii_alnum, is_lower_hex, key_run_at,
    lemma_first_where_none, occurs_at, occurs_at_exec, push_range, push_str, replace_all,
    replace_all_exec, run_end, scan_run, starts_with, str_contains, str_eq, str_starts_with,
    string_from, string_of, to_string, CharClass,
};

verus! {

// ————————————————————————————————————————————————
// Results
// ————————————————————————————————————————————————

/// Kind of a video stream.
#[derive(Debug, Clone, Copy, PartialEq, Eq, Structural)]
pub enum StreamType {
    /// HLS playlist (application/x-mpegURL)
    Hls,
    /// Direct MP4
    Mp4,
    /// Unknown
    Unknown,
}

impl StreamType {
    /// Label shown in the terminal.
    pub fn display(&self) -> (r: &'static str)
        ensures
            r@ == match self {
                StreamType::Hls => "HLS (m3u8)"@,
                StreamType::Mp4 => "MP4 directo"@,
                StreamType::Unknown => "Desconocido"@,
            },
    {
        match self {
            StreamType::Hls => "HLS (m3u8)",
            StreamType::Mp4 => "MP4 directo",
            StreamType::Unknown => "Desconocido",
        }
    }
}

/// The outcome of resolving an embed URL.
#[derive(Debug, Clone)]
pub enum ResolvedUrl {
    /// A stream URL that mpv plays, with the Referer it needs, if any.
    DirectStream { url: String, referer: Option<String>, content_type: StreamType },
    /// Not resolvable: open `url` in the browser.
    FallbackBrowser { url: String, reason: String },
}

/// `ResolvedUrl` with its strings as character sequences.
pub enum ResolvedView {
    Direct { url: Seq<char>, referer: Option<Seq<char>>, content_type: StreamType },
    Fallback { url: Seq<char>, reason: Seq<char> },
}

impl View for ResolvedUrl {
    type V = ResolvedView;

    open spec fn view(&self) -> ResolvedView {
        match self {
            ResolvedUrl::DirectStream { url, referer, content_type } => ResolvedView::Direct {
                url: url@,
                referer: match referer {
                    Some(r) => Some(r@),
                    None => None,
                },
                content_type: *content_type,
            },
            ResolvedUrl::FallbackBrowser { url, reason } => ResolvedView::Fallback { url: url@, reason: reason@ },
        }
    }
}

// ————————————————————————————————————————————————
// Zilla Networks (HLS)
// ————————————————————————————————————————————————

/// The pattern `/play/([0-9a-f]{32})` matches at `i`.
pub open spec fn zilla_id_at(s: Seq<char>, i: int) -> bool {
    occurs_at(s, i, "/play/"@) && run_end(s, i + 6, CharClass::LowerHex) >= i + 38
}

/// The 32 hexadecimal digits that the pattern captures at its leftmost match.
pub open spec fn zilla_id(s: Seq<char>) -> Option<Seq<char>> {
    match first_where(|i: int| zilla_id_at(s, i), 0, s.len() + 1int) {
        Some(i) => Some(s.subrange(i + 6, i + 38)),
        None => None,
    }
}

/// What Zilla Networks resolution gives for an embed URL.
pub open spec fn resolve_zilla_spec(u: Seq<char>) -> ResolvedView {
    match zilla_id(u) {
        Some(id) => ResolvedView::Direct {
            url: "https://player.zilla-networks.com/m3u8/"@ + id,
            referer: Some("https://player.zilla-networks.com/play/"@ + id),
            content_type: StreamType::Hls,
        },
        None => if contains(u, "/m3u8/"@) {
            ResolvedView::Direct {
                url: u,
                referer: Some(replace_all(u, "/m3u8/"@, "/play/"@)),
                content_type: StreamType::Hls,
            }
        } else {
            ResolvedView::Fallback {
                url: u,
                reason: "No se pudo extraer el ID del player de Zilla Networks"@,
            }
        },
    }
}

proof fn lemma_play_key()
    ensures
        "/play/"@.len() == 6,
{
    reveal_strlit("/play/");
}

/// The span of the Zilla id, if the pattern matches.
fn zilla_id_exec(s: &Vec<char>) -> (r: Option<usize>)
    ensures
        r is None ==> zilla_id(s@) is None,
        r matches Some(a) ==> a + 32 <= s.len() && zilla_id(s@) == Some(s@.subrange(a as int, a + 32)),
{
    proof {
        lemma_play_key();
    }
    let key = chars_of("/play/");
    let ghost p = |i: int| zilla_id_at(s@, i);
    let mut i: usize = 0;
    loop
        invariant
            i <= s.len(),
            key@ == "/play/"@,
            "/play/"@.len() == 6,
            p == (|i: int| zilla_id_at(s@, i)),
            forall|j: int| 0 <= j < i ==> !#[trigger] p(j),
        decreases s.len() - i,
    {
        if occurs_at_exec(s, i, &key) {
            let e = scan_run(s, i + 6, CharClass::LowerHex);
            if e - i >= 38 {
                proof {
                    lemma_first_where_is(p, 0, s@.len() + 1int, i as int);
                }
                return Some(i + 6);
            }
        }
        if i == s.len() {
            proof {
                lemma_first_where_none(p, 0, s@.len() + 1int);
            }
            return None;
        }
        i += 1;
    }
}

/// Resolves a Zilla Networks player URL to its m3u8 stream.
///
/// The id is the 32 hexadecimal digits after `/play/`; the stream is
/// `https://player.zilla-networks.com/m3u8/{id}` with the player page as
/// Referer. A URL that is already an m3u8 one is kept, with `/m3u8/`
/// replaced by `/play/` as Referer; any other URL goes to the browser.
pub fn resolve_zilla_hls(embed_url: &str) -> (r: ResolvedUrl)
    ensures
        r@ == resolve_zilla_spec(embed_url@),
{
    let s = chars_of(embed_url);
    match zilla_id_exec(&s) {
        Some(a) => {
            let id = string_of(&s, a, a + 32);
            // the id is 32 hexadecimal digits by construction of the pattern
            let mut url = String::new();
            push_str(&mut url, "https://player.zilla-networks.com/m3u8/");
            push_str(&mut url, id.as_str());
            let mut referer = String::new();
            push_str(&mut referer, "https://player.zilla-networks.com/play/");
            push_str(&mut referer, id.as_str());
            ResolvedUrl::DirectStream { url, referer: Some(referer), content_type: StreamType::Hls }
        },
        None => {
            proof {
                reveal_strlit("/m3u8/");
            }
            if crate::text::contains_exec(&s, &chars_of("/m3u8/")) {
                let referer = replace_all_exec(&s, &chars_of("/m3u8/"), &chars_of("/play/"));
                ResolvedUrl::DirectStream {
                    url: to_string(embed_url),
                    referer: Some(string_from(&referer)),
                    content_type: StreamType::Hls,
                }
            } else {
                ResolvedUrl::FallbackBrowser {
                    url: to_string(embed_url),
                    reason: to_string("No se pudo extraer el ID del player de Zilla Networks"),
                }
            }
        },
    }
}

// ————————————————————————————————————————————————
// PixelDrain
// ————————————————————————————————————————————————

/// What PixelDrain resolution gives for an embed URL: the file id is the
/// ASCII alphanumeric run after `pixeldrain.com/u/`; ids longer than 20
/// characters are refused.
pub open spec fn resolve_pixeldrain_spec(u: Seq<char>) -> ResolvedView {
    match key_run_capture(u, "pixeldrain.com/u/"@, CharClass::AsciiAlnum, false) {
        Some(id) => if id.len() > 20 {
            ResolvedView::Fallback { url: u, reason: "File ID de PixelDrain con formato inválido"@ }
        } else {
            ResolvedView::Direct {
                url: "https://pixeldrain.com/api/file/"@ + id,
                referer: None,
                content_type: StreamType::Mp4,
            }
        },
        None => ResolvedView::Fallback { url: u, reason: "No se pudo extraer el file ID de PixelDrain"@ },
    }
}

/// Resolves a PixelDrain embed URL to its direct download URL.
fn resolve_pixeldrain_internal(embed_url: &str) -> (r: ResolvedUrl)
    ensures
        r@ == resolve_pixeldrain_spec(embed_url@),
{
    let s = chars_of(embed_url);
    match find_key_run(&s, &chars_of("pixeldrain.com/u/"), CharClass::AsciiAlnum, false) {
        None => ResolvedUrl::FallbackBrowser {
            url: to_string(embed_url),
            reason: to_string("No se pudo extraer el file ID de PixelDrain"),
        },
        Some((a, e)) => {
            // the id is ASCII, so its length in bytes is its length in characters
            if e - a > 20 {
                ResolvedUrl::FallbackBrowser {
                    url: to_string(embed_url),
                    reason: to_string("File ID de PixelDrain con formato inválido"),
                }
            } else {
                let mut url = String::new();
                push_str(&mut url, "https://pixeldrain.com/api/file/");
                push_range(&mut url, &s, a, e);
                ResolvedUrl::DirectStream { url, referer: None, content_type: StreamType::Mp4 }
            }
        },
    }
}

/// Resolves a PixelDrain embed URL (see `resolve_pixeldrain_spec`).
pub fn resolve_pixeldrain(embed_url: &str) -> (r: ResolvedUrl)
    ensures
        r@ == resolve_pixeldrain_spec(embed_url@),
{
    resolve_pixeldrain_internal(embed_url)
}

/// Resolves a PixelDrain embed URL, for callers outside an async context.
pub fn resolve_pixeldrain_sync(embed_url: &str) -> (r: ResolvedUrl)
    ensures
        r@ == resolve_pixeldrain_spec(embed_url@),
{
    resolve_pixeldrain_internal(embed_url)
}

// ————————————————————————————————————————————————
// MP4Upload
// ————————————————————————————————————————————————

/// The attribute that holds the mp4 URL starts at `i`: `src:"https://`
/// as the player's script writes it, or `src="https://` as the `<source>`
/// tag of the player does.
pub open spec fn src_key_at(s: Seq<char>, i: int) -> bool {
    occurs_at(s, i, "src:\"https://"@) || occurs_at(s, i, "src=\"https://"@)
}

/// The pattern `src[:=]"(https://[^"]+\.mp4[^"]*)"` matches at `i`: after
/// `src:"https://` or `src="https://` comes a quoted text (closed by a quote)
/// that holds `.mp4` somewhere after its first character.
pub open spec fn mp4_src_at(s: Seq<char>, i: int) -> bool {
    let b = i + "src:\"https://"@.len();
    let e = run_end(s, b, CharClass::NotQuote);
    &&& src_key_at(s, i)
    &&& e < s.len()
    &&& exists|j: int| b + 1 <= j && j + 4 <= e && #[trigger] occurs_at(s, j, ".mp4"@)
}

/// The mp4 URL that the pattern captures at its leftmost match.
pub open spec fn mp4_src(s: Seq<char>) -> Option<Seq<char>> {
    match first_where(|i: int| mp4_src_at(s, i), 0, s.len() + 1int) {
        Some(i) => Some(s.subrange(i + "src:\""@.len(), run_end(s, i + "src:\"https://"@.len(), CharClass::NotQuote))),
        None => None,
    }
}

/// What MP4Upload resolution gives once the embed page `html` is read.
pub open spec fn resolve_mp4upload_page_spec(u: Seq<char>, html: Seq<char>) -> ResolvedView {
    match mp4_src(html) {
        Some(mp4) => ResolvedView::Direct {
            url: mp4,
            referer: Some("https://www.mp4upload.com/"@),
            content_type: StreamType::Mp4,
        },
        None => ResolvedView::Fallback { url: u, reason: "No se encontró la URL del MP4 en el HTML del embed"@ },
    }
}

proof fn lemma_src_keys()
    ensures
        "src:\"https://"@.len() == 13,
        "src=\"https://"@.len() == 13,
        "src:\""@.len() == 5,
        ".mp4"@.len() == 4,
{
    reveal_strlit("src:\"https://");
    reveal_strlit("src=\"https://");
    reveal_strlit("src:\"");
    reveal_strlit(".mp4");
}

/// Whether `.mp4` occurs in `s` at some `j` with `lo <= j` and `j + 4 <= hi`.
fn has_mp4_between(s: &Vec<char>, lo: usize, hi: usize) -> (r: bool)
    requires
        lo <= hi <= s.len(),
    ensures
        r == exists|j: int| lo <= j && j + 4 <= hi && #[trigger] occurs_at(s@, j, ".mp4"@),
{
    proof {
        lemma_src_keys();
    }
    let pat = chars_of(".mp4");
    let mut j = lo;
    while j <= hi && hi - j >= 4
        invariant
            lo <= j,
            hi <= s.len(),
            pat@ == ".mp4"@,
            ".mp4"@.len() == 4,
            forall|k: int| lo <= k < j ==> !#[trigger] occurs_at(s@, k, ".mp4"@),
        decreases hi - j,
    {
        if occurs_at_exec(s, j, &pat) {
            return true;
        }
        j += 1;
    }
    proof {
        assert forall|k: int| lo <= k && k + 4 <= hi implies !#[trigger] occurs_at(s@, k, ".mp4"@) by {
            if k >= j {
                assert(k + 4 > hi);
            }
        }
    }
    false
}

/// The span of the mp4 URL in an MP4Upload embed page, if the pattern matches.
fn mp4_src_exec(s: &Vec<char>) -> (r: Option<(usize, usize)>)
    ensures
        r is None ==> mp4_src(s@) is None,
        r matches Some((a, e)) ==> a <= e <= s.len() && mp4_src(s@) == Some(s@.subrange(a as int, e as int)),
{
    proof {
        lemma_src_keys();
    }
    let key = chars_of("src:\"https://");
    let key2 = chars_of("src=\"https://");
    let ghost p = |i: int| mp4_src_at(s@, i);
    let mut i: usize = 0;
    loop
        invariant
            i <= s.len(),
            key@ == "src:\"https://"@,
            key2@ == "src=\"https://"@,
            "src:\"https://"@.len() == 13,
            "src=\"https://"@.len() == 13,
            "src:\""@.len() == 5,
            p == (|i: int| mp4_src_at(s@, i)),
            forall|j: int| 0 <= j < i ==> !#[trigger] p(j),
        decreases s.len() - i,
    {
        if occurs_at_exec(s, i, &key) || occurs_at_exec(s, i, &key2) {
            let b = i + 13;
            let e = scan_run(s, b, CharClass::NotQuote);
            if e < s.len() && b < e && has_mp4_between(s, b + 1, e) {
                proof {
                    lemma_first_where_is(p, 0, s@.len() + 1int, i as int);
                }
                return Some((i + 5, e));
            }
            proof {
                if b == e {
                    assert forall|j: int| b + 1 <= j && j + 4 <= e implies !#[trigger] occurs_at(s@, j, ".mp4"@) by {}
                }
            }
        }
        if i == s.len() {
            proof {
                lemma_first_where_none(p, 0, s@.len() + 1int);
            }
            return None;
        }
        i += 1;
    }
}

/// Finishes MP4Upload resolution once the embed page has been read: the
/// mp4 URL of the page, with MP4Upload as Referer, else the browser.
pub fn resolve_mp4upload_page(embed_url: &str, html: &str) -> (r: ResolvedUrl)
    ensures
        r@ == resolve_mp4upload_page_spec(embed_url@, html@),
{
    let s = chars_of(html);
    match mp4_src_exec(&s) {
        Some((a, e)) => {
            // the url starts with `https://` by construction of the pattern
            ResolvedUrl::DirectStream {
                url: string_of(&s, a, e),
                referer: Some(to_string("https://www.mp4upload.com/")),
                content_type: StreamType::Mp4,
            }
        },
        None => ResolvedUrl::FallbackBrowser {
            url: to_string(embed_url),
            reason: to_string("No se encontró la URL del MP4 en el HTML del embed"),
        },
    }
}

/// The outcome of reading the MP4Upload embed page.
#[derive(Debug, Clone)]
pub enum EmbedPage {
    /// The HTTP client could not be built.
    ClientError(String),
    /// The request failed.
    NetworkError(String),
    /// The body could not be read.
    ReadError(String),
    /// The page.
    Page(String),
}

/// What MP4Upload resolution gives for each outcome of reading the page.
pub open spec fn resolve_mp4upload_fetched_spec(u: Seq<char>, page: EmbedPage) -> ResolvedView {
    match page {
        EmbedPage::ClientError(e) => ResolvedView::Fallback { url: u, reason: "Error al crear cliente HTTP: "@ + e@ },
        EmbedPage::NetworkError(e) => ResolvedView::Fallback {
            url: u,
            reason: "Error de red al acceder a MP4Upload: "@ + e@,
        },
        EmbedPage::ReadError(e) => ResolvedView::Fallback { url: u, reason: "Error al leer HTML de MP4Upload: "@ + e@ },
        EmbedPage::Page(html) => resolve_mp4upload_page_spec(u, html@),
    }
}

/// Finishes MP4Upload resolution for any outcome of reading the page.
pub fn resolve_mp4upload_fetched(embed_url: &str, page: EmbedPage) -> (r: ResolvedUrl)
    ensures
        r@ == resolve_mp4upload_fetched_spec(embed_url@, page),
{
    match page {
        EmbedPage::ClientError(e) => {
            let mut reason = to_string("Error al crear cliente HTTP: ");
            push_str(&mut reason, e.as_str());
            ResolvedUrl::FallbackBrowser { url: to_string(embed_url), reason }
        },
        EmbedPage::NetworkError(e) => {
            let mut reason = to_string("Error de red al acceder a MP4Upload: ");
            push_str(&mut reason, e.as_str());
            ResolvedUrl::FallbackBrowser { url: to_string(embed_url), reason }
        },
        EmbedPage::ReadError(e) => {
            let mut reason = to_string("Error al leer HTML de MP4Upload: ");
            push_str(&mut reason, e.as_str());
            ResolvedUrl::FallbackBrowser { url: to_string(embed_url), reason }
        },
        EmbedPage::Page(html) => resolve_mp4upload_page(embed_url, html.as_str()),
    }
}

// ————————————————————————————————————————————————
// Dispatch
// ————————————————————————————————————————————————

/// The first step of resolving an embed URL: a result, or the MP4Upload
/// embed page to read first.
#[derive(Debug, Clone)]
pub enum Resolution {
    /// Resolved without reading anything.
    Resolved(ResolvedUrl),
    /// Read this MP4Upload embed page, then call `resolve_mp4upload_fetched`.
    FetchMp4Upload(String),
}

/// What the first step of resolution gives.
pub open spec fn resolution_spec(server: Seq<char>, u: Seq<char>) -> Option<ResolvedView> {
    if !starts_with(u, "https://"@) && !starts_with(u, "http://"@) {
        Some(ResolvedView::Fallback { url: u, reason: "URL con esquema no permitido (solo http/https)"@ })
    } else if server == "HLS"@ {
        Some(resolve_zilla_spec(u))
    } else if server == "PDrain"@ {
        Some(resolve_pixeldrain_spec(u))
    } else if server == "MP4Upload"@ {
        if contains(u, "mp4upload.com"@) {
            None
        } else {
            Some(ResolvedView::Fallback { url: u, reason: "URL no es de mp4upload.com"@ })
        }
    } else {
        Some(ResolvedView::Fallback {
            url: u,
            reason: "Servidor '"@ + server + "' no tiene resolución directa implementada"@,
        })
    }
}

/// Starts resolving the embed URL of a server ("HLS", "PDrain",
/// "MP4Upload", ...). Only http and https URLs are resolved; MP4Upload
/// needs its embed page, which the caller reads (`None` in
/// `resolution_spec`).
pub fn resolve_url(server: &str, embed_url: &str) -> (r: Resolution)
    ensures
        match resolution_spec(server@, embed_url@) {
            Some(v) => r matches Resolution::Resolved(x) && x@ == v,
            None => r matches Resolution::FetchMp4Upload(u) && u@ == embed_url@,
        },
{
    if !str_starts_with(embed_url, "https://") && !str_starts_with(embed_url, "http://") {
        return Resolution::Resolved(
            ResolvedUrl::FallbackBrowser {
                url: to_string(embed_url),
                reason: to_string("URL con esquema no permitido (solo http/https)"),
            },
        );
    }
    if str_eq(server, "HLS") {
        Resolution::Resolved(resolve_zilla_hls(embed_url))
    } else if str_eq(server, "PDrain") {
        Resolution::Resolved(resolve_pixeldrain(embed_url))
    } else if str_eq(server, "MP4Upload") {
        if str_contains(embed_url, "mp4upload.com") {
            Resolution::FetchMp4Upload(to_string(embed_url))
        } else {
            Resolution::Resolved(
                ResolvedUrl::FallbackBrowser {
                    url: to_string(embed_url),
                    reason: to_string("URL no es de mp4upload.com"),
                },
            )
        }
    } else {
        let mut reason = to_string("Servidor '");
        push_str(&mut reason, server);
        push_str(&mut reason, "' no tiene resolución directa implementada");
        Resolution::Resolved(ResolvedUrl::FallbackBrowser { url: to_string(embed_url), reason })
    }
}

// ————————————————————————————————————————————————
// What resolution records in the log
// ————————————————————————————————————————————————

/// An event with a module and a message of the given level.
pub open spec fn info_event(module: Seq<char>, message: Seq<char>) -> LogEventView {
    LogEventView::Info { module, message }
}

/// What Zilla resolution records.
pub open spec fn zilla_event(u: Seq<char>) -> LogEventView {
    match zilla_id(u) {
        Some(id) => info_event("resolver::zilla"@, "URL m3u8 resuelta para ID "@ + id.take(8) + " — tipo: HLS"@),
        None => if contains(u, "/m3u8/"@) {
            info_event("resolver::zilla"@, "URL ya es m3u8 directo"@)
        } else {
            LogEventView::Warn {
                module: "resolver::zilla"@,
                message: "No se pudo extraer ID de la URL del player: "@ + u,
            }
        },
    }
}

/// What PixelDrain resolution records.
pub open spec fn pixeldrain_event(u: Seq<char>) -> LogEventView {
    match key_run_capture(u, "pixeldrain.com/u/"@, CharClass::AsciiAlnum, false) {
        None => LogEventView::Warn { module: "resolver::pixeldrain"@, message: "No se pudo extraer file ID"@ },
        Some(id) => if id.len() > 20 {
            LogEventView::Security {
                module: "resolver::pixeldrain"@,
                message: "File ID rechazado: formato inválido ("@ + id.take(10) + ")"@,
            }
        } else {
            info_event("resolver::pixeldrain"@, "URL directa resuelta para ID "@ + id)
        },
    }
}

/// What the first step of resolution records: the request (the URL cut to
/// 60 bytes), then a refused scheme, the outcome for HLS and PDrain, the
/// fetch of an MP4Upload page or its refusal (the URL cut to 40 bytes), or
/// a server without resolution.
pub open spec fn resolution_log_spec(server: Seq<char>, u: Seq<char>) -> Seq<LogEventView> {
    seq![info_event("resolver"@, "Resolviendo servidor="@ + server + " url="@ + byte_cut(u, 60))] + if !starts_with(
        u,
        "https://"@,
    ) && !starts_with(u, "http://"@) {
        seq![
            LogEventView::Security {
                module: "resolver"@,
                message: "URL rechazada: no es http/https — servidor="@ + server,
            },
        ]
    } else if server == "HLS"@ {
        seq![zilla_event(u)]
    } else if server == "PDrain"@ {
        seq![pixeldrain_event(u)]
    } else if server == "MP4Upload"@ {
        if contains(u, "mp4upload.com"@) {
            seq![LogEventView::Net { method: "GET"@, url: u, status: "iniciando fetch MP4Upload..."@ }]
        } else {
            seq![
                LogEventView::Security {
                    module: "resolver::mp4upload"@,
                    message: "URL rechazada: no es de mp4upload.com ("@ + byte_cut(u, 40) + ")"@,
                },
            ]
        }
    } else {
        seq![info_event("resolver"@, "Servidor '"@ + server + "' sin resolución directa → navegador"@)]
    }
}

fn text_event(module: &str, message: String) -> (r: LogEvent)
    ensures
        r@ == info_event(module@, message@),
{
    LogEvent::Info { module: to_string(module), message }
}

/// A string of the first characters of `s` that fit in `n` bytes.
fn cut_string(s: &Vec<char>, n: usize) -> (r: String)
    ensures
        r@ == byte_cut(s@, n as nat),
{
    let k = fit_count_exec(s, n);
    string_of(s, 0, k)
}

/// What the first step of resolving `embed_url` records in the log (see
/// `resolution_log_spec`), in order.
pub fn resolution_log(server: &str, embed_url: &str) -> (r: Vec<LogEvent>)
    ensures
        r@.map_values(|e: LogEvent| e@) == resolution_log_spec(server@, embed_url@),
{
    let s = chars_of(embed_url);
    let mut first = to_string("Resolviendo servidor=");
    push_str(&mut first, server);
    push_str(&mut first, " url=");
    let cut60 = cut_string(&s, 60);
    push_str(&mut first, cut60.as_str());
    let mut r: Vec<LogEvent> = Vec::new();
    r.push(text_event("resolver", first));
    let second = if !str_starts_with(embed_url, "https://") && !str_starts_with(embed_url, "http://") {
        let mut m = to_string("URL rechazada: no es http/https — servidor=");
        push_str(&mut m, server);
        LogEvent::Security { module: to_string("resolver"), message: m }
    } else if str_eq(server, "HLS") {
        match zilla_id_exec(&s) {
            Some(a) => {
                let mut m = to_string("URL m3u8 resuelta para ID ");
                push_range(&mut m, &s, a, a + 8);
                push_str(&mut m, " — tipo: HLS");
                assert(s@.subrange(a as int, a + 32).take(8) =~= s@.subrange(a as int, a + 8));
                text_event("resolver::zilla", m)
            },
            None => {
                proof {
                    reveal_strlit("/m3u8/");
                }
                if crate::text::contains_exec(&s, &chars_of("/m3u8/")) {
                    text_event("resolver::zilla", to_string("URL ya es m3u8 directo"))
                } else {
                    let mut m = to_string("No se pudo extraer ID de la URL del player: ");
                    push_str(&mut m, embed_url);
                    LogEvent::Warn { module: to_string("resolver::zilla"), message: m }
                }
            },
        }
    } else if str_eq(server, "PDrain") {
        match find_key_run(&s, &chars_of("pixeldrain.com/u/"), CharClass::AsciiAlnum, false) {
            None => LogEvent::Warn {
                module: to_string("resolver::pixeldrain"),
                message: to_string("No se pudo extraer file ID"),
            },
            Some((a, e)) => {
                if e - a > 20 {
                    let mut m = to_string("File ID rechazado: formato inválido (");
                    push_range(&mut m, &s, a, a + 10);
                    push_str(&mut m, ")");
                    assert(s@.subrange(a as int, e as int).take(10) =~= s@.subrange(a as int, a + 10));
                    LogEvent::Security { module: to_string("resolver::pixeldrain"), message: m }
                } else {
                    let mut m = to_string("URL directa resuelta para ID ");
                    push_range(&mut m, &s, a, e);
                    text_event("resolver::pixeldrain", m)
                }
            },
        }
    } else if str_eq(server, "MP4Upload") {
        if str_contains(embed_url, "mp4upload.com") {
            LogEvent::Net {
                method: to_string("GET"),
                url: to_string(embed_url),
                status: to_string("iniciando fetch MP4Upload..."),
            }
        } else {
            let mut m = to_string("URL rechazada: no es de mp4upload.com (");
            let cut40 = cut_string(&s, 40);
            push_str(&mut m, cut40.as_str());
            push_str(&mut m, ")");
            LogEvent::Security { module: to_string("resolver::mp4upload"), message: m }
        }
    } else {
        let mut m = to_string("Servidor '");
        push_str(&mut m, server);
        push_str(&mut m, "' sin resolución directa → navegador");
        text_event("resolver", m)
    };
    r.push(second);
    assert(r@.map_values(|e: LogEvent| e@) =~= resolution_log_spec(server@, embed_url@));
    r
}

/// What MP4Upload resolution records once the embed page has been read (or
/// could not be).
pub open spec fn mp4upload_event(page: EmbedPage) -> LogEventView {
    match page {
        EmbedPage::ClientError(e) => LogEventView::Error {
            module: "resolver::mp4upload"@,
            message: "Error cliente HTTP: "@ + e@,
        },
        EmbedPage::NetworkError(e) => LogEventView::Error {
            module: "resolver::mp4upload"@,
            message: "Error fetch: "@ + e@,
        },
        EmbedPage::ReadError(e) => LogEventView::Error {
            module: "resolver::mp4upload"@,
            message: "Error leyendo respuesta: "@ + e@,
        },
        EmbedPage::Page(html) => match mp4_src(html@) {
            Some(_) => info_event("resolver::mp4upload"@, "URL MP4 directa extraída correctamente"@),
            None => LogEventView::Warn {
                module: "resolver::mp4upload"@,
                message: "No se encontró src del MP4 en el HTML"@,
            },
        },
    }
}

/// What MP4Upload resolution records for an outcome of reading the page
/// (see `mp4upload_event`).
pub fn mp4upload_log(page: &EmbedPage) -> (r: LogEvent)
    ensures
        r@ == mp4upload_event(*page),
{
    let module = to_string("resolver::mp4upload");
    match page {
        EmbedPage::ClientError(e) => {
            let mut m = to_string("Error cliente HTTP: ");
            push_str(&mut m, e.as_str());
            LogEvent::Error { module, message: m }
        },
        EmbedPage::NetworkError(e) => {
            let mut m = to_string("Error fetch: ");
            push_str(&mut m, e.as_str());
            LogEvent::Error { module, message: m }
        },
        EmbedPage::ReadError(e) => {
            let mut m = to_string("Error leyendo respuesta: ");
            push_str(&mut m, e.as_str());
            LogEvent::Error { module, message: m }
        },
        EmbedPage::Page(html) => match mp4_src_exec(&chars_of(html.as_str())) {
            Some(_) => LogEvent::Info { module, message: to_string("URL MP4 directa extraída correctamente") },
            None => LogEvent::Warn { module, message: to_string("No se encontró src del MP4 en el HTML") },
        },
    }
}

// ————————————————————————————————————————————————
// Laws
// ————————————————————————————————————————————————

proof fn lemma_starts_with_concat(a: Seq<char>, b: Seq<char>, p: Seq<char>)
    requires
        starts_with(a, p),
    ensures
        starts_with(a + b, p),
{
    assert((a + b).subrange(0, p.len() as int) =~= a.subrange(0, p.len() as int));
}

proof fn lemma_https_prefixes()
    ensures
        starts_with("https://player.zilla-networks.com/m3u8/"@, "https://"@),
        starts_with("https://pixeldrain.com/api/file/"@, "https://"@),
        "https://"@.len() == 8,
{
    reveal_strlit("https://player.zilla-networks.com/m3u8/");
    reveal_strlit("https://pixeldrain.com/api/file/");
    reveal_strlit("https://");
    assert("https://player.zilla-networks.com/m3u8/"@.subrange(0, 8) =~= "https://"@);
    assert("https://pixeldrain.com/api/file/"@.subrange(0, 8) =~= "https://"@);
}

/// The mp4 URL read from an MP4Upload embed page starts with `https://`.
proof fn lemma_mp4_src_is_https(html: Seq<char>)
    ensures
        mp4_src(html) matches Some(url) ==> starts_with(url, "https://"@),
{
    let p = |i: int| mp4_src_at(html, i);
    crate::text::lemma_first_where(p, 0, html.len() + 1int);
    if let Some(i) = first_where(p, 0, html.len() + 1int) {
        lemma_src_keys();
        reveal_strlit("https://");
        assert(p(i));
        let e = run_end(html, i + 13, CharClass::NotQuote);
        assert(e >= i + 13);
        let url = html.subrange(i + 5, e);
        assert forall|k: int| 0 <= k < 8 implies url[k] == "https://"@[k] by {
            reveal_strlit("src:\"https://");
            reveal_strlit("src=\"https://");
            if occurs_at(html, i, "src:\"https://"@) {
                crate::text::lemma_occurs_at_index(html, i, "src:\"https://"@, k + 5);
            } else {
                crate::text::lemma_occurs_at_index(html, i, "src=\"https://"@, k + 5);
            }
        }
        assert(url.subrange(0, 8) =~= "https://"@);
    }
}

/// Resolution only ever hands a player an http or https URL: a direct
/// stream resolved from an embed URL starts with `https://` or `http://`,
/// an embed page to read as well, and the mp4 URL read from an MP4Upload
/// page starts with `https://`.
pub proof fn law_streams_are_http(server: Seq<char>, u: Seq<char>, html: Seq<char>)
    ensures
        resolution_spec(server, u) matches Some(ResolvedView::Direct { url, .. }) ==> (starts_with(
            url,
            "https://"@,
        ) || starts_with(url, "http://"@)),
        resolution_spec(server, u) is None ==> (starts_with(u, "https://"@) || starts_with(u, "http://"@)),
        resolve_mp4upload_page_spec(u, html) matches ResolvedView::Direct { url, .. } ==> starts_with(
            url,
            "https://"@,
        ),
{
    lemma_https_prefixes();
    lemma_mp4_src_is_https(html);
    if let Some(id) = zilla_id(u) {
        lemma_starts_with_concat("https://player.zilla-networks.com/m3u8/"@, id, "https://"@);
    }
    if let Some(id) = key_run_capture(u, "pixeldrain.com/u/"@, CharClass::AsciiAlnum, false) {
        lemma_starts_with_concat("https://pixeldrain.com/api/file/"@, id, "https://"@);
    }
}


/// Resolution goes by server: an embed URL that is not http or https is
/// refused whatever the server; otherwise "HLS" gives exactly what Zilla
/// resolution (`resolve_zilla_hls`) gives for the URL, "PDrain" exactly
/// what PixelDrain resolution (`resolve_pixeldrain`) gives, "MP4Upload"
/// asks for the embed page exactly when the URL is on mp4upload.com, and
/// any other server goes to the browser.
pub proof fn law_resolution_by_server(server: Seq<char>, u: Seq<char>)
    ensures
        !starts_with(u, "https://"@) && !starts_with(u, "http://"@) ==> resolution_spec(server, u) == Some(
            ResolvedView::Fallback { url: u, reason: "URL con esquema no permitido (solo http/https)"@ },
        ),
        starts_with(u, "https://"@) || starts_with(u, "http://"@) ==> {
            &&& resolution_spec("HLS"@, u) == Some(resolve_zilla_spec(u))
            &&& resolution_spec("PDrain"@, u) == Some(resolve_pixeldrain_spec(u))
            &&& (resolution_spec("MP4Upload"@, u) is None <==> contains(u, "mp4upload.com"@))
            &&& (server != "HLS"@ && server != "PDrain"@ && server != "MP4Upload"@ ==> (resolution_spec(server, u)
                matches Some(ResolvedView::Fallback { url, .. }) && url == u))
        },
{
    reveal_strlit("HLS");
    reveal_strlit("PDrain");
    reveal_strlit("MP4Upload");
    assert("HLS"@ != "PDrain"@) by {
        assert("HLS"@.len() != "PDrain"@.len());
    }
    assert("HLS"@ != "MP4Upload"@) by {
        assert("HLS"@.len() != "MP4Upload"@.len());
    }
    assert("PDrain"@ != "MP4Upload"@) by {
        assert("PDrain"@.len() != "MP4Upload"@.len());
    }
}


/// A Zilla Networks player page, `https://player.zilla-networks.com/play/`
/// followed by a 32-digit lower-case hexadecimal id, resolves to the HLS
/// playlist `https://player.zilla-networks.com/m3u8/{id}`, with the player
/// page as referer.
pub proof fn law_zilla_player_page(id: Seq<char>)
    ensures
        id.len() == 32 && (forall|i: int| 0 <= i < 32 ==> is_lower_hex(#[trigger] id[i])) ==> resolve_zilla_spec(
            "https://player.zilla-networks.com/play/"@ + id,
        ) == (ResolvedView::Direct {
            url: "https://player.zilla-networks.com/m3u8/"@ + id,
            referer: Some("https://player.zilla-networks.com/play/"@ + id),
            content_type: StreamType::Hls,
        }),
{
    let pre = "https://player.zilla-networks.com/play/"@;
    let u = pre + id;
    if id.len() == 32 && (forall|i: int| 0 <= i < 32 ==> is_lower_hex(#[trigger] id[i])) {
        reveal_strlit("https://player.zilla-networks.com/play/");
        reveal_strlit("/play/");
        assert(pre.len() == 39);
        assert forall|m: int| 39 <= m < 71 implies crate::text::in_class(CharClass::LowerHex, #[trigger] u[m]) by {
            assert(u[m] == id[m - 39]);
        }
        lemma_run_end_at(u, 39, 71, CharClass::LowerHex);
        assert(u.subrange(33, 39) =~= "/play/"@);
        assert(zilla_id_at(u, 33));
        assert forall|i: int| 0 <= i < 33 implies !zilla_id_at(u, i) by {
            if occurs_at(u, i, "/play/"@) {
                lemma_occurs_at_index(u, i, "/play/"@, 0);
                lemma_occurs_at_index(u, i, "/play/"@, 1);
                lemma_occurs_at_index(u, i, "/play/"@, 5);
                assert(u[i] == pre[i]);
                assert(u[i + 1] == pre[i + 1]);
                assert(u[i + 5] == pre[i + 5]);
            }
        }
        lemma_first_where_is(|i: int| zilla_id_at(u, i), 0, u.len() + 1int, 33);
        assert(zilla_id(u) == Some(u.subrange(39, 71)));
        assert(u.subrange(39, 71) =~= id);
    }
}


/// A PixelDrain file page, `https://pixeldrain.com/u/` followed by an id of
/// ASCII letters and digits, resolves to the direct file
/// `https://pixeldrain.com/api/file/{id}` (an MP4 stream, no referer) when
/// the id has at most 20 characters, and goes to the browser otherwise.
pub proof fn law_pixeldrain_file_page(id: Seq<char>)
    ensures
        id.len() > 0 && (forall|i: int| 0 <= i < id.len() ==> is_ascii_alnum(#[trigger] id[i])) ==> {
            let u = "https://pixeldrain.com/u/"@ + id;
            &&& id.len() <= 20 ==> resolve_pixeldrain_spec(u) == (ResolvedView::Direct {
                url: "https://pixeldrain.com/api/file/"@ + id,
                referer: None,
                content_type: StreamType::Mp4,
            })
            &&& id.len() > 20 ==> resolve_pixeldrain_spec(u) == (ResolvedView::Fallback {
                url: u,
                reason: "File ID de PixelDrain con formato inválido"@,
            })
        },
{
    let pre = "https://pixeldrain.com/u/"@;
    let key = "pixeldrain.com/u/"@;
    let u = pre + id;
    if id.len() > 0 && (forall|i: int| 0 <= i < id.len() ==> is_ascii_alnum(#[trigger] id[i])) {
        reveal_strlit("https://pixeldrain.com/u/");
        reveal_strlit("pixeldrain.com/u/");
        assert(pre.len() == 25);
        assert(key.len() == 17);
        let n = u.len() as int;
        assert forall|m: int| 25 <= m < n implies crate::text::in_class(CharClass::AsciiAlnum, #[trigger] u[m]) by {
            assert(u[m] == id[m - 25]);
        }
        lemma_run_end_at(u, 25, n, CharClass::AsciiAlnum);
        assert(u.subrange(8, 25) =~= key);
        assert(key_run_at(u, 8, key, CharClass::AsciiAlnum, false));
        assert forall|i: int| 0 <= i < 8 implies !key_run_at(u, i, key, CharClass::AsciiAlnum, false) by {
            if occurs_at(u, i, key) {
                lemma_occurs_at_index(u, i, key, 0);
                lemma_occurs_at_index(u, i, key, 1);
                assert(u[i] == pre[i]);
                assert(u[i + 1] == pre[i + 1]);
            }
        }
        lemma_first_where_is(|i: int| key_run_at(u, i, key, CharClass::AsciiAlnum, false), 0, u.len() + 1int, 8);
        assert(key_run_capture(u, key, CharClass::AsciiAlnum, false) == Some(u.subrange(25, n)));
        assert(u.subrange(25, n) =~= id);
    }
}

} // verus!
