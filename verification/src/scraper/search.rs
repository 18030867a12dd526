//! Searching the catalogue: the search URL, and the results read from the
//! HTML of the catalogue page.
//!
//! The page embeds the results as a JavaScript literal:
//! `results:[{id:"197",title:"One Piece",...},...],total:...`.

use vstd::prelude::*;

use crate::config::BASE_URL;
use crate::structs::{Anime, AnimeCategory};
use crate::text::{
    chars_of, decimal, find_from, find_from_exec, find_key_lazy, find_key_run, first_where, hex_upper,
    key_lazy_pos, key_run_capture, lazy_end, lemma_first_where, lemma_first_where_is,
    lemma_first_where_none, occurs_at, occurs_at_exec, parse_u32, parse_u32_exec, push_char,
    push_decimal, push_hex_upper, push_str, replace_all, replace_all_exec, run_end, scan_run,
    split_all, split_exec, string_from, string_of, sub_vec, zero_pad, CharClass,
};

verus! {

// ————————————————————————————————————————————————
// Pagination
// ————————————————————————————————————————————————

/// Pagination of the search results.
#[derive(Debug, Clone, Copy, PartialEq, Eq, Structural)]
pub struct SearchPagination {
    /// Current page (from 1)
    pub current_page: u32,
    /// Number of pages
    pub total_pages: u32,
    /// Number of results of the search
    pub total_records: u32,
}

/// A page of search results.
#[derive(Debug, Clone)]
pub struct SearchResult {
    /// The animes of this page
    pub animes: Vec<Anime>,
    /// Pagination
    pub pagination: SearchPagination,
}

// ————————————————————————————————————————————————
// The search URL
// ————————————————————————————————————————————————

/// Whether `c` is alphanumeric in Unicode's sense (`Alphabetic` or a
/// numeric category), as `char::is_alphanumeric` decides.
pub uninterp spec fn unicode_alphanumeric(c: char) -> bool;

/// `char::is_alphanumeric`. Claimed: the result is `unicode_alphanumeric(c)`;
/// among ASCII characters it holds of the letters and digits and of no
/// other (the ASCII members of `Alphabetic` and of the numeric categories).
#[verifier::external_body]
fn char_is_alphanumeric(c: char) -> (r: bool)
    ensures
        r == unicode_alphanumeric(c),
        (c as u32) < 0x80 ==> (r <==> ('a' <= c <= 'z' || 'A' <= c <= 'Z' || '0' <= c <= '9')),
{
    c.is_alphanumeric()
}

/// How one character of a query is written in the search URL: a space as
/// `+`, alphanumerics, `-` and `_` as themselves, anything else as `%`
/// followed by its code point in upper-case hexadecimal, at least two digits.
pub open spec fn encode_query_char(c: char) -> Seq<char> {
    if c == ' ' {
        seq!['+']
    } else if unicode_alphanumeric(c) || c == '-' || c == '_' {
        seq![c]
    } else {
        seq!['%'] + zero_pad(hex_upper((c as u32) as nat), 2)
    }
}

/// A query written for the search URL, one character after another.
pub open spec fn encode_query(s: Seq<char>) -> Seq<char>
    decreases s.len(),
{
    if s.len() == 0 {
        Seq::empty()
    } else {
        encode_query(s.drop_last()) + encode_query_char(s.last())
    }
}

/// Writes a query for the search URL (see `encode_query`).
pub fn urlencoding_simple(s: &str) -> (r: String)
    ensures
        r@ == encode_query(s@),
{
    let v = chars_of(s);
    let mut r = String::new();
    let mut k: usize = 0;
    while k < v.len()
        invariant
            k <= v.len(),
            v@ == s@,
            r@ == encode_query(v@.subrange(0, k as int)),
        decreases v.len() - k,
    {
        let c = v[k];
        let ghost before = r@;
        if c == ' ' {
            push_char(&mut r, '+');
        } else if char_is_alphanumeric(c) || c == '-' || c == '_' {
            push_char(&mut r, c);
        } else {
            push_char(&mut r, '%');
            let code = c as u32;
            if code < 16 {
                push_char(&mut r, '0');
            }
            push_hex_upper(&mut r, code as u64);
            proof {
                assert(hex_upper(code as nat).len() == 1 <==> code < 16) by {
                    reveal_with_fuel(hex_upper, 2);
                    if code >= 16 {
                        assert(hex_upper(code as nat) == hex_upper(code as nat / 16).push(crate::text::hex_char(code as nat % 16)));
                        assert(hex_upper(code as nat / 16).len() >= 1) by {
                            reveal_with_fuel(hex_upper, 1);
                            lemma_hex_upper_nonempty(code as nat / 16);
                        }
                    }
                }
                if code < 16 {
                    assert(zero_pad(hex_upper(code as nat), 2) =~= seq!['0'] + hex_upper(code as nat));
                } else {
                    assert(zero_pad(hex_upper(code as nat), 2) =~= hex_upper(code as nat));
                }
            }
        }
        proof {
            assert(v@.subrange(0, k + 1).drop_last() =~= v@.subrange(0, k as int));
            assert(r@ =~= before + encode_query_char(c));
        }
        k += 1;
    }
    assert(v@.subrange(0, v@.len() as int) =~= v@);
    r
}

proof fn lemma_hex_upper_nonempty(n: nat)
    ensures
        hex_upper(n).len() >= 1,
    decreases n,
{
    if n >= 16 {
        lemma_hex_upper_nonempty(n / 16);
    }
}

/// The catalogue search URL:
/// `{BASE_URL}/catalogo?search={encoded query}&page={page}`.
pub open spec fn search_url_spec(query: Seq<char>, page: u32) -> Seq<char> {
    BASE_URL@ + "/catalogo?search="@ + encode_query(query) + "&page="@ + decimal(page as nat)
}

/// The catalogue search URL for a query and a page.
pub fn search_url(query: &str, page: u32) -> (r: String)
    ensures
        r@ == search_url_spec(query@, page),
{
    let mut r = String::new();
    push_str(&mut r, BASE_URL);
    push_str(&mut r, "/catalogo?search=");
    let enc = urlencoding_simple(query);
    push_str(&mut r, enc.as_str());
    push_str(&mut r, "&page=");
    push_decimal(&mut r, page as u64);
    assert(r@ =~= search_url_spec(query@, page));
    r
}

// ————————————————————————————————————————————————
// The grammar of the results block
// ————————————————————————————————————————————————

/// What `results:\[(\{.+?\})\],total:` captures at its leftmost match: from
/// the opening brace to the brace before `],total:`.
pub open spec fn results_by_pattern(s: Seq<char>) -> Option<Seq<char>> {
    match key_lazy_pos(s, "results:[{"@, 1, "}],total:"@) {
        Some(i) => {
            let a = i + "results:[{"@.len();
            Some(s.subrange(a - 1, lazy_end(s, a, 1, "}],total:"@)->0 + 1))
        },
        None => None,
    }
}

/// The results block found without the pattern: from after the first
/// `results:[` to the next `],total:`.
pub open spec fn results_by_markers(s: Seq<char>) -> Option<Seq<char>> {
    match find_from(s, "results:["@, 0) {
        Some(p) => {
            let start = p + "results:["@.len();
            match find_from(s, "],total:"@, start) {
                Some(e) => Some(s.subrange(start, e)),
                None => None,
            }
        },
        None => None,
    }
}

/// The results block of a page: by the pattern, else by the markers, else empty.
pub open spec fn results_block(s: Seq<char>) -> Seq<char> {
    match results_by_pattern(s) {
        Some(b) => b,
        None => match results_by_markers(s) {
            Some(b) => b,
            None => Seq::empty(),
        },
    }
}

/// The objects of a results block: the block cut at each `},{`, keeping
/// each brace with its object (and cut at any `|||` it already holds).
pub open spec fn result_objects(block: Seq<char>) -> Seq<Seq<char>> {
    split_all(replace_all(block, "},{"@, "}|||{"@), "|||"@)
}

// ————————————————————————————————————————————————
// The fields of one result
// ————————————————————————————————————————————————

/// No `}` among `s[0..k)`.
pub open spec fn no_close_brace_before(s: Seq<char>, k: int) -> bool {
    forall|j: int| 0 <= j < k ==> #[trigger] s[j] != '}'
}

/// The anchored pattern `^[^}]*?id:"(\d+)"` matches with its `id:"` at `k`.
pub open spec fn id_field_at(s: Seq<char>, k: int) -> bool {
    let a = k + "id:\""@.len();
    let d = run_end(s, a, CharClass::Digit);
    &&& no_close_brace_before(s, k)
    &&& occurs_at(s, k, "id:\""@)
    &&& d > a
    &&& d < s.len()
    &&& s[d] == '"'
}

/// The id that the pattern captures.
pub open spec fn id_field(s: Seq<char>) -> Option<Seq<char>> {
    match first_where(|k: int| id_field_at(s, k), 0, s.len() + 1int) {
        Some(k) => {
            let a = k + "id:\""@.len();
            Some(s.subrange(a, run_end(s, a, CharClass::Digit)))
        },
        None => None,
    }
}

/// Where a quoted text with backslash escapes that starts at `j` ends (the
/// index of its closing quote), as `((?:[^"\\]|\\.)*)"` reads it; none when
/// the text is not closed or a backslash ends the input or a line.
pub open spec fn quoted_end(s: Seq<char>, j: int) -> Option<int>
    decreases s.len() - j,
{
    if j < 0 || j >= s.len() {
        None
    } else if s[j] == '"' {
        Some(j)
    } else if s[j] == '\\' {
        if j + 1 < s.len() && s[j + 1] != '\n' {
            quoted_end(s, j + 2)
        } else {
            None
        }
    } else {
        quoted_end(s, j + 1)
    }
}

/// The pattern `synopsis:"((?:[^"\\]|\\.)*)"` matches at `i`.
pub open spec fn synopsis_at(s: Seq<char>, i: int) -> bool {
    occurs_at(s, i, "synopsis:\""@) && quoted_end(s, i + "synopsis:\""@.len()) is Some
}

/// The escaped synopsis that the pattern captures at its leftmost match.
pub open spec fn synopsis_field(s: Seq<char>) -> Option<Seq<char>> {
    match first_where(|i: int| synopsis_at(s, i), 0, s.len() + 1int) {
        Some(i) => {
            let a = i + "synopsis:\""@.len();
            Some(s.subrange(a, quoted_end(s, a)->0))
        },
        None => None,
    }
}

/// The synopsis with its escapes undone, one kind after another: `\n`,
/// then `\"`, then `\'`, then `\\`.
pub open spec fn unescape(t: Seq<char>) -> Seq<char> {
    replace_all(
        replace_all(replace_all(replace_all(t, "\\n"@, "\n"@), "\\\""@, "\""@), "\\'"@, "'"@),
        "\\\\"@,
        "\\"@,
    )
}

/// The fields read from one result object: id, title, slug, synopsis and
/// category id; none when the id, the title or the slug is missing.
pub open spec fn anime_fields(obj: Seq<char>) -> Option<(Seq<char>, Seq<char>, Seq<char>, Seq<char>, u32)> {
    match (
        id_field(obj),
        key_run_capture(obj, "title:\""@, CharClass::NotQuote, true),
        key_run_capture(obj, "slug:\""@, CharClass::NotQuote, true),
    ) {
        (Some(id), Some(title), Some(slug)) => {
            let synopsis = match synopsis_field(obj) {
                Some(t) => unescape(t),
                None => Seq::empty(),
            };
            let category_id = match key_run_capture(obj, "categoryId:"@, CharClass::Digit, false) {
                Some(t) => match parse_u32(t) {
                    Some(n) => n,
                    None => 0u32,
                },
                None => 0u32,
            };
            Some((id, title, slug, synopsis, category_id))
        },
        _ => None,
    }
}

/// `c` is the category that `AnimeCategory::from_id` gives for `id`.
pub open spec fn category_for_id(c: AnimeCategory, id: u32) -> bool {
    if id == 1 {
        c is TvAnime
    } else if id == 2 {
        c is Movie
    } else if id == 3 {
        c is Ova
    } else if id == 4 {
        c is Special
    } else {
        c matches AnimeCategory::Unknown(t) && t@ == decimal(id as nat)
    }
}

/// `a` is the anime made of the fields `f`, before its page was read.
pub open spec fn anime_of_fields(a: Anime, f: (Seq<char>, Seq<char>, Seq<char>, Seq<char>, u32)) -> bool {
    &&& a.id@ == f.0
    &&& a.title@ == f.1
    &&& a.slug@ == f.2
    &&& a.synopsis@ == f.3
    &&& category_for_id(a.category, f.4)
    &&& a.mal_id is None
    &&& a.episodes_count is None
    &&& a.score is None
}

/// The fields of the objects that read as animes, in order.
pub open spec fn fields_of_objects(objs: Seq<Seq<char>>) -> Seq<(Seq<char>, Seq<char>, Seq<char>, Seq<char>, u32)>
    decreases objs.len(),
{
    if objs.len() == 0 {
        Seq::empty()
    } else {
        fields_of_objects(objs.drop_last()) + match anime_fields(objs.last()) {
            Some(f) => seq![f],
            None => Seq::empty(),
        }
    }
}

/// `animes` are the animes of the fields `fs`, in order.
pub open spec fn animes_of_fields(animes: Seq<Anime>, fs: Seq<(Seq<char>, Seq<char>, Seq<char>, Seq<char>, u32)>) -> bool {
    &&& animes.len() == fs.len()
    &&& forall|j: int| 0 <= j < animes.len() ==> anime_of_fields(#[trigger] animes[j], fs[j])
}

/// The fields of the animes that a catalogue page lists.
pub open spec fn page_anime_fields(html: Seq<char>) -> Seq<(Seq<char>, Seq<char>, Seq<char>, Seq<char>, u32)> {
    fields_of_objects(result_objects(results_block(html)))
}

/// The digits after the first `key` that is followed by a digit, as a `u32`.
pub open spec fn key_number(html: Seq<char>, key: Seq<char>) -> Option<u32> {
    match key_run_capture(html, key, CharClass::Digit, false) {
        Some(t) => parse_u32(t),
        None => None,
    }
}

/// What a catalogue page says of the search: its animes and its pagination.
pub open spec fn search_result_of(r: SearchResult, html: Seq<char>, current_page: u32) -> bool {
    let block = results_block(html);
    if block.len() == 0 {
        &&& r.animes@.len() == 0
        &&& r.pagination == SearchPagination { current_page, total_pages: 0, total_records: 0 }
    } else {
        let fs = page_anime_fields(html);
        &&& animes_of_fields(r.animes@, fs)
        &&& r.pagination.current_page == current_page
        &&& r.pagination.total_pages == match key_number(html, "totalPages:"@) {
            Some(n) => n,
            None => 1u32,
        }
        &&& r.pagination.total_records == match key_number(html, "totalRecords:"@) {
            Some(n) => n,
            None => (fs.len() % 0x1_0000_0000) as u32,
        }
    }
}

// ————————————————————————————————————————————————
// Executable parsing
// ————————————————————————————————————————————————

/// The results block of a page (see `results_block`).
fn results_block_exec(s: &Vec<char>) -> (r: Vec<char>)
    ensures
        r@ == results_block(s@),
{
    let key = chars_of("results:[{");
    let term = chars_of("}],total:");
    proof {
        lemma_results_keys();
    }
    match find_key_lazy(s, &key, 1, &term) {
        Some((i, e)) => {
            proof {
                lemma_first_where(|e: int| occurs_at(s@, e, term@) && crate::text::no_newline(s@, i + 10, e), i + 11, s@.len() + 1int);
                crate::text::lemma_occurs_at_index(s@, e as int, term@, 0);
                assert(e + 9 <= s@.len());
            }
            assert(e + 9 <= s.len());
            return sub_vec(s, i + 9, e + 1);
        },
        None => {},
    }
    match results_by_markers_exec(s) {
        None => Vec::new(),
        Some((a, e)) => sub_vec(s, a, e),
    }
}

/// The span of the results block found by its markers.
fn results_by_markers_exec(s: &Vec<char>) -> (r: Option<(usize, usize)>)
    ensures
        r is None ==> results_by_markers(s@) is None,
        r matches Some((a, e)) ==> a <= e <= s.len() && results_by_markers(s@) == Some(
            s@.subrange(a as int, e as int),
        ),
{
    let open = chars_of("results:[");
    let close = chars_of("],total:");
    proof {
        lemma_results_keys();
    }
    match find_from_exec(s, &open, 0) {
        None => None,
        Some(p) => {
            assert(p + 9 <= s.len());
            match find_from_exec(s, &close, p + 9) {
                None => None,
                Some(e) => Some((p + 9, e)),
            }
        },
    }
}

/// The results block of a page found from the first `results:[` to the
/// next `],total:` (see `results_by_markers`), used when the pattern does
/// not match.
pub fn extract_results_block_fallback(html: &str) -> (r: Option<String>)
    ensures
        match results_by_markers(html@) {
            Some(b) => r matches Some(t) && t@ == b,
            None => r is None,
        },
{
    let s = chars_of(html);
    match results_by_markers_exec(&s) {
        Some((a, e)) => Some(string_of(&s, a, e)),
        None => None,
    }
}

proof fn lemma_results_keys()
    ensures
        "results:[{"@.len() == 10,
        "results:["@.len() == 9,
        "}],total:"@.len() == 9,
{
    reveal_strlit("results:[{");
    reveal_strlit("results:[");
    reveal_strlit("}],total:");
}

/// Whether the id pattern matches with its `id:"` at `k`; if so, the end of the digits.
fn id_field_exec_at(s: &Vec<char>, k: usize) -> (r: Option<usize>)
    requires
        k <= s.len(),
        no_close_brace_before(s@, k as int),
    ensures
        r is None ==> !id_field_at(s@, k as int),
        r matches Some(d) ==> id_field_at(s@, k as int) && d == run_end(s@, k + "id:\""@.len(), CharClass::Digit),
{
    let key = chars_of("id:\"");
    if !occurs_at_exec(s, k, &key) {
        return None;
    }
    let a = k + key.len();
    let d = scan_run(s, a, CharClass::Digit);
    if d > a && d < s.len() && s[d] == '"' {
        Some(d)
    } else {
        None
    }
}

/// The id of a result object (see `id_field`).
fn id_field_exec(s: &Vec<char>) -> (r: Option<String>)
    ensures
        match id_field(s@) {
            Some(t) => r matches Some(x) && x@ == t,
            None => r is None,
        },
{
    let ghost p = |k: int| id_field_at(s@, k);
    let mut k: usize = 0;
    loop
        invariant
            k <= s.len(),
            no_close_brace_before(s@, k as int),
            p == (|k: int| id_field_at(s@, k)),
            forall|j: int| 0 <= j < k ==> !#[trigger] p(j),
        decreases s.len() - k,
    {
        match id_field_exec_at(s, k) {
            Some(d) => {
                proof {
                    lemma_first_where_is(p, 0, s@.len() + 1int, k as int);
                }
                let key_len = chars_of("id:\"").len();
                return Some(string_of(s, k + key_len, d));
            },
            None => {},
        }
        if k == s.len() || s[k] == '}' {
            proof {
                assert forall|j: int| 0 <= j < s@.len() + 1 implies !#[trigger] p(j) by {
                    if j > k {
                        assert(!no_close_brace_before(s@, j));
                    }
                }
                lemma_first_where_none(p, 0, s@.len() + 1int);
            }
            return None;
        }
        k += 1;
    }
}

/// Where the quoted text that starts at `j` ends (see `quoted_end`).
fn quoted_end_exec(s: &Vec<char>, j: usize) -> (r: Option<usize>)
    requires
        j <= s.len(),
    ensures
        match quoted_end(s@, j as int) {
            Some(e) => r == Some(e as usize) && j <= e < s.len(),
            None => r is None,
        },
{
    let mut k = j;
    while k < s.len()
        invariant
            j <= k <= s.len(),
            quoted_end(s@, k as int) == quoted_end(s@, j as int),
        decreases s.len() - k,
    {
        let c = s[k];
        if c == '"' {
            return Some(k);
        } else if c == '\\' {
            if k + 1 < s.len() && s[k + 1] != '\n' {
                k += 2;
            } else {
                return None;
            }
        } else {
            k += 1;
        }
    }
    None
}

/// The escaped synopsis of a result object (see `synopsis_field`), as a span.
fn synopsis_field_exec(s: &Vec<char>) -> (r: Option<(usize, usize)>)
    ensures
        match synopsis_field(s@) {
            Some(t) => r matches Some((a, e)) && a <= e <= s.len() && t == s@.subrange(a as int, e as int),
            None => r is None,
        },
{
    let key = chars_of("synopsis:\"");
    let ghost p = |i: int| synopsis_at(s@, i);
    let mut i: usize = 0;
    loop
        invariant
            i <= s.len(),
            key@ == "synopsis:\""@,
            p == (|i: int| synopsis_at(s@, i)),
            forall|j: int| 0 <= j < i ==> !#[trigger] p(j),
        decreases s.len() - i,
    {
        if occurs_at_exec(s, i, &key) {
            let a = i + key.len();
            match quoted_end_exec(s, a) {
                Some(e) => {
                    proof {
                        lemma_first_where_is(p, 0, s@.len() + 1int, i as int);
                    }
                    return Some((a, e));
                },
                None => {},
            }
        }
        if i == s.len() {
            proof {
                lemma_first_where_none(p, 0, s@.len() + 1int);
            }
            return None;
        }
        i += 1;
    }
}

/// Undoes the escapes of a synopsis (see `unescape`).
fn unescape_exec(t: &Vec<char>) -> (r: Vec<char>)
    ensures
        r@ == unescape(t@),
{
    proof {
        reveal_strlit("\\n");
        reveal_strlit("\\\"");
        reveal_strlit("\\'");
        reveal_strlit("\\\\");
    }
    let t1 = replace_all_exec(t, &chars_of("\\n"), &chars_of("\n"));
    let t2 = replace_all_exec(&t1, &chars_of("\\\""), &chars_of("\""));
    let t3 = replace_all_exec(&t2, &chars_of("\\'"), &chars_of("'"));
    replace_all_exec(&t3, &chars_of("\\\\"), &chars_of("\\"))
}

/// The capture of `key(C+)` as a string.
fn capture_string(s: &Vec<char>, key: &str, k: CharClass, closed: bool) -> (r: Option<String>)
    ensures
        match key_run_capture(s@, key@, k, closed) {
            Some(t) => r matches Some(x) && x@ == t,
            None => r is None,
        },
{
    crate::text::key_run_string(s, key, k, closed)
}

/// The digits after `key`, as a `u32`.
fn key_number_exec(s: &Vec<char>, key: &str) -> (r: Option<u32>)
    ensures
        r == key_number(s@, key@),
{
    let k = chars_of(key);
    match find_key_run(s, &k, CharClass::Digit, false) {
        Some((a, e)) => parse_u32_exec(s, a, e),
        None => None,
    }
}

/// Reads one result object: id, title and slug are required; the synopsis
/// (unescaped) defaults to empty and the category id to 0.
fn parse_single_anime(obj: &Vec<char>) -> (r: Option<Anime>)
    ensures
        match anime_fields(obj@) {
            Some(f) => r matches Some(a) && anime_of_fields(a, f),
            None => r is None,
        },
{
    let id = match id_field_exec(obj) {
        Some(x) => x,
        None => return None,
    };
    let title = match capture_string(obj, "title:\"", CharClass::NotQuote, true) {
        Some(x) => x,
        None => return None,
    };
    let slug = match capture_string(obj, "slug:\"", CharClass::NotQuote, true) {
        Some(x) => x,
        None => return None,
    };
    let synopsis = match synopsis_field_exec(obj) {
        Some((a, e)) => {
            let esc = sub_vec(obj, a, e);
            let un = unescape_exec(&esc);
            string_from(&un)
        },
        None => String::new(),
    };
    let category_id = match key_number_exec(obj, "categoryId:") {
        Some(n) => n,
        None => 0,
    };
    let category = AnimeCategory::from_id(category_id);
    Some(Anime {
        id,
        title,
        slug,
        synopsis,
        category,
        mal_id: None,
        episodes_count: None,
        score: None,
    })
}

/// Reads the result objects of a results block, skipping those that do not
/// read as animes.
#[verifier::spinoff_prover]
fn parse_anime_objects(block: &Vec<char>) -> (r: Vec<Anime>)
    ensures
        animes_of_fields(r@, fields_of_objects(result_objects(block@))),
{
    proof {
        reveal_strlit("},{");
        reveal_strlit("|||");
    }
    let normalized = replace_all_exec(block, &chars_of("},{"), &chars_of("}|||{"));
    let objects = split_exec(&normalized, &chars_of("|||"));
    let ghost objs = result_objects(block@);
    let mut animes: Vec<Anime> = Vec::new();
    let mut k: usize = 0;
    while k < objects.len()
        invariant
            k <= objects.len(),
            objects@.len() == objs.len(),
            forall|j: int| 0 <= j < objects@.len() ==> #[trigger] objects@[j]@ == objs[j],
            animes_of_fields(animes@, fields_of_objects(objs.subrange(0, k as int))),
        decreases objects.len() - k,
    {
        let ghost before = animes@;
        proof {
            assert(objs.subrange(0, k + 1).drop_last() =~= objs.subrange(0, k as int));
            assert(objs.subrange(0, k + 1).last() == objects@[k as int]@);
        }
        match parse_single_anime(&objects[k]) {
            Some(a) => {
                animes.push(a);
                proof {
                    let fs = fields_of_objects(objs.subrange(0, k + 1));
                    assert forall|j: int| 0 <= j < animes@.len() implies anime_of_fields(#[trigger] animes@[j], fs[j]) by {
                        if j < before.len() {
                            assert(animes@[j] == before[j]);
                        }
                    }
                }
            },
            None => {
                assert(fields_of_objects(objs.subrange(0, k + 1)) =~= fields_of_objects(objs.subrange(0, k as int)));
            },
        }
        k += 1;
    }
    assert(objs.subrange(0, objs.len() as int) =~= objs);
    animes
}

/// Reads the search results of a catalogue page.
///
/// Finds the `results:[...]` block (by the pattern
/// `results:\[(\{.+?\})\],total:`, else between `results:[` and
/// `],total:`), cuts it into objects at each `},{`, and reads each object
/// that has an id, a title and a slug. The pagination comes from
/// `totalPages:` (1 when absent) and `totalRecords:` (the number of animes
/// read when absent). A page without results gives no animes and zero pages.
pub fn parse_search_results(html: &str, current_page: u32) -> (r: SearchResult)
    ensures
        search_result_of(r, html@, current_page),
{
    let s = chars_of(html);
    let block = results_block_exec(&s);
    if block.len() == 0 {
        return SearchResult {
            animes: Vec::new(),
            pagination: SearchPagination { current_page, total_pages: 0, total_records: 0 },
        };
    }
    let animes = parse_anime_objects(&block);
    let total_pages = match key_number_exec(&s, "totalPages:") {
        Some(n) => n,
        None => 1,
    };
    let total_records = match key_number_exec(&s, "totalRecords:") {
        Some(n) => n,
        None => ((animes.len() as u64) % 0x1_0000_0000u64) as u32,
    };
    SearchResult { animes, pagination: SearchPagination { current_page, total_pages, total_records } }
}


/// An upper-case hexadecimal digit: `0`–`9` or `A`–`F`.
pub open spec fn is_upper_hex_digit(c: char) -> bool {
    ('0' <= c && c <= '9') || ('A' <= c && c <= 'F')
}

/// The value of an upper-case hexadecimal digit.
pub open spec fn upper_hex_digit_value(c: char) -> nat {
    if '0' <= c && c <= '9' {
        (c as u32 - '0' as u32) as nat
    } else {
        (c as u32 - 'A' as u32 + 10) as nat
    }
}

/// The number that a string of hexadecimal digits writes.
pub open spec fn hex_number(ds: Seq<char>) -> nat
    decreases ds.len(),
{
    if ds.len() == 0 {
        0
    } else {
        hex_number(ds.drop_last()) * 16 + upper_hex_digit_value(ds.last())
    }
}

proof fn lemma_hex_char_digit(d: nat)
    requires
        d < 16,
    ensures
        is_upper_hex_digit(crate::text::hex_char(d)),
        upper_hex_digit_value(crate::text::hex_char(d)) == d,
        d > 0 ==> crate::text::hex_char(d) != '0',
{
}

proof fn lemma_hex_upper_number(n: nat)
    ensures
        forall|i: int| 0 <= i < hex_upper(n).len() ==> is_upper_hex_digit(#[trigger] hex_upper(n)[i]),
        hex_number(hex_upper(n)) == n,
        hex_upper(n).len() >= 1,
        hex_upper(n).len() >= 2 ==> n >= 16,
        n > 0 ==> hex_upper(n)[0] != '0',
    decreases n,
{
    assert(hex_number(Seq::<char>::empty()) == 0);
    if n < 16 {
        lemma_hex_char_digit(n);
        assert(seq![crate::text::hex_char(n)].drop_last() =~= Seq::<char>::empty());
        assert(hex_number(seq![crate::text::hex_char(n)]) == hex_number(Seq::<char>::empty()) * 16
            + upper_hex_digit_value(crate::text::hex_char(n)));
    } else {
        lemma_hex_upper_number(n / 16);
        lemma_hex_char_digit(n % 16);
        let t = hex_upper(n / 16).push(crate::text::hex_char(n % 16));
        assert(t.drop_last() =~= hex_upper(n / 16));
        assert(hex_upper(n) == t);
        assert forall|i: int| 0 <= i < t.len() implies is_upper_hex_digit(#[trigger] t[i]) by {
            if i < t.len() - 1 {
                assert(t[i] == hex_upper(n / 16)[i]);
            }
        }
        assert(t[0] == hex_upper(n / 16)[0]);
        assert(hex_number(t) == hex_number(hex_upper(n / 16)) * 16 + upper_hex_digit_value(crate::text::hex_char(n % 16)));
        assert(n == (n / 16) * 16 + n % 16) by (nonlinear_arith);
    }
}

proof fn lemma_hex_number_zero_first(ds: Seq<char>)
    ensures
        hex_number(seq!['0'] + ds) == hex_number(ds),
    decreases ds.len(),
{
    assert(hex_number(Seq::<char>::empty()) == 0);
    assert(upper_hex_digit_value('0') == 0);
    if ds.len() == 0 {
        assert((seq!['0'] + ds).drop_last() =~= Seq::<char>::empty());
        assert((seq!['0'] + ds).last() == '0');
    } else {
        lemma_hex_number_zero_first(ds.drop_last());
        assert((seq!['0'] + ds).drop_last() =~= seq!['0'] + ds.drop_last());
        assert((seq!['0'] + ds).last() == ds.last());
    }
}

/// The query is written character by character: what the URL carries for
/// two texts one after the other is what it carries for the first, then
/// what it carries for the second. No character is dropped or merged.
pub proof fn law_query_encoding_concat(x: Seq<char>, y: Seq<char>)
    ensures
        encode_query(x + y) == encode_query(x) + encode_query(y),
    decreases y.len(),
{
    if y.len() == 0 {
        assert(x + y =~= x);
        assert(encode_query(x) + encode_query(y) =~= encode_query(x));
    } else {
        law_query_encoding_concat(x, y.drop_last());
        assert((x + y).drop_last() =~= x + y.drop_last());
        assert((x + y).last() == y.last());
        assert(encode_query(x + y) =~= encode_query(x) + encode_query(y));
    }
}

/// How the URL carries one character of the query: a space as `+`; a
/// letter or digit (Unicode's alphanumerics), `-` or `_` as itself; any
/// other character, such as `'`, `&`, `/` or `%`, as `%` followed by its
/// code point in upper-case hexadecimal, two digits at least and no
/// leading zero beyond those two.
pub proof fn law_query_char_encoding(c: char)
    ensures
        c == ' ' ==> encode_query(seq![c]) == seq!['+'],
        c != ' ' && (unicode_alphanumeric(c) || c == '-' || c == '_') ==> encode_query(seq![c]) == seq![c],
        c != ' ' && !(unicode_alphanumeric(c) || c == '-' || c == '_') ==> {
            let e = encode_query(seq![c]);
            &&& e.len() >= 3
            &&& e[0] == '%'
            &&& forall|i: int| 1 <= i < e.len() ==> is_upper_hex_digit(#[trigger] e[i])
            &&& hex_number(e.drop_first()) == c as u32
            &&& e.len() > 3 ==> e[1] != '0'
        },
{
    assert(seq![c].drop_last() =~= Seq::<char>::empty());
    assert(seq![c].last() == c);
    assert(encode_query(Seq::<char>::empty()) == Seq::<char>::empty());
    assert(encode_query(seq![c]) == encode_query(seq![c].drop_last()) + encode_query_char(seq![c].last()));
    assert(encode_query(seq![c]) =~= encode_query_char(c));
    if c != ' ' && !(unicode_alphanumeric(c) || c == '-' || c == '_') {
        let v = (c as u32) as nat;
        let h = hex_upper(v);
        lemma_hex_upper_number(v);
        let e = encode_query_char(c);
        if h.len() >= 2 {
            assert(zero_pad(h, 2) == h);
            assert(e.drop_first() =~= h);
            assert forall|i: int| 1 <= i < e.len() implies is_upper_hex_digit(#[trigger] e[i]) by {
                assert(e[i] == h[i - 1]);
            }
        } else {
            assert(zero_pad(h, 2) =~= seq!['0'] + h);
            assert(e.drop_first() =~= seq!['0'] + h);
            lemma_hex_number_zero_first(h);
            assert forall|i: int| 1 <= i < e.len() implies is_upper_hex_digit(#[trigger] e[i]) by {
                if i >= 2 {
                    assert(e[i] == h[i - 2]);
                }
            }
        }
    }
}

} // verus!
