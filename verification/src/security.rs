//! Validation of the values that end up in URLs and queries: anime slugs,
//! episode numbers and search queries.
//!
//! A slug is limited to ASCII letters, digits and single inner hyphens so
//! that it cannot escape the site's `/media/` path ("../..", "/", "%",
//! "@"...). A query is limited in length and refused when it holds an
//! injection pattern.

use vstd::prelude::*;

use crate::logger::{LogEvent, LogEventView};
use crate::text::{
    byte_cut, chars_of, contains, contains_exec, decimal, fit_count_exec, push_char, push_decimal, push_str,
    str_byte_len, string_of, to_string, utf8_len,
};

verus! {

// ————————————————————————————————————————————————
// Errors
// ————————————————————————————————————————————————

/// A failed validation.
#[derive(Debug)]
pub enum SecurityError {
    /// Malformed or dangerous anime slug
    InvalidSlug { slug: String, reason: String },
    /// Episode number out of range
    InvalidEpisodeNumber { number: u32, reason: String },
    /// Invalid search query
    InvalidQuery { reason: String },
}

impl SecurityError {
    /// The message of the error, as it is shown to the user.
    pub fn message(&self) -> (r: String)
        ensures
            r@ == match self {
                SecurityError::InvalidSlug { slug, reason } => "Slug inválido '"@ + slug@ + "': "@ + reason@,
                SecurityError::InvalidEpisodeNumber { number, reason } => "Número de episodio inválido "@
                    + decimal(*number as nat) + ": "@ + reason@,
                SecurityError::InvalidQuery { reason } => "Consulta de búsqueda inválida: "@ + reason@,
            },
    {
        let mut r = String::new();
        match self {
            SecurityError::InvalidSlug { slug, reason } => {
                push_str(&mut r, "Slug inválido '");
                push_str(&mut r, slug.as_str());
                push_str(&mut r, "': ");
                push_str(&mut r, reason.as_str());
            },
            SecurityError::InvalidEpisodeNumber { number, reason } => {
                push_str(&mut r, "Número de episodio inválido ");
                push_decimal(&mut r, *number as u64);
                push_str(&mut r, ": ");
                push_str(&mut r, reason.as_str());
            },
            SecurityError::InvalidQuery { reason } => {
                push_str(&mut r, "Consulta de búsqueda inválida: ");
                push_str(&mut r, reason.as_str());
            },
        }
        r
    }
}

// ————————————————————————————————————————————————
// Slugs
// ————————————————————————————————————————————————

/// A character allowed in a slug: a lower-case ASCII letter, an ASCII
/// digit, or `-`.
pub open spec fn slug_char(c: char) -> bool {
    ('a' <= c && c <= 'z') || ('0' <= c && c <= '9') || c == '-'
}

/// The first character of `s` that is not allowed in a slug.
pub open spec fn first_bad_slug_char(s: Seq<char>) -> Option<int> {
    crate::text::first_where(|i: int| 0 <= i < s.len() && !slug_char(s[i]), 0, s.len() as int)
}

/// The reason for a rejected slug, if any, in the order the tests are made:
/// empty; longer than 200 bytes; a character that is not allowed; a hyphen
/// at either end; two hyphens in a row.
pub open spec fn slug_rejection(s: Seq<char>) -> Option<(Seq<char>, Seq<char>)> {
    if s.len() == 0 {
        Some((s, "slug vacío"@))
    } else if utf8_len(s) > 200 {
        Some((
            byte_cut(s, 20) + "..."@,
            "slug demasiado largo ("@ + decimal(utf8_len(s)) + " chars, máximo 200)"@,
        ))
    } else if first_bad_slug_char(s) is Some {
        Some((s, "carácter no permitido: '"@ + seq![s[first_bad_slug_char(s)->0]] + "'"@))
    } else if s[0] == '-' || s[s.len() - 1] == '-' {
        Some((s, "el slug no puede empezar ni terminar con guión"@))
    } else if contains(s, "--"@) {
        Some((s, "guiones dobles consecutivos no permitidos"@))
    } else {
        None
    }
}

/// Checks that an anime slug is safe to put in a URL: not empty, at most
/// 200 bytes, only lower-case ASCII letters, digits and hyphens, no hyphen
/// at either end and no two hyphens in a row.
///
/// A slug that is too long is quoted in the error by its first 20 bytes,
/// cut back to the last character boundary.
///
/// Valid: "one-piece", "serial-experiments-lain". Rejected: "../../etc/passwd",
/// "127.0.0.1", "a/b", "abc%2F..".
pub fn validate_anime_slug(slug: &str) -> (r: Result<(), SecurityError>)
    ensures
        match slug_rejection(slug@) {
            None => r is Ok,
            Some((quoted, reason)) => r matches Err(SecurityError::InvalidSlug { slug: q, reason: why }) && q@
                == quoted && why@ == reason,
        },
{
    let v = chars_of(slug);
    if v.len() == 0 {
        return Err(SecurityError::InvalidSlug { slug: to_string(slug), reason: to_string("slug vacío") });
    }
    let n = str_byte_len(slug);
    if n > 200 {
        let k = fit_count_exec(&v, 20);
        let mut q = string_of(&v, 0, k);
        push_str(&mut q, "...");
        assert(q@ =~= byte_cut(slug@, 20) + "..."@);
        let mut why = to_string("slug demasiado largo (");
        push_decimal(&mut why, n as u64);
        push_str(&mut why, " chars, máximo 200)");
        return Err(SecurityError::InvalidSlug { slug: q, reason: why });
    }
    let ghost p = |i: int| 0 <= i < slug@.len() && !slug_char(slug@[i]);
    let mut k: usize = 0;
    while k < v.len()
        invariant
            k <= v.len(),
            v@ == slug@,
            v@.len() > 0,
            utf8_len(slug@) <= 200,
            p == (|i: int| 0 <= i < slug@.len() && !slug_char(slug@[i])),
            forall|j: int| 0 <= j < k ==> !#[trigger] p(j),
        decreases v.len() - k,
    {
        let c = v[k];
        let ok = ('a' <= c && c <= 'z') || ('0' <= c && c <= '9') || c == '-';
        if !ok {
            proof {
                crate::text::lemma_first_where_is(p, 0, v@.len() as int, k as int);
            }
            let mut why = to_string("carácter no permitido: '");
            push_char(&mut why, c);
            push_str(&mut why, "'");
            assert(first_bad_slug_char(slug@) == Some(k as int));
            assert(utf8_len(slug@) <= 200);
            assert(why@ =~= "carácter no permitido: '"@ + seq![slug@[k as int]] + "'"@);
            return Err(SecurityError::InvalidSlug { slug: to_string(slug), reason: why });
        }
        k += 1;
    }
    proof {
        crate::text::lemma_first_where_none(p, 0, v@.len() as int);
    }
    if v[0] == '-' || v[v.len() - 1] == '-' {
        return Err(
            SecurityError::InvalidSlug {
                slug: to_string(slug),
                reason: to_string("el slug no puede empezar ni terminar con guión"),
            },
        );
    }
    if contains_exec(&v, &chars_of("--")) {
        return Err(
            SecurityError::InvalidSlug {
                slug: to_string(slug),
                reason: to_string("guiones dobles consecutivos no permitidos"),
            },
        );
    }
    Ok(())
}

// ————————————————————————————————————————————————
// Episode numbers
// ————————————————————————————————————————————————

/// Checks that an episode number is positive and at most 99999.
pub fn validate_episode_number(number: u32) -> (r: Result<(), SecurityError>)
    ensures
        number == 0 ==> (r matches Err(SecurityError::InvalidEpisodeNumber { number: n, reason })
            && n == 0 && reason@ == "el número de episodio no puede ser 0"@),
        number > 99_999 ==> (r matches Err(SecurityError::InvalidEpisodeNumber { number: n, reason })
            && n == number && reason@ == "número de episodio demasiado grande: "@ + decimal(number as nat)),
        1 <= number <= 99_999 ==> r is Ok,
{
    if number == 0 {
        return Err(
            SecurityError::InvalidEpisodeNumber {
                number,
                reason: to_string("el número de episodio no puede ser 0"),
            },
        );
    }
    if number > 99_999 {
        let mut why = to_string("número de episodio demasiado grande: ");
        push_decimal(&mut why, number as u64);
        return Err(SecurityError::InvalidEpisodeNumber { number, reason: why });
    }
    Ok(())
}

// ————————————————————————————————————————————————
// Search queries
// ————————————————————————————————————————————————

/// Whether `c` has the Unicode property `White_Space` (PropList.txt): the
/// controls U+0009–U+000D, the space, U+0085, the no-break space U+00A0,
/// U+1680, the spaces U+2000–U+200A, the line and paragraph separators
/// U+2028 and U+2029, U+202F, U+205F and the ideographic space U+3000.
pub open spec fn unicode_whitespace(c: char) -> bool {
    let v = c as u32;
    ||| 0x09 <= v <= 0x0D
    ||| v == 0x20
    ||| v == 0x85
    ||| v == 0xA0
    ||| v == 0x1680
    ||| 0x2000 <= v <= 0x200A
    ||| v == 0x2028
    ||| v == 0x2029
    ||| v == 0x202F
    ||| v == 0x205F
    ||| v == 0x3000
}

/// Whether `c` is white space (`char::is_whitespace`).
pub fn char_is_whitespace(c: char) -> (r: bool)
    ensures
        r == unicode_whitespace(c),
{
    let v = c as u32;
    (0x09 <= v && v <= 0x0D) || v == 0x20 || v == 0x85 || v == 0xA0 || v == 0x1680 || (0x2000 <= v && v
        <= 0x200A) || v == 0x2028 || v == 0x2029 || v == 0x202F || v == 0x205F || v == 0x3000
}

/// The lower-case form of `s`, as `str::to_lowercase` computes it.
pub uninterp spec fn lowercase(s: Seq<char>) -> Seq<char>;

/// The lower-case form of an ASCII character: `A`–`Z` become `a`–`z`,
/// every other character stays.
pub open spec fn ascii_lower(c: char) -> char {
    if 'A' <= c <= 'Z' {
        ((c as u32) + 32) as char
    } else {
        c
    }
}

/// `str::to_lowercase`. Claimed: the result is `lowercase(s@)`, and on a
/// string of ASCII characters it is the string with `A`–`Z` turned into
/// `a`–`z` and every other character kept (Unicode's lower-case mapping of
/// the ASCII range). Of other strings nothing more is stated.
#[verifier::external_body]
fn str_to_lowercase(s: &str) -> (r: String)
    ensures
        r@ == lowercase(s@),
        (forall|i: int| 0 <= i < s@.len() ==> (#[trigger] s@[i] as u32) < 0x80) ==> r@ == s@.map_values(
            |c: char| ascii_lower(c),
        ),
{
    s.to_lowercase()
}

/// Every character of `s` is white space: `s.trim()` is empty.
pub open spec fn blank(s: Seq<char>) -> bool {
    forall|i: int| 0 <= i < s.len() ==> unicode_whitespace(#[trigger] s[i])
}

/// The patterns a query may not hold (in lower case), in the order they are checked.
pub open spec fn suspicious_patterns() -> Seq<Seq<char>> {
    seq!["<script"@, "javascript:"@, "file://"@, "data:"@, "\0"@]
}

/// The first suspicious pattern that the lower-case query holds.
pub open spec fn first_suspicious(lower: Seq<char>) -> Option<int> {
    crate::text::first_where(
        |k: int| 0 <= k < 5 && contains(lower, suspicious_patterns()[k]),
        0,
        5,
    )
}

/// The reason for a rejected query, if any: blank; longer than 500 bytes;
/// holding, in lower case, one of the suspicious patterns.
pub open spec fn query_rejection(q: Seq<char>) -> Option<Seq<char>> {
    if blank(q) {
        Some("consulta de búsqueda vacía"@)
    } else if utf8_len(q) > 500 {
        Some("consulta demasiado larga ("@ + decimal(utf8_len(q)) + " chars, máximo 500)"@)
    } else {
        match first_suspicious(lowercase(q)) {
            Some(k) => Some("patrón no permitido en la consulta: '"@ + suspicious_patterns()[k] + "'"@),
            None => None,
        }
    }
}

/// Checks a search query: not blank, at most 500 bytes, and without any of
/// `<script`, `javascript:`, `file://`, `data:` or a NUL character in its
/// lower-case form.
pub fn validate_search_query(query: &str) -> (r: Result<(), SecurityError>)
    ensures
        match query_rejection(query@) {
            None => r is Ok,
            Some(reason) => r matches Err(SecurityError::InvalidQuery { reason: why }) && why@ == reason,
        },
{
    let v = chars_of(query);
    let mut k: usize = 0;
    let mut all_blank = true;
    while k < v.len()
        invariant
            k <= v.len(),
            v@ == query@,
            all_blank == (forall|i: int| 0 <= i < k ==> unicode_whitespace(#[trigger] v@[i])),
        decreases v.len() - k,
    {
        if !char_is_whitespace(v[k]) {
            all_blank = false;
        }
        k += 1;
    }
    if all_blank {
        return Err(SecurityError::InvalidQuery { reason: to_string("consulta de búsqueda vacía") });
    }
    assert(!blank(query@)) by {
        assert(!(forall|i: int| 0 <= i < v@.len() ==> unicode_whitespace(#[trigger] v@[i])));
    }
    let n = str_byte_len(query);
    if n > 500 {
        let mut why = to_string("consulta demasiado larga (");
        push_decimal(&mut why, n as u64);
        push_str(&mut why, " chars, máximo 500)");
        return Err(SecurityError::InvalidQuery { reason: why });
    }
    let patterns: [&str; 5] = ["<script", "javascript:", "file://", "data:", "\0"];
    let ghost pats = suspicious_patterns();
    let ghost lower = lowercase(query@);
    let ghost p = |k: int| 0 <= k < 5 && contains(lowercase(query@), suspicious_patterns()[k]);
    let mut j: usize = 0;
    while j < 5
        invariant
            j <= 5,
            !blank(query@),
            utf8_len(query@) <= 500,
            lower == lowercase(query@),
            pats == suspicious_patterns(),
            p == (|k: int| 0 <= k < 5 && contains(lowercase(query@), suspicious_patterns()[k])),
            forall|i: int| 0 <= i < 5 ==> (#[trigger] patterns@[i])@ == pats[i],
            forall|i: int| 0 <= i < j ==> !#[trigger] p(i),
        decreases 5 - j,
    {
        let pattern = patterns[j];
        let low = str_to_lowercase(query);
        if contains_exec(&chars_of(low.as_str()), &chars_of(pattern)) {
            proof {
                crate::text::lemma_first_where_is(p, 0, 5, j as int);
            }
            let mut why = to_string("patrón no permitido en la consulta: '");
            push_str(&mut why, pattern);
            push_str(&mut why, "'");
            assert(!blank(query@));
            assert(utf8_len(query@) <= 500);
            assert(first_suspicious(lowercase(query@)) == Some(j as int));
            assert(pattern@ == suspicious_patterns()[j as int]);
            return Err(SecurityError::InvalidQuery { reason: why });
        }
        j += 1;
    }
    proof {
        crate::text::lemma_first_where_none(p, 0, 5);
    }
    Ok(())
}

// ————————————————————————————————————————————————
// What validation records in the log
// ————————————————————————————————————————————————

/// The SEC line that validation records for a slug refused for a
/// character: the character and the slug cut to 30 bytes. Other
/// rejections record nothing.
pub open spec fn slug_rejection_event(s: Seq<char>) -> Option<LogEventView> {
    if s.len() > 0 && utf8_len(s) <= 200 && first_bad_slug_char(s) is Some {
        Some(
            LogEventView::Security {
                module: "security"@,
                message: "Slug rechazado: carácter inválido '"@ + seq![s[first_bad_slug_char(s)->0]] + "' en '"@
                    + byte_cut(s, 30) + "'"@,
            },
        )
    } else {
        None
    }
}

/// What validating `slug` records in the log (see `slug_rejection_event`).
pub fn slug_rejection_log(slug: &str) -> (r: Option<LogEvent>)
    ensures
        match slug_rejection_event(slug@) {
            Some(e) => r matches Some(x) && x@ == e,
            None => r is None,
        },
{
    let v = chars_of(slug);
    if v.len() == 0 || str_byte_len(slug) > 200 {
        return None;
    }
    let ghost p = |i: int| 0 <= i < slug@.len() && !slug_char(slug@[i]);
    let mut k: usize = 0;
    while k < v.len()
        invariant
            k <= v.len(),
            v@ == slug@,
            slug@.len() > 0,
            utf8_len(slug@) <= 200,
            p == (|i: int| 0 <= i < slug@.len() && !slug_char(slug@[i])),
            forall|j: int| 0 <= j < k ==> !#[trigger] p(j),
        decreases v.len() - k,
    {
        let c = v[k];
        if !(('a' <= c && c <= 'z') || ('0' <= c && c <= '9') || c == '-') {
            proof {
                crate::text::lemma_first_where_is(p, 0, v@.len() as int, k as int);
            }
            let mut m = to_string("Slug rechazado: carácter inválido '");
            push_char(&mut m, c);
            push_str(&mut m, "' en '");
            let cut = fit_count_exec(&v, 30);
            let head = string_of(&v, 0, cut);
            push_str(&mut m, head.as_str());
            push_str(&mut m, "'");
            assert(first_bad_slug_char(slug@) == Some(k as int));
            assert(head@ == byte_cut(slug@, 30));
            assert(m@ =~= "Slug rechazado: carácter inválido '"@ + seq![slug@[k as int]] + "' en '"@
                + byte_cut(slug@, 30) + "'"@);
            return Some(LogEvent::Security { module: to_string("security"), message: m });
        }
        k += 1;
    }
    proof {
        crate::text::lemma_first_where_none(p, 0, v@.len() as int);
    }
    None
}

/// The SEC line that validation records for a query refused for a
/// suspicious pattern: the pattern and the query cut to 50 bytes. Other
/// rejections record nothing.
pub open spec fn query_rejection_event(q: Seq<char>) -> Option<LogEventView> {
    if !blank(q) && utf8_len(q) <= 500 && first_suspicious(lowercase(q)) is Some {
        Some(
            LogEventView::Security {
                module: "security"@,
                message: "Query sospechosa rechazada: contiene patrón '"@ + suspicious_patterns()[first_suspicious(
                    lowercase(q),
                )->0] + "' en query='"@ + byte_cut(q, 50) + "'"@,
            },
        )
    } else {
        None
    }
}

/// What validating `query` records in the log (see `query_rejection_event`).
pub fn query_rejection_log(query: &str) -> (r: Option<LogEvent>)
    ensures
        match query_rejection_event(query@) {
            Some(e) => r matches Some(x) && x@ == e,
            None => r is None,
        },
{
    let v = chars_of(query);
    let mut k: usize = 0;
    let mut all_blank = true;
    while k < v.len()
        invariant
            k <= v.len(),
            v@ == query@,
            all_blank == (forall|i: int| 0 <= i < k ==> unicode_whitespace(#[trigger] v@[i])),
        decreases v.len() - k,
    {
        if !char_is_whitespace(v[k]) {
            all_blank = false;
        }
        k += 1;
    }
    if all_blank || str_byte_len(query) > 500 {
        return None;
    }
    assert(!blank(query@)) by {
        assert(!(forall|i: int| 0 <= i < v@.len() ==> unicode_whitespace(#[trigger] v@[i])));
    }
    let patterns: [&str; 5] = ["<script", "javascript:", "file://", "data:", "\0"];
    let ghost p = |k: int| 0 <= k < 5 && contains(lowercase(query@), suspicious_patterns()[k]);
    let mut j: usize = 0;
    while j < 5
        invariant
            j <= 5,
            v@ == query@,
            !blank(query@),
            utf8_len(query@) <= 500,
            p == (|k: int| 0 <= k < 5 && contains(lowercase(query@), suspicious_patterns()[k])),
            forall|i: int| 0 <= i < 5 ==> (#[trigger] patterns@[i])@ == suspicious_patterns()[i],
            forall|i: int| 0 <= i < j ==> !#[trigger] p(i),
        decreases 5 - j,
    {
        let pattern = patterns[j];
        let low = str_to_lowercase(query);
        if contains_exec(&chars_of(low.as_str()), &chars_of(pattern)) {
            proof {
                crate::text::lemma_first_where_is(p, 0, 5, j as int);
            }
            let mut m = to_string("Query sospechosa rechazada: contiene patrón '");
            push_str(&mut m, pattern);
            push_str(&mut m, "' en query='");
            let cut = fit_count_exec(&v, 50);
            let head = string_of(&v, 0, cut);
            push_str(&mut m, head.as_str());
            push_str(&mut m, "'");
            assert(first_suspicious(lowercase(query@)) == Some(j as int));
            assert(pattern@ == suspicious_patterns()[j as int]);
            assert(head@ == byte_cut(query@, 50));
            assert(m@ =~= "Query sospechosa rechazada: contiene patrón '"@ + suspicious_patterns()[j as int]
                + "' en query='"@ + byte_cut(query@, 50) + "'"@);
            return Some(LogEvent::Security { module: to_string("security"), message: m });
        }
        j += 1;
    }
    proof {
        crate::text::lemma_first_where_none(p, 0, 5);
    }
    None
}

// ————————————————————————————————————————————————
// Laws
// ————————————————————————————————————————————————

/// A slug that passes validation is safe in a URL path: it is not empty, it
/// takes at most 200 bytes, every character is a lower-case ASCII letter, a
/// digit or `-`, and so it holds no `.`, `/`, `\`, `%`, `@` or space, and
/// no `..`.
pub proof fn law_accepted_slug_is_safe(s: Seq<char>)
    requires
        slug_rejection(s) is None,
    ensures
        s.len() > 0,
        utf8_len(s) <= 200,
        forall|i: int| 0 <= i < s.len() ==> slug_char(#[trigger] s[i]),
        forall|i: int|
            0 <= i < s.len() ==> #[trigger] s[i] != '.' && s[i] != '/' && s[i] != '\\' && s[i] != '%' && s[i]
                != '@' && s[i] != ' ',
        !contains(s, ".."@),
{
    let p = |i: int| 0 <= i < s.len() && !slug_char(s[i]);
    crate::text::lemma_first_where(p, 0, s.len() as int);
    assert forall|i: int| 0 <= i < s.len() implies slug_char(#[trigger] s[i]) by {
        assert(!p(i));
    }
    if contains(s, ".."@) {
        reveal_strlit("..");
        let i = choose|i: int| #[trigger] crate::text::occurs_at(s, i, ".."@);
        assert(".."@.len() == 2);
        crate::text::lemma_occurs_at_index(s, i, ".."@, 0);
        assert(slug_char(s[i]));
    }
}


/// Every well-formed slug is accepted: one that is not empty, takes at
/// most 200 bytes, is made of lower-case ASCII letters, ASCII digits and
/// hyphens, neither starts nor ends with a hyphen, and has no two hyphens
/// in a row ("mob-psycho-100", "one-piece", "86").
pub proof fn law_well_formed_slug_is_accepted(s: Seq<char>)
    ensures
        ({
            &&& s.len() > 0
            &&& utf8_len(s) <= 200
            &&& forall|i: int|
                0 <= i < s.len() ==> ('a' <= #[trigger] s[i] && s[i] <= 'z') || ('0' <= s[i] && s[i] <= '9') || s[i]
                    == '-'
            &&& s[0] != '-'
            &&& s[s.len() - 1] != '-'
            &&& forall|i: int| 0 <= i < s.len() - 1 ==> !(#[trigger] s[i] == '-' && s[i + 1] == '-')
        }) ==> slug_rejection(s) is None,
{
    if s.len() > 0 && utf8_len(s) <= 200 && (forall|i: int|
        0 <= i < s.len() ==> ('a' <= #[trigger] s[i] && s[i] <= 'z') || ('0' <= s[i] && s[i] <= '9') || s[i]
            == '-') && s[0] != '-' && s[s.len() - 1] != '-' && (forall|i: int|
        0 <= i < s.len() - 1 ==> !(#[trigger] s[i] == '-' && s[i + 1] == '-')) {
        let p = |i: int| 0 <= i < s.len() && !slug_char(s[i]);
        assert forall|i: int| 0 <= i < s.len() implies !#[trigger] p(i) by {
            assert(slug_char(s[i]));
        }
        crate::text::lemma_first_where_none(p, 0, s.len() as int);
        if contains(s, "--"@) {
            reveal_strlit("--");
            let i = choose|i: int| #[trigger] crate::text::occurs_at(s, i, "--"@);
            assert("--"@.len() == 2);
            crate::text::lemma_occurs_at_index(s, i, "--"@, 0);
            crate::text::lemma_occurs_at_index(s, i, "--"@, 1);
            assert(s[i] == '-' && s[i + 1] == '-');
            assert(false);
        }
    }
}

} // verus!
