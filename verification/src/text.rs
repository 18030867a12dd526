//! Character-sequence utilities shared by the scrapers, the validators and
//! the text shown in the terminal.

use vstd::prelude::*;

verus! {

// ————————————————————————————————————————————————
// Leftmost positions
// ————————————————————————————————————————————————

/// The smallest `i` in `[lo, hi)` at which `p` holds, if any.
#[verifier::opaque]
pub open spec fn first_where(p: spec_fn(int) -> bool, lo: int, hi: int) -> Option<int> {
    if exists|i: int| lo <= i < hi && #[trigger] p(i) {
        Some(choose|i: int| lo <= i < hi && #[trigger] p(i) && forall|j: int| lo <= j < i ==> !#[trigger] p(j))
    } else {
        None
    }
}

/// A position where `p` holds and before which (from `lo`) it never does is
/// the leftmost one.
pub proof fn lemma_first_where_is(p: spec_fn(int) -> bool, lo: int, hi: int, i: int)
    requires
        lo <= i < hi,
        p(i),
        forall|j: int| lo <= j < i ==> !#[trigger] p(j),
    ensures
        first_where(p, lo, hi) == Some(i),
{
    reveal(first_where);
    assert(exists|i: int| lo <= i < hi && #[trigger] p(i));
    let k = choose|k: int| lo <= k < hi && #[trigger] p(k) && forall|j: int| lo <= j < k ==> !#[trigger] p(j);
    assert(lo <= k < hi && p(k) && forall|j: int| lo <= j < k ==> !#[trigger] p(j));
    if k < i {
        assert(!p(k));
    } else if k > i {
        assert(!p(i));
    }
}

/// Where `p` never holds in `[lo, hi)` there is no leftmost position.
pub proof fn lemma_first_where_none(p: spec_fn(int) -> bool, lo: int, hi: int)
    requires
        forall|j: int| lo <= j < hi ==> !#[trigger] p(j),
    ensures
        first_where(p, lo, hi) is None,
{
    reveal(first_where);
}

/// If `p` holds somewhere in `[lo, hi)`, it holds at a leftmost position.
pub proof fn lemma_leftmost_exists(p: spec_fn(int) -> bool, lo: int, hi: int, i: int)
    requires
        lo <= i < hi,
        p(i),
    ensures
        exists|k: int| lo <= k < hi && #[trigger] p(k) && forall|j: int| lo <= j < k ==> !#[trigger] p(j),
    decreases i - lo,
{
    if exists|j: int| lo <= j < i && #[trigger] p(j) {
        let j = choose|j: int| lo <= j < i && #[trigger] p(j);
        lemma_leftmost_exists(p, lo, hi, j);
    } else {
        assert(lo <= i < hi && p(i) && forall|j: int| lo <= j < i ==> !#[trigger] p(j));
    }
}

/// What `first_where` returns: the leftmost position, or `None` when there
/// is no position at all.
pub proof fn lemma_first_where(p: spec_fn(int) -> bool, lo: int, hi: int)
    ensures
        first_where(p, lo, hi) matches Some(i) ==> {
            &&& lo <= i < hi
            &&& p(i)
            &&& forall|j: int| lo <= j < i ==> !#[trigger] p(j)
        },
        first_where(p, lo, hi) is None ==> forall|j: int| lo <= j < hi ==> !#[trigger] p(j),
{
    reveal(first_where);
    if exists|i: int| lo <= i < hi && #[trigger] p(i) {
        let i = choose|i: int| lo <= i < hi && #[trigger] p(i);
        lemma_leftmost_exists(p, lo, hi, i);
    }
}

// ————————————————————————————————————————————————
// Occurrences of a pattern
// ————————————————————————————————————————————————

/// `pat` occurs in `s` starting at index `i`.
pub open spec fn occurs_at(s: Seq<char>, i: int, pat: Seq<char>) -> bool {
    &&& 0 <= i
    &&& i + pat.len() <= s.len()
    &&& s.subrange(i, i + pat.len()) == pat
}


/// The characters of an occurrence of `pat` are those of `pat`.
pub proof fn lemma_occurs_at_index(s: Seq<char>, i: int, pat: Seq<char>, k: int)
    requires
        occurs_at(s, i, pat),
        0 <= k < pat.len(),
    ensures
        s[i + k] == pat[k],
{
    assert(s.subrange(i, i + pat.len())[k] == pat[k]);
}

/// The first index at or after `from` where `pat` occurs in `s`.
pub open spec fn find_from(s: Seq<char>, pat: Seq<char>, from: int) -> Option<int> {
    first_where(|i: int| occurs_at(s, i, pat), from, s.len() + 1int)
}

/// `pat` occurs somewhere in `s`.
pub open spec fn contains(s: Seq<char>, pat: Seq<char>) -> bool {
    exists|i: int| #[trigger] occurs_at(s, i, pat)
}

/// `s` begins with `pat`.
pub open spec fn starts_with(s: Seq<char>, pat: Seq<char>) -> bool {
    occurs_at(s, 0, pat)
}

/// The characters of a string slice, as a vector.
pub fn chars_of(s: &str) -> (v: Vec<char>)
    ensures
        v@ == s@,
{
    let mut v: Vec<char> = Vec::new();
    for c in it: s.chars()
        invariant
            v@ == it.history(),
    {
        v.push(c);
    }
    v
}

/// Whether `pat` occurs in `s` at index `i`.
pub fn occurs_at_exec(s: &Vec<char>, i: usize, pat: &Vec<char>) -> (r: bool)
    ensures
        r == occurs_at(s@, i as int, pat@),
{
    if i > s.len() || pat.len() > s.len() - i {
        return false;
    }
    let mut k: usize = 0;
    while k < pat.len()
        invariant
            i + pat.len() <= s.len(),
            k <= pat.len(),
            forall|j: int| 0 <= j < k ==> s@[i + j] == pat@[j],
        decreases pat.len() - k,
    {
        if s[i + k] != pat[k] {
            assert(s@.subrange(i as int, i + pat.len())[k as int] != pat@[k as int]);
            return false;
        }
        k += 1;
    }
    assert(s@.subrange(i as int, i + pat.len()) =~= pat@);
    true
}

/// The first index at or after `from` where `pat` occurs in `s`.
pub fn find_from_exec(s: &Vec<char>, pat: &Vec<char>, from: usize) -> (r: Option<usize>)
    ensures
        r matches Some(i) ==> find_from(s@, pat@, from as int) == Some(i as int) && from <= i
            && occurs_at(s@, i as int, pat@),
        r is None ==> find_from(s@, pat@, from as int) is None,
{
    let ghost p = |i: int| occurs_at(s@, i, pat@);
    if from > s.len() {
        proof {
            lemma_first_where_none(p, from as int, s@.len() + 1int);
        }
        return None;
    }
    let mut i = from;
    loop
        invariant
            from <= i <= s.len(),
            p == (|i: int| occurs_at(s@, i, pat@)),
            forall|j: int| from <= j < i ==> !#[trigger] p(j),
        decreases s.len() - i,
    {
        if occurs_at_exec(s, i, pat) {
            proof {
                lemma_first_where_is(p, from as int, s@.len() + 1int, i as int);
            }
            return Some(i);
        }
        if i == s.len() {
            proof {
                lemma_first_where_none(p, from as int, s@.len() + 1int);
            }
            return None;
        }
        i += 1;
    }
}

/// Facts about `find_from`: an occurrence with none before it, or no
/// occurrence at all from `from` on.
pub proof fn lemma_find_from(s: Seq<char>, pat: Seq<char>, from: int)
    ensures
        find_from(s, pat, from) matches Some(i) ==> {
            &&& from <= i
            &&& occurs_at(s, i, pat)
            &&& forall|j: int| from <= j < i ==> !#[trigger] occurs_at(s, j, pat)
        },
        find_from(s, pat, from) is None ==> forall|j: int| from <= j ==> !#[trigger] occurs_at(s, j, pat),
{
    let p = |i: int| occurs_at(s, i, pat);
    lemma_first_where(p, from, s.len() + 1int);
    if find_from(s, pat, from) is None {
        assert forall|j: int| from <= j implies !#[trigger] occurs_at(s, j, pat) by {
            if j < s.len() + 1 {
                assert(!p(j));
            }
        }
    } else {
        let i = find_from(s, pat, from)->0;
        assert(p(i));
        assert forall|j: int| from <= j < i implies !#[trigger] occurs_at(s, j, pat) by {
            assert(!p(j));
        }
    }
}

/// Whether `pat` occurs anywhere in `s`.
pub fn contains_exec(s: &Vec<char>, pat: &Vec<char>) -> (r: bool)
    ensures
        r == contains(s@, pat@),
{
    let r = find_from_exec(s, pat, 0);
    proof {
        lemma_find_from(s@, pat@, 0);
    }
    r.is_some()
}


// ————————————————————————————————————————————————
// Building strings
// ————————————————————————————————————————————————

/// The string made of `v[a..e]`.
pub fn string_of(v: &Vec<char>, a: usize, e: usize) -> (r: String)
    requires
        a <= e <= v.len(),
    ensures
        r@ == v@.subrange(a as int, e as int),
{
    let mut r = String::new();
    let mut k = a;
    while k < e
        invariant
            a <= k <= e <= v.len(),
            r@ == v@.subrange(a as int, k as int),
        decreases e - k,
    {
        push_char(&mut r, v[k]);
        assert(v@.subrange(a as int, k + 1) =~= v@.subrange(a as int, k as int).push(v@[k as int]));
        k += 1;
    }
    r
}

/// The string made of all of `v`.
pub fn string_from(v: &Vec<char>) -> (r: String)
    ensures
        r@ == v@,
{
    let r = string_of(v, 0, v.len());
    assert(v@.subrange(0, v@.len() as int) =~= v@);
    r
}

/// Appends the characters of `t` to `s`.
pub fn push_str(s: &mut String, t: &str)
    ensures
        final(s)@ == old(s)@ + t@,
{
    let v = chars_of(t);
    let ghost s0 = s@;
    let mut k: usize = 0;
    while k < v.len()
        invariant
            k <= v.len(),
            v@ == t@,
            s@ == s0 + v@.subrange(0, k as int),
        decreases v.len() - k,
    {
        push_char(s, v[k]);
        assert(v@.subrange(0, k + 1) =~= v@.subrange(0, k as int).push(v@[k as int]));
        k += 1;
    }
    assert(v@.subrange(0, v@.len() as int) =~= v@);
}

/// Appends the characters `v[a..e]` to `s`.
pub fn push_range(s: &mut String, v: &Vec<char>, a: usize, e: usize)
    requires
        a <= e <= v.len(),
    ensures
        final(s)@ == old(s)@ + v@.subrange(a as int, e as int),
{
    let ghost s0 = s@;
    let mut k = a;
    while k < e
        invariant
            a <= k <= e <= v.len(),
            s@ == s0 + v@.subrange(a as int, k as int),
        decreases e - k,
    {
        push_char(s, v[k]);
        assert(v@.subrange(a as int, k + 1) =~= v@.subrange(a as int, k as int).push(v@[k as int]));
        k += 1;
    }
}

// ————————————————————————————————————————————————
// Character classes and runs
// ————————————————————————————————————————————————

/// Whether the regular-expression class `\d` holds of `c`: the Unicode
/// decimal digits (general category `Nd`), as the `regex` crate decides it.
pub uninterp spec fn regex_digit(c: char) -> bool;

/// `regex::Regex::new(r"\A\d\z")` followed by `Regex::is_match` on the
/// one-character string `c`. Claimed of it: the result is `regex_digit(c)`,
/// and among ASCII characters the class `\d` holds exactly of `'0'..='9'`
/// (the regex crate documents `\d` as `\p{Nd}`, whose ASCII members are
/// those ten digits). The pattern is a fixed valid one, so `new` succeeds.
#[verifier::external_body]
fn regex_class_digit(c: char) -> (r: bool)
    ensures
        r == regex_digit(c),
        ('0' <= c && c <= '9') ==> r,
        ((c as u32) < 128 && !('0' <= c && c <= '9')) ==> !r,
{
    let mut buf = [0u8; 4];
    regex::Regex::new(r"\A\d\z").unwrap().is_match(c.encode_utf8(&mut buf))
}

/// The character classes that the page grammars use after a key.
#[derive(Clone, Copy, Debug, PartialEq, Eq)]
pub enum CharClass {
    /// `\d`
    Digit,
    /// `[^"]`
    NotQuote,
    /// `[^\]]`
    NotCloseBracket,
    /// `[A-Za-z0-9]`
    AsciiAlnum,
    /// `[0-9a-f]`
    LowerHex,
    /// `[\d.]`
    DigitOrDot,
}

pub open spec fn is_ascii_digit(c: char) -> bool {
    '0' <= c && c <= '9'
}

pub open spec fn is_ascii_alnum(c: char) -> bool {
    ||| ('a' <= c && c <= 'z')
    ||| ('A' <= c && c <= 'Z')
    ||| ('0' <= c && c <= '9')
}

pub open spec fn is_lower_hex(c: char) -> bool {
    ('0' <= c && c <= '9') || ('a' <= c && c <= 'f')
}

/// Membership of `c` in the class `k`.
pub open spec fn in_class(k: CharClass, c: char) -> bool {
    match k {
        CharClass::Digit => regex_digit(c),
        CharClass::NotQuote => c != '"',
        CharClass::NotCloseBracket => c != ']',
        CharClass::AsciiAlnum => is_ascii_alnum(c),
        CharClass::LowerHex => is_lower_hex(c),
        CharClass::DigitOrDot => regex_digit(c) || c == '.',
    }
}

/// Membership of `c` in the class `k`.
pub fn in_class_exec(k: CharClass, c: char) -> (r: bool)
    ensures
        r == in_class(k, c),
{
    match k {
        CharClass::Digit => regex_class_digit(c),
        CharClass::NotQuote => c != '"',
        CharClass::NotCloseBracket => c != ']',
        CharClass::AsciiAlnum => ('a' <= c && c <= 'z') || ('A' <= c && c <= 'Z') || ('0' <= c
            && c <= '9'),
        CharClass::LowerHex => ('0' <= c && c <= '9') || ('a' <= c && c <= 'f'),
        CharClass::DigitOrDot => c == '.' || regex_class_digit(c),
    }
}

/// The end of the longest run of characters of class `k` that starts at `i`.
pub open spec fn run_end(s: Seq<char>, i: int, k: CharClass) -> int
    decreases s.len() - i,
{
    if 0 <= i < s.len() && in_class(k, s[i]) {
        run_end(s, i + 1, k)
    } else {
        i
    }
}

/// Every character of a run is of its class, and the run is as long as it can be.
pub proof fn lemma_run_end(s: Seq<char>, i: int, k: CharClass)
    requires
        0 <= i <= s.len(),
    ensures
        i <= run_end(s, i, k) <= s.len(),
        forall|j: int| i <= j < run_end(s, i, k) ==> in_class(k, #[trigger] s[j]),
        run_end(s, i, k) < s.len() ==> !in_class(k, s[run_end(s, i, k)]),
    decreases s.len() - i,
{
    if i < s.len() && in_class(k, s[i]) {
        lemma_run_end(s, i + 1, k);
    }
}

/// A run of class `k` from `i` up to `j`, ending `s` or followed by a
/// character outside the class, ends at `j`.
pub proof fn lemma_run_end_at(s: Seq<char>, i: int, j: int, k: CharClass)
    requires
        0 <= i <= j <= s.len(),
        forall|m: int| i <= m < j ==> in_class(k, #[trigger] s[m]),
        j < s.len() ==> !in_class(k, s[j]),
    ensures
        run_end(s, i, k) == j,
{
    lemma_run_end(s, i, k);
    let r = run_end(s, i, k);
    if r < j {
        assert(in_class(k, s[r]));
    } else if r > j {
        assert(in_class(k, s[j]));
    }
}

/// The end of the longest run of characters of class `k` that starts at `i`.
pub fn scan_run(s: &Vec<char>, i: usize, k: CharClass) -> (r: usize)
    requires
        i <= s.len(),
    ensures
        r as int == run_end(s@, i as int, k),
        i <= r <= s.len(),
{
    let mut j = i;
    while j < s.len() && in_class_exec(k, s[j])
        invariant
            i <= j <= s.len(),
            run_end(s@, j as int, k) == run_end(s@, i as int, k),
        decreases s.len() - j,
    {
        j += 1;
    }
    j
}

// ————————————————————————————————————————————————
// "key, then a run" captures
// ————————————————————————————————————————————————

/// The pattern `key(C+)`, with `C` the class `k`, matches at `i`; when
/// `closed` holds, the run must also be followed by some character (the
/// closing delimiter that the class excludes, such as `"` or `]`).
pub open spec fn key_run_at(s: Seq<char>, i: int, key: Seq<char>, k: CharClass, closed: bool) -> bool {
    &&& occurs_at(s, i, key)
    &&& run_end(s, i + key.len(), k) > i + key.len()
    &&& closed ==> run_end(s, i + key.len(), k) < s.len()
}

/// The leftmost match of `key(C+)` (see `key_run_at`).
pub open spec fn key_run_pos(s: Seq<char>, key: Seq<char>, k: CharClass, closed: bool) -> Option<int> {
    first_where(|i: int| key_run_at(s, i, key, k, closed), 0, s.len() + 1int)
}

/// What the leftmost match of `key(C+)` captures.
pub open spec fn key_run_capture(s: Seq<char>, key: Seq<char>, k: CharClass, closed: bool) -> Option<Seq<char>> {
    match key_run_pos(s, key, k, closed) {
        Some(i) => Some(s.subrange(i + key.len(), run_end(s, i + key.len(), k))),
        None => None,
    }
}

/// The span `(start, end)` of the capture of the leftmost match of `key(C+)`.
pub fn find_key_run(s: &Vec<char>, key: &Vec<char>, k: CharClass, closed: bool) -> (r: Option<(usize, usize)>)
    ensures
        r matches Some((a, e)) ==> {
            &&& key_run_pos(s@, key@, k, closed) matches Some(i)
            &&& a == i + key@.len()
            &&& e == run_end(s@, a as int, k)
            &&& a < e <= s@.len()
        },
        r is None ==> key_run_pos(s@, key@, k, closed) is None,
{
    let ghost p = |i: int| key_run_at(s@, i, key@, k, closed);
    let mut i: usize = 0;
    loop
        invariant
            i <= s.len(),
            p == (|i: int| key_run_at(s@, i, key@, k, closed)),
            forall|j: int| 0 <= j < i ==> !#[trigger] p(j),
        decreases s.len() - i,
    {
        if occurs_at_exec(s, i, key) {
            let a = i + key.len();
            let e = scan_run(s, a, k);
            if e > a && (!closed || e < s.len()) {
                proof {
                    lemma_first_where_is(p, 0, s@.len() + 1int, i as int);
                }
                return Some((a, e));
            }
        }
        if i == s.len() {
            proof {
                lemma_first_where_none(p, 0, s@.len() + 1int);
            }
            return None;
        }
        i += 1;
    }
}

/// The capture of the leftmost match of `key(C+)`, as a string.
pub fn key_run_string(s: &Vec<char>, key: &str, k: CharClass, closed: bool) -> (r: Option<String>)
    ensures
        r matches Some(t) ==> key_run_capture(s@, key@, k, closed) == Some(t@),
        r is None ==> key_run_capture(s@, key@, k, closed) is None,
{
    let kv = chars_of(key);
    match find_key_run(s, &kv, k, closed) {
        Some((a, e)) => Some(string_of(s, a, e)),
        None => None,
    }
}


// ————————————————————————————————————————————————
// Replacing and splitting
// ————————————————————————————————————————————————

/// `s[pos..]` with every occurrence of `pat` (found left to right, without
/// overlap) replaced by `rep`: `str::replace`.
#[verifier::opaque]
pub open spec fn replace_from(s: Seq<char>, pat: Seq<char>, rep: Seq<char>, pos: int) -> Seq<char>
    recommends
        pat.len() > 0,
    decreases s.len() + 1 - pos,
{
    if pat.len() == 0 || pos < 0 || pos > s.len() {
        s
    } else {
    match find_from(s, pat, pos) {
        Some(i) => {
            proof {
                lemma_find_from(s, pat, pos);
            }
            s.subrange(pos, i) + rep + replace_from(s, pat, rep, i + pat.len())
        },
        None => s.subrange(pos, s.len() as int),
    }
    }
}

/// `s` with every occurrence of `pat` replaced by `rep`.
pub open spec fn replace_all(s: Seq<char>, pat: Seq<char>, rep: Seq<char>) -> Seq<char> {
    replace_from(s, pat, rep, 0)
}

/// The pieces of `s[pos..]` between the occurrences of `sep`: `str::split`.
#[verifier::opaque]
pub open spec fn split_from(s: Seq<char>, sep: Seq<char>, pos: int) -> Seq<Seq<char>>
    recommends
        sep.len() > 0,
    decreases s.len() + 1 - pos,
{
    if sep.len() == 0 || pos < 0 || pos > s.len() {
        seq![s]
    } else {
    match find_from(s, sep, pos) {
        Some(i) => {
            proof {
                lemma_find_from(s, sep, pos);
            }
            seq![s.subrange(pos, i)] + split_from(s, sep, i + sep.len())
        },
        None => seq![s.subrange(pos, s.len() as int)],
    }
    }
}

/// The pieces of `s` between the occurrences of `sep`.
pub open spec fn split_all(s: Seq<char>, sep: Seq<char>) -> Seq<Seq<char>> {
    split_from(s, sep, 0)
}

/// `v[a..e]` appended to `out`.
pub fn extend_range(out: &mut Vec<char>, v: &Vec<char>, a: usize, e: usize)
    requires
        a <= e <= v.len(),
    ensures
        final(out)@ == old(out)@ + v@.subrange(a as int, e as int),
{
    let ghost before = out@;
    let mut k = a;
    while k < e
        invariant
            a <= k <= e <= v.len(),
            out@ == before + v@.subrange(a as int, k as int),
        decreases e - k,
    {
        out.push(v[k]);
        assert(v@.subrange(a as int, k + 1) =~= v@.subrange(a as int, k as int).push(v@[k as int]));
        k += 1;
    }
}


/// The characters `v[a..e]`, as a new vector.
pub fn sub_vec(v: &Vec<char>, a: usize, e: usize) -> (r: Vec<char>)
    requires
        a <= e <= v.len(),
    ensures
        r@ == v@.subrange(a as int, e as int),
{
    let mut r: Vec<char> = Vec::new();
    extend_range(&mut r, v, a, e);
    assert(r@ =~= v@.subrange(a as int, e as int));
    r
}

/// One step of `replace_from`.
pub proof fn lemma_replace_step(s: Seq<char>, pat: Seq<char>, rep: Seq<char>, pos: int)
    requires
        pat.len() > 0,
        0 <= pos <= s.len(),
    ensures
        find_from(s, pat, pos) matches Some(i) ==> pos <= i && i + pat.len() <= s.len()
            && replace_from(s, pat, rep, pos) == s.subrange(pos, i) + rep + replace_from(s, pat, rep, i + pat.len()),
        find_from(s, pat, pos) is None ==> replace_from(s, pat, rep, pos) == s.subrange(pos, s.len() as int),
{
    reveal(replace_from);
    lemma_find_from(s, pat, pos);
}

/// One step of `split_from`.
pub proof fn lemma_split_step(s: Seq<char>, sep: Seq<char>, pos: int)
    requires
        sep.len() > 0,
        0 <= pos <= s.len(),
    ensures
        find_from(s, sep, pos) matches Some(i) ==> pos <= i && i + sep.len() <= s.len()
            && split_from(s, sep, pos) == seq![s.subrange(pos, i)] + split_from(s, sep, i + sep.len()),
        find_from(s, sep, pos) is None ==> split_from(s, sep, pos) == seq![s.subrange(pos, s.len() as int)],
{
    reveal(split_from);
    lemma_find_from(s, sep, pos);
}

/// `s` with every occurrence of `pat` replaced by `rep`.
#[verifier::spinoff_prover]
#[verifier::rlimit(40)]
pub fn replace_all_exec(s: &Vec<char>, pat: &Vec<char>, rep: &Vec<char>) -> (r: Vec<char>)
    requires
        pat.len() > 0,
    ensures
        r@ == replace_all(s@, pat@, rep@),
{
    let mut out: Vec<char> = Vec::new();
    let mut pos: usize = 0;
    loop
        invariant
            pat.len() > 0,
            pos <= s.len(),
            replace_all(s@, pat@, rep@) == out@ + replace_from(s@, pat@, rep@, pos as int),
        decreases s.len() + 1 - pos,
    {
        let f = find_from_exec(s, pat, pos);
        proof {
            lemma_replace_step(s@, pat@, rep@, pos as int);
        }
        let ghost before = out@;
        match f {
            Some(i) => {
                extend_range(&mut out, s, pos, i);
                extend_range(&mut out, rep, 0, rep.len());
                assert(rep@.subrange(0, rep@.len() as int) =~= rep@);
                assert(out@ + replace_from(s@, pat@, rep@, i + pat@.len()) =~= before + replace_from(s@, pat@, rep@, pos as int));
                pos = i + pat.len();
            },
            None => {
                extend_range(&mut out, s, pos, s.len());
                assert(out@ =~= before + replace_from(s@, pat@, rep@, pos as int));
                return out;
            },
        }
    }
}

/// The pieces of `s` between the occurrences of `sep`.
#[verifier::spinoff_prover]
#[verifier::rlimit(40)]
pub fn split_exec(s: &Vec<char>, sep: &Vec<char>) -> (r: Vec<Vec<char>>)
    requires
        sep.len() > 0,
    ensures
        r@.len() == split_all(s@, sep@).len(),
        forall|j: int| 0 <= j < r@.len() ==> #[trigger] r@[j]@ == split_all(s@, sep@)[j],
{
    let mut out: Vec<Vec<char>> = Vec::new();
    let ghost mut views: Seq<Seq<char>> = seq![];
    let mut pos: usize = 0;
    loop
        invariant
            sep.len() > 0,
            pos <= s.len(),
            views.len() == out@.len(),
            forall|j: int| 0 <= j < out@.len() ==> #[trigger] out@[j]@ == views[j],
            split_all(s@, sep@) == views + split_from(s@, sep@, pos as int),
        decreases s.len() + 1 - pos,
    {
        let f = find_from_exec(s, sep, pos);
        proof {
            lemma_split_step(s@, sep@, pos as int);
        }
        let end = match f {
            Some(i) => i,
            None => s.len(),
        };
        let mut piece: Vec<char> = Vec::new();
        extend_range(&mut piece, s, pos, end);
        let ghost pv = piece@;
        assert(pv =~= s@.subrange(pos as int, end as int));
        out.push(piece);
        proof {
            let old_views = views;
            views = views.push(pv);
            match f {
                Some(i) => {
                    assert(views + split_from(s@, sep@, i + sep@.len()) =~= old_views + split_from(s@, sep@, pos as int));
                },
                None => {
                    assert(views =~= old_views + split_from(s@, sep@, pos as int));
                },
            }
        }
        match f {
            Some(i) => {
                pos = i + sep.len();
            },
            None => {
                assert(split_all(s@, sep@) =~= views);
                return out;
            },
        }
    }
}


// ————————————————————————————————————————————————
// Decimal and hexadecimal numbers
// ————————————————————————————————————————————————

/// The value of an ASCII digit character.
pub open spec fn digit_value(c: char) -> nat {
    ((c as u32) - ('0' as u32)) as nat
}

/// The value of a sequence of ASCII decimal digits.
pub open spec fn decimal_value(s: Seq<char>) -> nat
    decreases s.len(),
{
    if s.len() == 0 {
        0
    } else {
        decimal_value(s.drop_last()) * 10 + digit_value(s.last())
    }
}

pub open spec fn all_ascii_digits(s: Seq<char>) -> bool {
    forall|i: int| 0 <= i < s.len() ==> is_ascii_digit(#[trigger] s[i])
}

/// `str::parse::<u32>`: an optional `+`, then one or more ASCII digits whose
/// value fits in a `u32`.
pub open spec fn parse_u32(s: Seq<char>) -> Option<u32> {
    let d = if s.len() > 0 && s[0] == '+' { s.drop_first() } else { s };
    if d.len() > 0 && all_ascii_digits(d) && decimal_value(d) <= u32::MAX {
        Some(decimal_value(d) as u32)
    } else {
        None
    }
}

proof fn lemma_decimal_value_grows(s: Seq<char>, k: int)
    requires
        0 <= k <= s.len(),
        all_ascii_digits(s),
    ensures
        decimal_value(s.subrange(0, k)) <= decimal_value(s),
    decreases s.len() - k,
{
    if k < s.len() {
        lemma_decimal_value_grows(s, k + 1);
        assert(s.subrange(0, k + 1).drop_last() =~= s.subrange(0, k));
    } else {
        assert(s.subrange(0, k) =~= s);
    }
}

/// `str::parse::<u32>` of the characters `v[a..e]`.
pub fn parse_u32_exec(v: &Vec<char>, a: usize, e: usize) -> (r: Option<u32>)
    requires
        a <= e <= v.len(),
    ensures
        r == parse_u32(v@.subrange(a as int, e as int)),
{
    let ghost s = v@.subrange(a as int, e as int);
    let mut start = a;
    if a < e && v[a] == '+' {
        start = a + 1;
    }
    let ghost d = v@.subrange(start as int, e as int);
    assert(d =~= (if s.len() > 0 && s[0] == '+' { s.drop_first() } else { s }));
    if start == e {
        return None;
    }
    let mut val: u64 = 0;
    let mut k = start;
    while k < e
        invariant
            a <= start <= k <= e <= v.len(),
            s == v@.subrange(a as int, e as int),
            d == (if s.len() > 0 && s[0] == '+' { s.drop_first() } else { s }),
            d == v@.subrange(start as int, e as int),
            val == decimal_value(v@.subrange(start as int, k as int)),
            val <= u32::MAX,
            forall|j: int| start <= j < k ==> is_ascii_digit(#[trigger] v@[j]),
        decreases e - k,
    {
        let c = v[k];
        if !('0' <= c && c <= '9') {
            assert(!all_ascii_digits(d)) by {
                assert(d[k - start] == c);
            }
            return None;
        }
        let dv = (c as u32 - '0' as u32) as u64;
        assert(v@.subrange(start as int, k + 1).drop_last() =~= v@.subrange(start as int, k as int));
        val = val * 10 + dv;
        if val > 0xFFFF_FFFF {
            proof {
                let full = d;
                if all_ascii_digits(full) {
                    lemma_decimal_value_grows(full, k + 1 - start);
                    assert(full.subrange(0, k + 1 - start) =~= v@.subrange(start as int, k + 1));
                }
            }
            return None;
        }
        k += 1;
    }
    assert(v@.subrange(start as int, e as int) =~= d);
    assert(all_ascii_digits(d)) by {
        assert forall|i: int| 0 <= i < d.len() implies is_ascii_digit(#[trigger] d[i]) by {
            assert(d[i] == v@[start + i]);
        }
    }
    Some(val as u32)
}

/// The character of a decimal digit `d < 10`.
pub open spec fn digit_char(d: nat) -> char {
    if d == 0 { '0' }
    else if d == 1 { '1' }
    else if d == 2 { '2' }
    else if d == 3 { '3' }
    else if d == 4 { '4' }
    else if d == 5 { '5' }
    else if d == 6 { '6' }
    else if d == 7 { '7' }
    else if d == 8 { '8' }
    else { '9' }
}

/// The character of a hexadecimal digit `d < 16`, upper case.
pub open spec fn hex_char(d: nat) -> char {
    if d < 10 { digit_char(d) }
    else if d == 10 { 'A' }
    else if d == 11 { 'B' }
    else if d == 12 { 'C' }
    else if d == 13 { 'D' }
    else if d == 14 { 'E' }
    else { 'F' }
}

/// The decimal notation of `n`, as `format!("{}", n)` writes it.
pub open spec fn decimal(n: nat) -> Seq<char>
    decreases n,
{
    if n < 10 {
        seq![digit_char(n)]
    } else {
        decimal(n / 10).push(digit_char(n % 10))
    }
}

/// The upper-case hexadecimal notation of `n`, as `format!("{:X}", n)` writes it.
pub open spec fn hex_upper(n: nat) -> Seq<char>
    decreases n,
{
    if n < 16 {
        seq![hex_char(n)]
    } else {
        hex_upper(n / 16).push(hex_char(n % 16))
    }
}

/// `t` padded on the left with `'0'` up to `width` characters, as the
/// formatting flag `0` with a width does.
pub open spec fn zero_pad(t: Seq<char>, width: nat) -> Seq<char> {
    if t.len() >= width {
        t
    } else {
        Seq::new((width - t.len()) as nat, |i: int| '0') + t
    }
}

fn digit_char_exec(d: u64) -> (c: char)
    requires
        d < 16,
    ensures
        c == hex_char(d as nat),
{
    match d {
        0 => '0',
        1 => '1',
        2 => '2',
        3 => '3',
        4 => '4',
        5 => '5',
        6 => '6',
        7 => '7',
        8 => '8',
        9 => '9',
        10 => 'A',
        11 => 'B',
        12 => 'C',
        13 => 'D',
        14 => 'E',
        _ => 'F',
    }
}

/// Appends the decimal notation of `n`.
pub fn push_decimal(s: &mut String, n: u64)
    ensures
        final(s)@ == old(s)@ + decimal(n as nat),
    decreases n,
{
    let ghost s0 = s@;
    if n >= 10 {
        push_decimal(s, n / 10);
    }
    let c = digit_char_exec(n % 10);
    push_char(s, c);
    assert(hex_char((n % 10) as nat) == digit_char((n % 10) as nat));
    if n >= 10 {
        assert(s@ =~= s0 + decimal(n as nat));
    } else {
        assert(s@ =~= s0 + decimal(n as nat));
    }
}

/// Appends the upper-case hexadecimal notation of `n`.
pub fn push_hex_upper(s: &mut String, n: u64)
    ensures
        final(s)@ == old(s)@ + hex_upper(n as nat),
    decreases n,
{
    let ghost s0 = s@;
    if n >= 16 {
        push_hex_upper(s, n / 16);
    }
    let c = digit_char_exec(n % 16);
    push_char(s, c);
    assert(s@ =~= s0 + hex_upper(n as nat));
}

/// The number of characters of the decimal notation of `n`.
pub fn decimal_len(n: u64) -> (r: usize)
    ensures
        r == decimal(n as nat).len(),
        1 <= r <= 20,
    decreases n,
{
    if n < 10 {
        1
    } else {
        let r = decimal_len(n / 10);
        if r >= 20 {
            // n / 10 < 10^19, so its notation has at most 19 characters
            proof {
                lemma_decimal_len_bound(n as nat / 10);
            }
        }
        r + 1
    }
}

proof fn lemma_decimal_len_bound(n: nat)
    requires
        n <= u64::MAX / 10,
    ensures
        decimal(n).len() <= 19,
{
    reveal_with_fuel(pow10, 20);
    assert(pow10(19) == 10000000000000000000nat);
    lemma_decimal_len_le(n, 19);
}

proof fn lemma_decimal_len_le(n: nat, k: nat)
    requires
        k >= 1,
        n < pow10(k),
    ensures
        decimal(n).len() <= k,
    decreases k,
{
    if n >= 10 {
        assert(k > 1) by {
            if k == 1 {
                assert(pow10(1) == 10) by { reveal_with_fuel(pow10, 2); }
            }
        }
        assert(n / 10 < pow10((k - 1) as nat)) by {
            assert(pow10(k) == 10 * pow10((k - 1) as nat));
        }
        lemma_decimal_len_le(n / 10, (k - 1) as nat);
    }
}

/// `10^k`.
pub open spec fn pow10(k: nat) -> nat
    decreases k,
{
    if k == 0 { 1 } else { 10 * pow10((k - 1) as nat) }
}

/// Appends `n` in decimal, padded with zeros to `width` characters
/// (`format!("{:0w$}", n)`).
pub fn push_decimal_padded(s: &mut String, n: u64, width: usize)
    requires
        width <= 20,
    ensures
        final(s)@ == old(s)@ + zero_pad(decimal(n as nat), width as nat),
{
    let ghost s0 = s@;
    let len = decimal_len(n);
    let mut k = len;
    while k < width
        invariant
            len <= k,
            k <= width || k == len,
            s@ == s0 + Seq::new((k - len) as nat, |i: int| '0'),
        decreases width - k,
    {
        push_char(s, '0');
        assert(Seq::new((k + 1 - len) as nat, |i: int| '0') =~= Seq::new((k - len) as nat, |i: int| '0').push('0'));
        k += 1;
    }
    let ghost zeros = s@;
    push_decimal(s, n);
    if len >= width {
        assert(Seq::new((k - len) as nat, |i: int| '0') =~= Seq::<char>::empty());
        assert(s@ =~= s0 + zero_pad(decimal(n as nat), width as nat));
    } else {
        assert(s@ =~= s0 + zero_pad(decimal(n as nat), width as nat));
    }
}


/// Whether two string slices hold the same characters.
pub fn str_eq(a: &str, b: &str) -> (r: bool)
    ensures
        r == (a@ == b@),
{
    let va = chars_of(a);
    let vb = chars_of(b);
    if va.len() != vb.len() {
        return false;
    }
    let mut k: usize = 0;
    while k < va.len()
        invariant
            va@ == a@,
            vb@ == b@,
            va.len() == vb.len(),
            k <= va.len(),
            forall|j: int| 0 <= j < k ==> va@[j] == vb@[j],
        decreases va.len() - k,
    {
        if va[k] != vb[k] {
            assert(va@[k as int] != vb@[k as int]);
            return false;
        }
        k += 1;
    }
    assert(va@ =~= vb@);
    true
}

/// Whether `s` begins with `pat`.
pub fn starts_with_exec(s: &Vec<char>, pat: &str) -> (r: bool)
    ensures
        r == starts_with(s@, pat@),
{
    let p = chars_of(pat);
    occurs_at_exec(s, 0, &p)
}

/// Whether the string slice `s` contains `pat`.
pub fn str_contains(s: &str, pat: &str) -> (r: bool)
    ensures
        r == contains(s@, pat@),
{
    let v = chars_of(s);
    let p = chars_of(pat);
    contains_exec(&v, &p)
}

/// Whether the string slice `s` begins with `pat`.
pub fn str_starts_with(s: &str, pat: &str) -> (r: bool)
    ensures
        r == starts_with(s@, pat@),
{
    let v = chars_of(s);
    starts_with_exec(&v, pat)
}

/// A copy of a string slice.
pub fn to_string(s: &str) -> (r: String)
    ensures
        r@ == s@,
{
    let mut r = String::new();
    push_str(&mut r, s);
    assert(r@ =~= s@);
    r
}


// ————————————————————————————————————————————————
// Lazy "any character but newline" spans: `key(.{min,}?)term`
// ————————————————————————————————————————————————

/// No newline among `s[a..e)`.
pub open spec fn no_newline(s: Seq<char>, a: int, e: int) -> bool {
    forall|k: int| a <= k < e ==> #[trigger] s[k] != '\n'
}

/// Where the lazy span `.{min,}?` that starts at `a` ends when `term` must
/// follow it: the first `e >= a + min` at which `term` occurs with no
/// newline in `s[a..e)`.
pub open spec fn lazy_end(s: Seq<char>, a: int, min: int, term: Seq<char>) -> Option<int> {
    first_where(|e: int| occurs_at(s, e, term) && no_newline(s, a, e), a + min, s.len() + 1int)
}

/// The pattern `key.{min,}?term` matches at `i`.
pub open spec fn key_lazy_at(s: Seq<char>, i: int, key: Seq<char>, min: int, term: Seq<char>) -> bool {
    occurs_at(s, i, key) && lazy_end(s, i + key.len(), min, term) is Some
}

/// The leftmost match of `key.{min,}?term`.
pub open spec fn key_lazy_pos(s: Seq<char>, key: Seq<char>, min: int, term: Seq<char>) -> Option<int> {
    first_where(|i: int| key_lazy_at(s, i, key, min, term), 0, s.len() + 1int)
}

/// Where the lazy span that starts at `a` ends.
pub fn lazy_end_exec(s: &Vec<char>, a: usize, min: usize, term: &Vec<char>) -> (r: Option<usize>)
    requires
        a <= s.len(),
        min <= 1,
    ensures
        r matches Some(e) ==> lazy_end(s@, a as int, min as int, term@) == Some(e as int),
        r is None ==> lazy_end(s@, a as int, min as int, term@) is None,
{
    let ghost p = |e: int| occurs_at(s@, e, term@) && no_newline(s@, a as int, e);
    if min == 1 && a == s.len() {
        proof {
            lemma_first_where_none(p, a + 1int, s@.len() + 1int);
        }
        return None;
    }
    let lo = a + min;
    if lo > s.len() {
        proof {
            lemma_first_where_none(p, lo as int, s@.len() + 1int);
        }
        return None;
    }
    if min == 1 && s[a] == '\n' {
        proof {
            assert forall|j: int| lo <= j < s@.len() + 1 implies !#[trigger] p(j) by {
                assert(s@[a as int] == '\n');
            }
            lemma_first_where_none(p, lo as int, s@.len() + 1int);
        }
        return None;
    }
    let mut e = lo;
    loop
        invariant
            a <= lo <= e <= s.len(),
            lo == a + min,
            p == (|e: int| occurs_at(s@, e, term@) && no_newline(s@, a as int, e)),
            no_newline(s@, a as int, e as int),
            forall|j: int| lo <= j < e ==> !#[trigger] p(j),
        decreases s.len() - e,
    {
        if occurs_at_exec(s, e, term) {
            proof {
                lemma_first_where_is(p, lo as int, s@.len() + 1int, e as int);
            }
            return Some(e);
        }
        if e == s.len() || s[e] == '\n' {
            proof {
                assert forall|j: int| lo <= j < s@.len() + 1 implies !#[trigger] p(j) by {
                    if j > e {
                        assert(s@[e as int] == '\n');
                    }
                }
                lemma_first_where_none(p, lo as int, s@.len() + 1int);
            }
            return None;
        }
        e += 1;
    }
}

/// The leftmost match of `key.{min,}?term`, as `(i, e)`: where the key
/// starts and where `term` starts.
#[verifier::spinoff_prover]
#[verifier::rlimit(40)]
pub fn find_key_lazy(s: &Vec<char>, key: &Vec<char>, min: usize, term: &Vec<char>) -> (r: Option<(usize, usize)>)
    requires
        min <= 1,
    ensures
        r matches Some((i, e)) ==> {
            &&& key_lazy_pos(s@, key@, min as int, term@) == Some(i as int)
            &&& lazy_end(s@, i + key@.len(), min as int, term@) == Some(e as int)
            &&& occurs_at(s@, i as int, key@)
        },
        r is None ==> key_lazy_pos(s@, key@, min as int, term@) is None,
{
    let ghost p = |i: int| key_lazy_at(s@, i, key@, min as int, term@);
    let mut i: usize = 0;
    loop
        invariant
            i <= s.len(),
            min <= 1,
            p == (|i: int| key_lazy_at(s@, i, key@, min as int, term@)),
            forall|j: int| 0 <= j < i ==> !#[trigger] p(j),
        decreases s.len() - i,
    {
        if occurs_at_exec(s, i, key) {
            let a = i + key.len();
            match lazy_end_exec(s, a, min, term) {
                Some(e) => {
                    proof {
                        lemma_first_where_is(p, 0, s@.len() + 1int, i as int);
                    }
                    return Some((i, e));
                },
                None => {},
            }
        }
        if i == s.len() {
            proof {
                lemma_first_where_none(p, 0, s@.len() + 1int);
            }
            return None;
        }
        i += 1;
    }
}

// ————————————————————————————————————————————————
// Bracket matching
// ————————————————————————————————————————————————

/// How many times `c` occurs in `s[a..e)`.
pub open spec fn count_in(s: Seq<char>, a: int, e: int, c: char) -> int
    decreases e - a,
{
    if e <= a {
        0
    } else {
        count_in(s, a, e - 1, c) + if s[e - 1] == c { 1int } else { 0int }
    }
}

/// The bracket open at `start` (with `depth0` levels open before it)
/// closes at `j`: `s[j]` is `close` and the depth before `j` (`depth0`
/// plus opens minus closes in `s[start..j)`) is 1.
pub open spec fn closes_at(s: Seq<char>, start: int, depth0: int, open: char, close: char, j: int) -> bool {
    &&& 0 <= j < s.len()
    &&& s[j] == close
    &&& depth0 + count_in(s, start, j, open) - count_in(s, start, j, close) == 1
}

/// Where the bracket open at `start` closes: the first `j >= start` at
/// which `closes_at` holds.
pub open spec fn close_index(s: Seq<char>, start: int, depth0: int, open: char, close: char) -> Option<int> {
    first_where(|j: int| closes_at(s, start, depth0, open, close, j), start, s.len() as int)
}

/// Where the bracket open at `start` closes.
#[verifier::spinoff_prover]
pub fn close_index_exec(s: &Vec<char>, start: usize, depth0: usize, open: char, close: char) -> (r: Option<usize>)
    requires
        start <= s.len(),
        depth0 <= 1,
        open != close,
    ensures
        r matches Some(j) ==> close_index(s@, start as int, depth0 as int, open, close) == Some(j as int)
            && start <= j < s@.len() && s@[j as int] == close,
        r is None ==> close_index(s@, start as int, depth0 as int, open, close) is None,
{
    let ghost p = |j: int| closes_at(s@, start as int, depth0 as int, open, close, j);
    let mut opens: usize = 0;
    let mut closes: usize = 0;
    let mut j = start;
    while j < s.len()
        invariant
            start <= j <= s.len(),
            depth0 <= 1,
            open != close,
            opens == count_in(s@, start as int, j as int, open),
            closes == count_in(s@, start as int, j as int, close),
            opens + closes <= j - start,
            p == (|j: int| closes_at(s@, start as int, depth0 as int, open, close, j)),
            forall|k: int| start <= k < j ==> !#[trigger] p(k),
        decreases s.len() - j,
    {
        let c = s[j];
        if c == close && depth0 + opens == closes + 1 {
            proof {
                lemma_first_where_is(p, start as int, s@.len() as int, j as int);
            }
            return Some(j);
        }
        assert(count_in(s@, start as int, j + 1, open) == count_in(s@, start as int, j as int, open)
            + if s@[j as int] == open { 1int } else { 0int });
        assert(count_in(s@, start as int, j + 1, close) == count_in(s@, start as int, j as int, close)
            + if s@[j as int] == close { 1int } else { 0int });
        if c == open {
            opens += 1;
        } else if c == close {
            closes += 1;
        }
        j += 1;
    }
    proof {
        lemma_first_where_none(p, start as int, s@.len() as int);
    }
    None
}


// ————————————————————————————————————————————————
// UTF-8 byte positions
// ————————————————————————————————————————————————

/// The length in bytes of the UTF-8 encoding of `s` (`str::len`).
pub open spec fn utf8_len(s: Seq<char>) -> nat {
    vstd::utf8::encode_utf8(s).len()
}

/// Byte `n` of the UTF-8 encoding of `s` starts a character (or ends `s`):
/// `str::is_char_boundary`.
pub open spec fn is_byte_boundary(s: Seq<char>, n: int) -> bool {
    vstd::utf8::is_char_boundary(vstd::utf8::encode_utf8(s), n)
}

/// The characters of the first `n` bytes of `s`: `&s[..n]`.
pub open spec fn byte_prefix(s: Seq<char>, n: int) -> Seq<char> {
    vstd::utf8::decode_utf8(vstd::utf8::encode_utf8(s).subrange(0, n))
}

/// The characters from byte `n` of `s` on: `&s[n..]`.
pub open spec fn byte_suffix(s: Seq<char>, n: int) -> Seq<char> {
    vstd::utf8::decode_utf8(vstd::utf8::encode_utf8(s).subrange(n, utf8_len(s) as int))
}

/// The encoding of two strings one after the other is their encodings one
/// after the other.
pub proof fn lemma_encode_concat(x: Seq<char>, y: Seq<char>)
    ensures
        vstd::utf8::encode_utf8(x + y) == vstd::utf8::encode_utf8(x) + vstd::utf8::encode_utf8(y),
    decreases x.len(),
{
    if x.len() == 0 {
        assert(x + y =~= y);
        assert(vstd::utf8::encode_utf8(x) + vstd::utf8::encode_utf8(y) =~= vstd::utf8::encode_utf8(y));
    } else {
        lemma_encode_concat(x.drop_first(), y);
        assert((x + y).drop_first() =~= x.drop_first() + y);
        assert((x + y)[0] == x[0]);
        assert(vstd::utf8::encode_utf8(x + y) =~= vstd::utf8::encode_utf8(x) + vstd::utf8::encode_utf8(y));
    }
}

/// Where the encoding of `x` ends in that of `x + y`, a character starts
/// (or the string ends).
pub proof fn lemma_boundary_concat(x: Seq<char>, y: Seq<char>)
    ensures
        vstd::utf8::is_char_boundary(
            vstd::utf8::encode_utf8(x + y),
            vstd::utf8::encode_utf8(x).len() as int,
        ),
    decreases x.len(),
{
    vstd::utf8::encode_utf8_valid_utf8(x + y);
    if x.len() > 0 {
        let bytes = vstd::utf8::encode_utf8(x + y);
        vstd::utf8::encode_utf8_first_scalar(x + y);
        assert(vstd::utf8::pop_first_scalar(bytes) =~= vstd::utf8::encode_utf8((x + y).drop_first()));
        assert((x + y).drop_first() =~= x.drop_first() + y);
        lemma_boundary_concat(x.drop_first(), y);
        lemma_encode_concat(x, y);
    }
}

/// At a character boundary `n`, `s` is its first `n` bytes followed by the
/// rest, and the first part takes exactly `n` bytes.
pub proof fn lemma_split_at_boundary(s: Seq<char>, n: int)
    requires
        is_byte_boundary(s, n),
    ensures
        s == byte_prefix(s, n) + byte_suffix(s, n),
        utf8_len(byte_prefix(s, n)) == n,
        0 <= n <= utf8_len(s),
{
    let bytes = vstd::utf8::encode_utf8(s);
    vstd::utf8::encode_utf8_valid_utf8(s);
    vstd::utf8::valid_utf8_split(bytes, n);
    vstd::utf8::decode_utf8_split(bytes, n);
    vstd::utf8::encode_utf8_decode_utf8(s);
    vstd::utf8::decode_utf8_encode_utf8(bytes.subrange(0, n));
    reveal_with_fuel(vstd::utf8::is_char_boundary, 2);
}

/// The number of bytes of the UTF-8 encoding of `c`.
pub open spec fn char_utf8_len(c: char) -> nat {
    let v = c as u32;
    if v < 0x80 {
        1
    } else if v < 0x800 {
        2
    } else if v < 0x10000 {
        3
    } else {
        4
    }
}

/// One character more takes the bytes of its own encoding.
pub proof fn lemma_utf8_len_step(s: Seq<char>, k: int)
    requires
        0 <= k < s.len(),
    ensures
        utf8_len(s.take(k + 1)) == utf8_len(s.take(k)) + char_utf8_len(s[k]),
{
    assert(s.take(k + 1) =~= s.take(k) + seq![s[k]]);
    lemma_encode_concat(s.take(k), seq![s[k]]);
    vstd::utf8::char_is_scalar(s[k]);
    assert(seq![s[k]].drop_first() =~= Seq::<char>::empty());
    assert(vstd::utf8::encode_utf8(seq![s[k]]) == vstd::utf8::encode_scalar(s[k] as u32)
        + vstd::utf8::encode_utf8(Seq::<char>::empty()));
}

/// How many leading characters of `s` fit in `n` bytes: the longest prefix
/// whose encoding takes at most `n` bytes.
pub open spec fn fit_count(s: Seq<char>, n: nat) -> int {
    match first_where(|k: int| 0 <= k < s.len() && utf8_len(s.take(k + 1)) > n, 0, s.len() as int) {
        Some(k) => k,
        None => s.len() as int,
    }
}

/// `s` cut at the last character boundary at or before byte `n`.
pub open spec fn byte_cut(s: Seq<char>, n: nat) -> Seq<char> {
    s.take(fit_count(s, n))
}

/// The cut fits in `n` bytes, and is all of `s` when `s` does.
pub proof fn lemma_byte_cut(s: Seq<char>, n: nat)
    ensures
        0 <= fit_count(s, n) <= s.len(),
        utf8_len(byte_cut(s, n)) <= n,
        utf8_len(s) <= n ==> byte_cut(s, n) == s,
{
    let p = |k: int| 0 <= k < s.len() && utf8_len(s.take(k + 1)) > n;
    lemma_first_where(p, 0, s.len() as int);
    let k = fit_count(s, n);
    if k > 0 {
        assert(!p(k - 1));
        assert(s.take(k - 1 + 1) == s.take(k));
    } else {
        assert(s.take(0) =~= Seq::<char>::empty());
    }
    if utf8_len(s) <= n && k < s.len() {
        assert(p(k));
        lemma_take_utf8_monotone(s, k + 1);
    }
    if k == s.len() {
        assert(s.take(k) =~= s);
    }
}

/// A prefix takes no more bytes than the whole.
pub proof fn lemma_take_utf8_monotone(s: Seq<char>, k: int)
    requires
        0 <= k <= s.len(),
    ensures
        utf8_len(s.take(k)) <= utf8_len(s),
    decreases s.len() - k,
{
    if k < s.len() {
        lemma_utf8_len_step(s, k);
        lemma_take_utf8_monotone(s, k + 1);
    } else {
        assert(s.take(k) =~= s);
    }
}

/// The byte boundaries of `s` are where its prefixes end.
pub proof fn lemma_boundary_is_prefix_end(s: Seq<char>, n: int)
    requires
        is_byte_boundary(s, n),
    ensures
        exists|k: int| 0 <= k <= s.len() && #[trigger] utf8_len(s.take(k)) == n,
    decreases s.len(),
{
    let bytes = vstd::utf8::encode_utf8(s);
    vstd::utf8::encode_utf8_valid_utf8(s);
    if n == 0 {
        assert(s.take(0) =~= Seq::<char>::empty());
        assert(utf8_len(s.take(0)) == 0);
    } else {
        assert(s.len() > 0) by {
            if s.len() == 0 {
                assert(bytes.len() == 0);
            }
        }
        vstd::utf8::encode_utf8_first_scalar(s);
        assert(vstd::utf8::pop_first_scalar(bytes) =~= vstd::utf8::encode_utf8(s.drop_first()));
        let w = vstd::utf8::length_of_first_scalar(bytes);
        assert(is_byte_boundary(s.drop_first(), n - w));
        lemma_boundary_is_prefix_end(s.drop_first(), n - w);
        let k = choose|k: int| 0 <= k <= s.drop_first().len() && #[trigger] utf8_len(s.drop_first().take(k)) == n - w;
        assert(s.take(k + 1) =~= seq![s[0]] + s.drop_first().take(k));
        lemma_encode_concat(seq![s[0]], s.drop_first().take(k));
        lemma_utf8_len_step(s, 0);
        assert(s.take(0) =~= Seq::<char>::empty());
        assert(s.take(1) =~= seq![s[0]]);
        assert(vstd::utf8::encode_utf8(seq![s[0]]) == vstd::utf8::encode_scalar(s[0] as u32)
            + vstd::utf8::encode_utf8(Seq::<char>::empty()));
        assert(utf8_len(s.take(k + 1)) == n);
    }
}

/// Longer prefixes take more bytes.
pub proof fn lemma_take_utf8_strict(s: Seq<char>, j: int, k: int)
    requires
        0 <= j < k <= s.len(),
    ensures
        utf8_len(s.take(j)) + char_utf8_len(s[j]) <= utf8_len(s.take(k)),
{
    lemma_utf8_len_step(s, j);
    let t = s.take(k);
    lemma_take_utf8_monotone(t, j + 1);
    assert(t.take(j + 1) =~= s.take(j + 1));
}

fn char_utf8_len_exec(c: char) -> (r: usize)
    ensures
        r == char_utf8_len(c),
{
    let v = c as u32;
    if v < 0x80 {
        1
    } else if v < 0x800 {
        2
    } else if v < 0x10000 {
        3
    } else {
        4
    }
}

/// How many leading characters of `v` fit in `n` bytes (see `fit_count`).
pub fn fit_count_exec(v: &Vec<char>, n: usize) -> (r: usize)
    ensures
        r == fit_count(v@, n as nat),
        r <= v.len(),
{
    let ghost p = |k: int| 0 <= k < v@.len() && utf8_len(v@.take(k + 1)) > n;
    let mut k: usize = 0;
    let mut used: usize = 0;
    assert(v@.take(0) =~= Seq::<char>::empty());
    while k < v.len()
        invariant
            k <= v.len(),
            used <= n,
            used == utf8_len(v@.take(k as int)),
            p == (|k: int| 0 <= k < v@.len() && utf8_len(v@.take(k + 1)) > n),
            forall|j: int| 0 <= j < k ==> !#[trigger] p(j),
        decreases v.len() - k,
    {
        let w = char_utf8_len_exec(v[k]);
        proof {
            lemma_utf8_len_step(v@, k as int);
        }
        if w > n - used {
            proof {
                lemma_first_where_is(p, 0, v@.len() as int, k as int);
            }
            return k;
        }
        used = used + w;
        k += 1;
    }
    proof {
        lemma_first_where_none(p, 0, v@.len() as int);
    }
    k
}

/// An optional string as optional characters.
pub open spec fn opt_chars(s: Option<String>) -> Option<Seq<char>> {
    match s {
        Some(t) => Some(t@),
        None => None,
    }
}

/// `str::len`: the length in bytes of the UTF-8 encoding of `s`. Claimed:
/// the result is `utf8_len(s@)` (vstd's own specification of `str::len`
/// leaves open that this length might not fit a `usize`; a string in memory
/// is never longer than `usize::MAX` bytes).
#[verifier::external_body]
pub(crate) fn str_byte_len(s: &str) -> (r: usize)
    ensures
        r == utf8_len(s@),
{
    s.len()
}

/// Whether byte `n` of `s` starts a character or ends `s`.
pub fn str_is_byte_boundary(s: &str, n: usize) -> (r: bool)
    ensures
        r == is_byte_boundary(s@, n as int),
{
    s.is_char_boundary(n)
}

/// `&s[..n]`, for a byte position `n` that starts a character.
pub fn str_byte_prefix(s: &str, n: usize) -> (r: &str)
    requires
        is_byte_boundary(s@, n as int),
    ensures
        r@ == byte_prefix(s@, n as int),
{
    proof {
        vstd::utf8::encode_utf8_valid_utf8(s@);
    }
    let (a, _b) = s.split_at(n);
    proof {
        vstd::utf8::encode_utf8_decode_utf8(a@);
    }
    a
}

/// `&s[n..]`, for a byte position `n` that starts a character.
pub fn str_byte_suffix(s: &str, n: usize) -> (r: &str)
    requires
        is_byte_boundary(s@, n as int),
    ensures
        r@ == byte_suffix(s@, n as int),
{
    proof {
        vstd::utf8::encode_utf8_valid_utf8(s@);
    }
    let (_a, b) = s.split_at(n);
    proof {
        vstd::utf8::encode_utf8_decode_utf8(b@);
    }
    b
}

/// `String::push`. Claimed: afterwards the string holds its old characters
/// followed by `c`.
#[verifier::external_body]
pub(crate) fn push_char(s: &mut String, c: char)
    ensures
        final(s)@ == old(s)@.push(c),
{
    s.push(c);
}

} // verus!
