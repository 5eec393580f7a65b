//! Character-level helpers over `str`: searching, trimming, and pulling the
//! video token out of an embed URL.
use vstd::prelude::*;
use vstd::string::StrSliceExecFns;
use vstd::string::StringExecFns;

verus! {

/// `p` occurs in `s` starting at index `i`.
pub open spec fn occurs_at(s: Seq<char>, p: Seq<char>, i: int) -> bool {
    0 <= i && i + p.len() <= s.len() && s.subrange(i, i + p.len()) == p
}

/// The first index at or after `from` where `p` occurs in `s`.
pub open spec fn first_occurrence(s: Seq<char>, p: Seq<char>, from: int) -> Option<int>
    decreases s.len() + 1 - from,
{
    if from < 0 || from + p.len() > s.len() {
        None
    } else if occurs_at(s, p, from) {
        Some(from)
    } else {
        first_occurrence(s, p, from + 1)
    }
}

/// `s` contains `p` somewhere.
pub open spec fn contains_seq(s: Seq<char>, p: Seq<char>) -> bool {
    first_occurrence(s, p, 0) is Some
}

/// Whether `p` occurs in `s` at index `i`.
fn matches_at(s: &str, p: &str, i: usize) -> (r: bool)
    requires
        i + p@.len() <= s@.len(),
        s@.len() <= usize::MAX,
    ensures
        r == occurs_at(s@, p@, i as int),
{
    let n = p.unicode_len();
    let mut k: usize = 0;
    while k < n
        invariant
            n == p@.len(),
            i + n <= s@.len(),
            s@.len() <= usize::MAX,
            k <= n,
            forall|m: int| 0 <= m < k ==> s@[i + m] == p@[m],
        decreases n - k,
    {
        if s.get_char(i + k) != p.get_char(k) {
            assert(s@.subrange(i as int, i + n)[k as int] != p@[k as int]);
            return false;
        }
        k = k + 1;
    }
    assert(s@.subrange(i as int, i + n) =~= p@);
    true
}

/// The first index at or after `from` where `p` occurs in `s`.
pub fn find_from(s: &str, p: &str, from: usize) -> (r: Option<usize>)
    ensures
        r is None <==> first_occurrence(s@, p@, from as int) is None,
        r matches Some(k) ==> first_occurrence(s@, p@, from as int) == Some(k as int),
        r matches Some(k) ==> k + p@.len() <= s@.len(),
{
    let n = s.unicode_len();
    let m = p.unicode_len();
    if m > n || from > n - m {
        return None;
    }
    let mut i: usize = from;
    loop
        invariant
            n == s@.len(),
            m == p@.len(),
            m <= n,
            from <= i <= n - m,
            first_occurrence(s@, p@, from as int) == first_occurrence(s@, p@, i as int),
        decreases n - i,
    {
        if matches_at(s, p, i) {
            return Some(i);
        }
        if i == n - m {
            assert(first_occurrence(s@, p@, i + 1) is None);
            return None;
        }
        i = i + 1;
    }
}

/// Whether `a` and `b` hold the same characters.
pub fn text_eq(a: &str, b: &str) -> (r: bool)
    ensures
        r == (a@ == b@),
{
    let n = a.unicode_len();
    if n != b.unicode_len() {
        return false;
    }
    let r = matches_at(a, b, 0);
    assert(a@.subrange(0, n as int) =~= a@);
    r
}

/// Whether `p` occurs anywhere in `s`.
pub fn contains_str(s: &str, p: &str) -> (r: bool)
    ensures
        r == contains_seq(s@, p@),
{
    find_from(s, p, 0).is_some()
}

/// Unicode `White_Space`, the set that `char::is_whitespace` tests.
pub open spec fn is_ws(c: char) -> bool {
    ('\u{9}' <= c && c <= '\u{d}') || c == ' ' || c == '\u{85}' || c == '\u{a0}'
        || c == '\u{1680}' || ('\u{2000}' <= c && c <= '\u{200a}') || c == '\u{2028}'
        || c == '\u{2029}' || c == '\u{202f}' || c == '\u{205f}' || c == '\u{3000}'
}

/// Whether `c` is a whitespace character.
pub fn is_whitespace(c: char) -> (r: bool)
    ensures
        r == is_ws(c),
{
    ('\u{9}' <= c && c <= '\u{d}') || c == ' ' || c == '\u{85}' || c == '\u{a0}'
        || c == '\u{1680}' || ('\u{2000}' <= c && c <= '\u{200a}') || c == '\u{2028}'
        || c == '\u{2029}' || c == '\u{202f}' || c == '\u{205f}' || c == '\u{3000}'
}

/// The first index at or after `i` that holds no whitespace (or the length).
pub open spec fn skip_ws_forward(s: Seq<char>, i: int) -> int
    decreases s.len() + 1 - i,
{
    if i < 0 || i >= s.len() || !is_ws(s[i]) {
        i
    } else {
        skip_ws_forward(s, i + 1)
    }
}

/// Stepping back from `j`, the end of the last character before it, not below
/// `lo`, that is not whitespace.
pub open spec fn skip_ws_backward(s: Seq<char>, lo: int, j: int) -> int
    decreases j - lo,
{
    if j <= lo || j > s.len() || !is_ws(s[j - 1]) {
        j
    } else {
        skip_ws_backward(s, lo, j - 1)
    }
}

/// `s` without its leading and trailing whitespace.
pub open spec fn trim_seq(s: Seq<char>) -> Seq<char> {
    let a = skip_ws_forward(s, 0);
    s.subrange(a, skip_ws_backward(s, a, s.len() as int))
}

/// `s` without its leading and trailing whitespace.
pub fn trim(s: &str) -> (r: String)
    ensures
        r@ == trim_seq(s@),
{
    let n = s.unicode_len();
    let mut a: usize = 0;
    while a < n && is_whitespace(s.get_char(a))
        invariant
            n == s@.len(),
            a <= n,
            skip_ws_forward(s@, 0) == skip_ws_forward(s@, a as int),
        decreases n - a,
    {
        a = a + 1;
    }
    let mut b: usize = n;
    while b > a && is_whitespace(s.get_char(b - 1))
        invariant
            n == s@.len(),
            a <= b <= n,
            a == skip_ws_forward(s@, 0),
            skip_ws_backward(s@, a as int, n as int) == skip_ws_backward(s@, a as int, b as int),
        decreases b,
    {
        b = b - 1;
    }
    String::from_str(s.substring_char(a, b))
}

/// The characters `/embed/`.
pub open spec fn embed_marker() -> Seq<char> {
    seq!['/', 'e', 'm', 'b', 'e', 'd', '/']
}

/// The video token of an embed URL: what follows the first `/embed/`, up to
/// the first `?` after it.
pub open spec fn video_id_of(url: Seq<char>) -> Option<Seq<char>> {
    match first_occurrence(url, embed_marker(), 0) {
        None => None,
        Some(k) => {
            let rest = url.subrange(k + 7, url.len() as int);
            match first_occurrence(rest, seq!['?'], 0) {
                Some(e) => Some(rest.subrange(0, e)),
                None => Some(rest),
            }
        },
    }
}

/// Pulls the video token out of an embed URL such as
/// `https://host/embed/<id>?options`.
pub fn extract_youtube_video_id(url: &str) -> (r: Option<String>)
    ensures
        r matches Some(id) ==> video_id_of(url@) == Some(id@),
        r is None ==> video_id_of(url@) is None,
{
    let marker = "/embed/";
    let question = "?";
    proof {
        reveal_strlit("/embed/");
        reveal_strlit("?");
        assert(marker@ =~= embed_marker());
        assert(question@ =~= seq!['?']);
    }
    match find_from(url, marker, 0) {
        None => None,
        Some(start) => {
            let n = url.unicode_len();
            let rest = url.substring_char(start + 7, n);
            assert(rest@ == url@.subrange(start + 7, url@.len() as int));
            match find_from(rest, question, 0) {
                Some(end) => {
                    let id = String::from_str(rest.substring_char(0, end));
                    assert(video_id_of(url@) == Some(id@));
                    Some(id)
                },
                None => Some(String::from_str(rest)),
            }
        },
    }
}

/// The text before the first space of `s`, or all of `s` when it has none.
pub open spec fn first_word_spec(s: Seq<char>) -> Seq<char> {
    match first_occurrence(s, seq![' '], 0) {
        Some(k) => s.subrange(0, k),
        None => s,
    }
}

/// The text before the first space: the key that opens a question's title.
pub fn first_word(s: &str) -> (r: String)
    ensures
        r@ == first_word_spec(s@),
{
    let space = " ";
    proof {
        reveal_strlit(" ");
        assert(space@ =~= seq![' ']);
    }
    match find_from(s, space, 0) {
        Some(k) => String::from_str(s.substring_char(0, k)),
        None => String::from_str(s),
    }
}

} // verus!
