//! Text utilities: path sanitizing, random names, video ids, scripts.
use vstd::prelude::*;
use rand::Rng;
use crate::strings::{all_ascii, alphanumeric, ascii_alnum, chars_of, is_alphanumeric, str_eq,
    string_from_chars, trim_by, trim_chars, TrimSet};

verus! {

/// Characters that cannot stand in a file name: `< > : " / \ | ? *` and the
/// control characters below U+0020.
pub open spec fn forbidden_in_path(c: char) -> bool {
    c == '<' || c == '>' || c == ':' || c == '"' || c == '/' || c == '\\' || c == '|' || c == '?'
        || c == '*' || (c as u32) < 0x20
}

/// `s` with each forbidden character replaced by `'_'`.
pub open spec fn underscore_forbidden(s: Seq<char>) -> Seq<char> {
    s.map_values(|c: char| if forbidden_in_path(c) { '_' } else { c })
}

/// regex `Regex::replace_all` with the class `[<>:"/\\|?*\x00-\x1f]` and the
/// replacement `"_"`. Claimed: every character of that class, and only
/// those, becomes `'_'`.
#[verifier::external_body]
fn replace_forbidden(name: &str) -> (r: String)
    ensures
        r@ == underscore_forbidden(name@),
{
    let re = regex::Regex::new(r#"[<>:"/\\|?*\x00-\x1f]"#).unwrap();
    re.replace_all(name, "_").to_string()
}

/// Remove characters that are invalid in file paths: each becomes `'_'`,
/// then dots are trimmed from both ends.
pub fn sanitize_path_name(name: &str) -> (r: String)
    ensures
        r@ == trim_by(underscore_forbidden(name@), TrimSet::Dot),
{
    let replaced = replace_forbidden(name);
    let v = chars_of(replaced.as_str());
    let t = trim_chars(v.as_slice(), TrimSet::Dot);
    string_from_chars(t.as_slice())
}

/// A sanitized name holds no forbidden character and neither starts nor ends
/// with a dot.
pub proof fn sanitized_names_are_clean(name: Seq<char>)
    ensures
        forall|i: int|
            0 <= i < trim_by(underscore_forbidden(name), TrimSet::Dot).len() ==> !forbidden_in_path(
                #[trigger] trim_by(underscore_forbidden(name), TrimSet::Dot)[i],
            ),
        trim_by(underscore_forbidden(name), TrimSet::Dot).len() > 0 ==> trim_by(
            underscore_forbidden(name),
            TrimSet::Dot,
        )[0] != '.' && trim_by(underscore_forbidden(name), TrimSet::Dot).last() != '.',
{
    let u = underscore_forbidden(name);
    crate::strings::lemma_trim_shape(u, TrimSet::Dot);
    let r = trim_by(u, TrimSet::Dot);
    let (a, b) = choose|a: int, b: int|
        0 <= a <= b <= u.len() && r == u.subrange(a, b) && (forall|k: int|
            0 <= k < a ==> TrimSet::Dot.has(#[trigger] u[k])) && (forall|k: int|
            b <= k < u.len() ==> TrimSet::Dot.has(#[trigger] u[k]));
    assert forall|i: int| 0 <= i < r.len() implies !forbidden_in_path(#[trigger] r[i]) by {
        assert(r[i] == u[a + i]);
    }
}

/// Sanitizing a sanitized name again gives the same name.
pub proof fn sanitizing_is_idempotent(name: Seq<char>)
    ensures
        trim_by(
            underscore_forbidden(trim_by(underscore_forbidden(name), TrimSet::Dot)),
            TrimSet::Dot,
        ) == trim_by(underscore_forbidden(name), TrimSet::Dot),
{
    let r = trim_by(underscore_forbidden(name), TrimSet::Dot);
    sanitized_names_are_clean(name);
    assert(underscore_forbidden(r) =~= r);
    if r.len() == 0 {
        assert(trim_by(r, TrimSet::Dot) =~= r);
    } else {
        crate::strings::lemma_lead_count(r, TrimSet::Dot, 0);
        assert(r.skip(0) =~= r);
        crate::strings::lemma_trail_count(r, TrimSet::Dot, r.len() as int);
        assert(r.take(r.len() as int) =~= r);
    }
}

/// The characters of random names.
pub open spec fn rand_charset() -> Seq<char> {
    "abcdefghijklmnopqrstuvwxyzABCDEFGHIJKLMNOPQRSTUVWXYZ123456789"@
}

/// A uniformly random number below `n` (rand `Rng::gen_range(0..n)` on the
/// thread generator). Claimed: the number is below `n`.
#[verifier::external_body]
fn random_below(n: usize) -> (r: usize)
    requires
        n > 0,
    ensures
        r < n,
{
    rand::thread_rng().gen_range(0..n)
}

/// A random string of `n` characters drawn from `a-z`, `A-Z` and `1-9`.
pub fn rand_string(n: usize) -> (r: String)
    ensures
        r@.len() == n,
        forall|i: int| 0 <= i < n ==> rand_charset().contains(#[trigger] r@[i]),
{
    let charset = chars_of("abcdefghijklmnopqrstuvwxyzABCDEFGHIJKLMNOPQRSTUVWXYZ123456789");
    proof {
        reveal_strlit("abcdefghijklmnopqrstuvwxyzABCDEFGHIJKLMNOPQRSTUVWXYZ123456789");
    }
    let mut out: Vec<char> = Vec::new();
    let mut i: usize = 0;
    while i < n
        invariant
            i <= n,
            charset@ == rand_charset(),
            charset@.len() == 61,
            out@.len() == i,
            forall|k: int| 0 <= k < i ==> rand_charset().contains(#[trigger] out@[k]),
        decreases n - i,
    {
        let idx = random_below(charset.len());
        let c = charset[idx];
        assert(rand_charset()[idx as int] == c);
        out.push(c);
        assert(out@[i as int] == c);
        i = i + 1;
    }
    string_from_chars(out.as_slice())
}

/// What `clean_punctuation` keeps: alphanumerics, `'` and `-`.
pub open spec fn word_char(c: char) -> bool {
    alphanumeric(c) || c == '\'' || c == '-'
}

/// What `clean_punctuation` keeps of ASCII text: letters, digits, `'` and
/// `-`.
pub open spec fn ascii_word_char(c: char) -> bool {
    ascii_alnum(c) || c == '\'' || c == '-'
}

/// Remove punctuation from a word: keep alphanumerics, `'` and `-`.
pub fn clean_punctuation(word: &str) -> (r: String)
    ensures
        r@ == word@.filter(|c: char| word_char(c)),
        all_ascii(word@) ==> r@ == word@.filter(|c: char| ascii_word_char(c)),
{
    let v = chars_of(word);
    let mut out: Vec<char> = Vec::new();
    let mut i: usize = 0;
    while i < v.len()
        invariant
            i <= v@.len(),
            v@ == word@,
            out@ == v@.take(i as int).filter(|c: char| word_char(c)),
            all_ascii(v@.take(i as int)) ==> out@ == v@.take(i as int).filter(
                |c: char| ascii_word_char(c),
            ),
        decreases v@.len() - i,
    {
        let c = v[i];
        proof {
            assert(v@.take(i + 1).drop_last() == v@.take(i as int));
            reveal_with_fuel(Seq::filter, 1);
            if all_ascii(v@.take(i + 1)) {
                assert forall|k: int| 0 <= k < i implies (#[trigger] v@.take(i as int)[k] as u32)
                    < 128 by {
                    assert(v@.take(i as int)[k] == v@.take(i + 1)[k]);
                }
                assert((v@.take(i + 1)[i as int] as u32) < 128);
            }
        }
        let keep = is_alphanumeric(c) || c == '\'' || c == '-';
        if keep {
            out.push(c);
        }
        i = i + 1;
    }
    assert(v@.take(v@.len() as int) == v@);
    string_from_chars(out.as_slice())
}

/// Cleaning an already clean word changes nothing.
pub proof fn clean_punctuation_idempotent(w: Seq<char>)
    ensures
        w.filter(|c: char| word_char(c)).filter(|c: char| word_char(c)) == w.filter(
            |c: char| word_char(c),
        ),
    decreases w.len(),
{
    reveal_with_fuel(Seq::filter, 1);
    if w.len() > 0 {
        clean_punctuation_idempotent(w.drop_last());
        let f = w.drop_last().filter(|c: char| word_char(c));
        if word_char(w.last()) {
            assert(f.push(w.last()).drop_last() == f);
        }
    }
}

/// `u` holds `w` starting at index `p`.
pub open spec fn has_at(u: Seq<char>, p: int, w: Seq<char>) -> bool {
    0 <= p && p + w.len() <= u.len() && u.subrange(p, p + w.len()) == w
}

/// A character of a YouTube video id: `[a-zA-Z0-9_-]`.
pub open spec fn youtube_id_char(c: char) -> bool {
    ascii_alnum(c) || c == '_' || c == '-'
}

/// The length of the YouTube link prefix at index `p` of `u`, or 0.
pub open spec fn youtube_prefix_len(u: Seq<char>, p: int) -> int {
    if has_at(u, p, "youtube.com/watch?v="@) {
        20
    } else if has_at(u, p, "youtube.com/embed/"@) {
        18
    } else if has_at(u, p, "youtube.com/v/"@) {
        14
    } else if has_at(u, p, "youtube.com/shorts/"@) {
        19
    } else if has_at(u, p, "youtu.be/"@) {
        9
    } else {
        0
    }
}

/// A YouTube link with an 11-character id starts at index `p` of `u`.
pub open spec fn youtube_link_at(u: Seq<char>, p: int) -> bool {
    let l = youtube_prefix_len(u, p);
    l > 0 && p + l + 11 <= u.len() && forall|k: int|
        p + l <= k < p + l + 11 ==> youtube_id_char(#[trigger] u[k])
}

/// The id of the first YouTube link in `u`, if any.
pub open spec fn youtube_id_of(u: Seq<char>) -> Option<Seq<char>> {
    if exists|p: int| youtube_link_at(u, p) {
        let p = choose|p: int|
            youtube_link_at(u, p) && forall|q: int| 0 <= q < p ==> !youtube_link_at(u, q);
        Some(u.subrange(p + youtube_prefix_len(u, p), p + youtube_prefix_len(u, p) + 11))
    } else {
        None
    }
}

/// regex `Regex::captures` with
/// `(?:youtube\.com/(?:watch\?v=|embed/|v/|shorts/)|youtu\.be/)([a-zA-Z0-9_-]{11})`,
/// group 1. Claimed: the leftmost match is taken, which is the first link
/// prefix followed by eleven id characters.
#[verifier::external_body]
fn youtube_capture(url: &str) -> (r: Option<String>)
    ensures
        r matches Some(id) ==> youtube_id_of(url@) == Some(id@),
        r is None ==> youtube_id_of(url@) is None,
{
    let re = regex::Regex::new(
        r"(?:youtube\.com/(?:watch\?v=|embed/|v/|shorts/)|youtu\.be/)([a-zA-Z0-9_-]{11})",
    ).unwrap();
    re.captures(url).map(|c| c[1].to_string())
}

/// Extract the YouTube video id from a URL.
pub fn get_youtube_id(url: &str) -> (r: Option<String>)
    ensures
        r matches Some(id) ==> youtube_id_of(url@) == Some(id@),
        r is None ==> youtube_id_of(url@) is None,
{
    youtube_capture(url)
}

/// A Bilibili link `bilibili.com/video/BV` followed by an ASCII letter or
/// digit starts at index `p` of `u`.
pub open spec fn bilibili_link_at(u: Seq<char>, p: int) -> bool {
    has_at(u, p, "bilibili.com/video/BV"@) && p + 21 < u.len() && ascii_alnum(u[p + 21])
}

/// The end of the run of ASCII letters and digits of `u` that starts at `s`.
pub open spec fn alnum_run_end(u: Seq<char>, s: int, e: int) -> bool {
    &&& s <= e <= u.len()
    &&& forall|k: int| s <= k < e ==> ascii_alnum(#[trigger] u[k])
    &&& (e == u.len() || !ascii_alnum(u[e]))
}

/// The id (`BV...`) of the first Bilibili link in `u`, if any.
pub open spec fn bilibili_id_of(u: Seq<char>) -> Option<Seq<char>> {
    if exists|p: int| bilibili_link_at(u, p) {
        let p = choose|p: int|
            bilibili_link_at(u, p) && forall|q: int| 0 <= q < p ==> !bilibili_link_at(u, q);
        let e = choose|e: int| #[trigger] alnum_run_end(u, p + 21, e);
        Some(u.subrange(p + 19, e))
    } else {
        None
    }
}

/// regex `Regex::captures` with `bilibili\.com/video/(BV[a-zA-Z0-9]+)`,
/// group 1. Claimed: the leftmost match is taken and the greedy `+` takes the
/// whole run of ASCII letters and digits.
#[verifier::external_body]
fn bilibili_capture(url: &str) -> (r: Option<String>)
    ensures
        r matches Some(id) ==> bilibili_id_of(url@) == Some(id@),
        r is None ==> bilibili_id_of(url@) is None,
{
    let re = regex::Regex::new(r"bilibili\.com/video/(BV[a-zA-Z0-9]+)").unwrap();
    re.captures(url).map(|c| c[1].to_string())
}

/// Extract the Bilibili video id from a URL.
pub fn get_bilibili_id(url: &str) -> (r: Option<String>)
    ensures
        r matches Some(id) ==> bilibili_id_of(url@) == Some(id@),
        r is None ==> bilibili_id_of(url@) is None,
{
    bilibili_capture(url)
}

/// The CJK ranges: unified ideographs, extension A, hiragana, katakana, hangul.
pub open spec fn cjk(c: char) -> bool {
    let u = c as u32;
    (0x4E00 <= u <= 0x9FFF) || (0x3400 <= u <= 0x4DBF) || (0x3040 <= u <= 0x309F) || (0x30A0
        <= u <= 0x30FF) || (0xAC00 <= u <= 0xD7AF)
}

/// Whether a character belongs to a CJK script.
pub fn is_cjk(c: char) -> (r: bool)
    ensures
        r == cjk(c),
{
    let u = c as u32;
    (0x4E00 <= u && u <= 0x9FFF) || (0x3400 <= u && u <= 0x4DBF) || (0x3040 <= u && u <= 0x309F)
        || (0x30A0 <= u && u <= 0x30FF) || (0xAC00 <= u && u <= 0xD7AF)
}

/// The language codes treated as Asian.
pub open spec fn asian_code(code: Seq<char>) -> bool {
    code == "zh_cn"@ || code == "zh_tw"@ || code == "ja"@ || code == "ko"@ || code == "th"@ || code
        == "vi"@ || code == "my"@ || code == "km"@ || code == "lo"@
}

/// Whether a language code names an Asian language.
pub fn is_asian_language(code: &str) -> (r: bool)
    ensures
        r == asian_code(code@),
{
    str_eq(code, "zh_cn") || str_eq(code, "zh_tw") || str_eq(code, "ja") || str_eq(code, "ko")
        || str_eq(code, "th") || str_eq(code, "vi") || str_eq(code, "my") || str_eq(code, "km")
        || str_eq(code, "lo")
}

/// Count the alphanumeric characters of `text` (of ASCII text, its letters
/// and digits).
pub fn count_effective_chars(text: &str) -> (r: usize)
    ensures
        r == text@.filter(|c: char| alphanumeric(c)).len(),
        all_ascii(text@) ==> r == text@.filter(|c: char| ascii_alnum(c)).len(),
{
    let v = chars_of(text);
    let mut n: usize = 0;
    let mut i: usize = 0;
    while i < v.len()
        invariant
            i <= v@.len(),
            v@ == text@,
            n == v@.take(i as int).filter(|c: char| alphanumeric(c)).len(),
            all_ascii(v@.take(i as int)) ==> n == v@.take(i as int).filter(|c: char| ascii_alnum(c)).len(),
            n <= i,
        decreases v@.len() - i,
    {
        proof {
            assert(v@.take(i + 1).drop_last() == v@.take(i as int));
            reveal_with_fuel(Seq::filter, 1);
            if all_ascii(v@.take(i + 1)) {
                assert forall|k: int| 0 <= k < i implies (#[trigger] v@.take(i as int)[k] as u32)
                    < 128 by {
                    assert(v@.take(i as int)[k] == v@.take(i + 1)[k]);
                }
                assert((v@.take(i + 1)[i as int] as u32) < 128);
            }
        }
        if is_alphanumeric(v[i]) {
            n = n + 1;
        }
        i = i + 1;
    }
    assert(v@.take(v@.len() as int) == v@);
    n
}

} // verus!
