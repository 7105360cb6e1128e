//! Splitting transcribed text into sentences for translation.
use vstd::prelude::*;
use crate::strings::{chars_of, lemma_trim_shape, is_ws, string_from_chars, trim, trim_chars, TrimSet};

verus! {

/// Number of bytes of `c` in UTF-8.
pub open spec fn utf8_len(c: char) -> nat {
    let u = c as u32;
    if u < 0x80 {
        1
    } else if u < 0x800 {
        2
    } else if u < 0x10000 {
        3
    } else {
        4
    }
}

/// Number of bytes of `s` in UTF-8 (what `str::len` gives).
pub open spec fn bytes_len(s: Seq<char>) -> nat
    decreases s.len(),
{
    if s.len() == 0 {
        0
    } else {
        bytes_len(s.drop_last()) + utf8_len(s.last())
    }
}

/// Whether `s` ends with one of the sentence delimiters
/// `". "`, `"! "`, `"? "`, `"。"`, `"！"`, `"？"`, `"；"`.
pub open spec fn ends_with_delimiter(s: Seq<char>) -> bool {
    ||| (s.len() >= 2 && s.last() == ' ' && (s[s.len() - 2] == '.' || s[s.len() - 2] == '!'
        || s[s.len() - 2] == '?'))
    ||| (s.len() >= 1 && (s.last() == '\u{3002}' || s.last() == '\u{FF01}' || s.last()
        == '\u{FF1F}' || s.last() == '\u{FF1B}'))
}

/// The sentences completed so far and the pending text, after reading `text`
/// one character at a time: a chunk closes when it ends with a delimiter or
/// reaches `max` bytes, and is kept trimmed when something is left of it.
pub open spec fn scan(text: Seq<char>, max: nat) -> (Seq<Seq<char>>, Seq<char>)
    decreases text.len(),
{
    if text.len() == 0 {
        (Seq::empty(), Seq::empty())
    } else {
        let (done, cur) = scan(text.drop_last(), max);
        let cur2 = cur.push(text.last());
        if ends_with_delimiter(cur2) || bytes_len(cur2) >= max {
            let t = trim(cur2);
            (if t.len() > 0 { done.push(t) } else { done }, Seq::empty())
        } else {
            (done, cur2)
        }
    }
}

/// The sentences of `text` for a chunk limit of `max` bytes.
pub open spec fn sentences(text: Seq<char>, max: nat) -> Seq<Seq<char>> {
    let (done, cur) = scan(text, max);
    let t = trim(cur);
    if t.len() > 0 {
        done.push(t)
    } else {
        done
    }
}

/// `s` with its whitespace removed.
pub open spec fn strip_ws(s: Seq<char>) -> Seq<char>
    decreases s.len(),
{
    if s.len() == 0 {
        Seq::empty()
    } else if is_ws(s.last()) {
        strip_ws(s.drop_last())
    } else {
        strip_ws(s.drop_last()).push(s.last())
    }
}

/// The non-whitespace characters of all of `ss`, one after the other.
pub open spec fn stripped_concat(ss: Seq<Seq<char>>) -> Seq<char>
    decreases ss.len(),
{
    if ss.len() == 0 {
        Seq::empty()
    } else {
        stripped_concat(ss.drop_last()) + strip_ws(ss.last())
    }
}

/// A sentence as the splitter emits it: not empty, and neither starting nor
/// ending with whitespace.
pub open spec fn well_trimmed(s: Seq<char>) -> bool {
    s.len() > 0 && !is_ws(s[0]) && !is_ws(s.last())
}

proof fn lemma_strip_add(a: Seq<char>, b: Seq<char>)
    ensures
        strip_ws(a + b) == strip_ws(a) + strip_ws(b),
    decreases b.len(),
{
    if b.len() == 0 {
        assert(a + b =~= a);
    } else {
        lemma_strip_add(a, b.drop_last());
        assert((a + b).drop_last() =~= a + b.drop_last());
        assert((a + b).last() == b.last());
    }
}

proof fn lemma_strip_all_ws(s: Seq<char>)
    requires
        forall|k: int| 0 <= k < s.len() ==> is_ws(#[trigger] s[k]),
    ensures
        strip_ws(s) == Seq::<char>::empty(),
    decreases s.len(),
{
    if s.len() > 0 {
        lemma_strip_all_ws(s.drop_last());
    }
}

/// Trimming whitespace loses no other character, and leaves a well trimmed
/// result when anything is left.
proof fn lemma_trim_keeps(s: Seq<char>)
    ensures
        strip_ws(trim(s)) == strip_ws(s),
        trim(s).len() > 0 ==> well_trimmed(trim(s)),
{
    lemma_trim_shape(s, TrimSet::Whitespace);
    let (a, b) = choose|a: int, b: int|
        0 <= a <= b <= s.len() && trim(s) == s.subrange(a, b) && (forall|k: int|
            0 <= k < a ==> TrimSet::Whitespace.has(#[trigger] s[k])) && (forall|k: int|
            b <= k < s.len() ==> TrimSet::Whitespace.has(#[trigger] s[k]));
    let pre = s.subrange(0, a);
    let mid = s.subrange(a, b);
    let post = s.subrange(b, s.len() as int);
    assert(s =~= pre + mid + post);
    assert forall|k: int| 0 <= k < pre.len() implies is_ws(#[trigger] pre[k]) by {
        assert(pre[k] == s[k]);
        assert(TrimSet::Whitespace.has(s[k]));
    }
    assert forall|k: int| 0 <= k < post.len() implies is_ws(#[trigger] post[k]) by {
        assert(post[k] == s[k + b]);
        assert(TrimSet::Whitespace.has(s[k + b]));
    }
    lemma_strip_all_ws(pre);
    lemma_strip_all_ws(post);
    lemma_strip_add(pre + mid, post);
    lemma_strip_add(pre, mid);
    assert(Seq::<char>::empty() + strip_ws(mid) =~= strip_ws(mid));
    assert(strip_ws(mid) + Seq::<char>::empty() =~= strip_ws(mid));
}

proof fn lemma_scan(text: Seq<char>, max: nat)
    ensures
        strip_ws(text) == stripped_concat(scan(text, max).0) + strip_ws(scan(text, max).1),
        forall|k: int|
            0 <= k < scan(text, max).0.len() ==> well_trimmed(#[trigger] scan(text, max).0[k]),
    decreases text.len(),
{
    if text.len() > 0 {
        let p = text.drop_last();
        let c = text.last();
        lemma_scan(p, max);
        let (done, cur) = scan(p, max);
        let cur2 = cur.push(c);
        assert(text =~= p + seq![c]);
        assert(cur2 =~= cur + seq![c]);
        lemma_strip_add(p, seq![c]);
        lemma_strip_add(cur, seq![c]);
        if ends_with_delimiter(cur2) || bytes_len(cur2) >= max {
            let t = trim(cur2);
            lemma_trim_keeps(cur2);
            if t.len() > 0 {
                let nd = done.push(t);
                assert(nd.drop_last() =~= done);
                assert forall|k: int| 0 <= k < nd.len() implies well_trimmed(#[trigger] nd[k]) by {
                    if k < done.len() {
                        assert(nd[k] == done[k]);
                    }
                }
            }
            assert(strip_ws(Seq::<char>::empty()) =~= Seq::<char>::empty());
        }
    }
}

/// Every sentence is non-empty and trimmed, and the sentences hold all of
/// the text but its whitespace, in order.
pub proof fn sentences_keep_text(text: Seq<char>, max: nat)
    ensures
        stripped_concat(sentences(text, max)) == strip_ws(text),
        forall|k: int|
            0 <= k < sentences(text, max).len() ==> well_trimmed(#[trigger] sentences(text, max)[k]),
{
    lemma_scan(text, max);
    let (done, cur) = scan(text, max);
    let t = trim(cur);
    lemma_trim_keeps(cur);
    if t.len() > 0 {
        let nd = done.push(t);
        assert(nd.drop_last() =~= done);
        assert forall|k: int| 0 <= k < nd.len() implies well_trimmed(#[trigger] nd[k]) by {
            if k < done.len() {
                assert(nd[k] == done[k]);
            }
        }
    } else {
        assert(stripped_concat(done) + Seq::<char>::empty() =~= stripped_concat(done));
    }
}

proof fn lemma_bytes_add(a: Seq<char>, b: Seq<char>)
    ensures
        bytes_len(a + b) == bytes_len(a) + bytes_len(b),
    decreases b.len(),
{
    if b.len() == 0 {
        assert(a + b =~= a);
    } else {
        lemma_bytes_add(a, b.drop_last());
        assert((a + b).drop_last() =~= a + b.drop_last());
        assert((a + b).last() == b.last());
    }
}

/// Trimming never adds bytes.
proof fn lemma_trim_bytes(s: Seq<char>)
    ensures
        bytes_len(trim(s)) <= bytes_len(s),
{
    lemma_trim_shape(s, TrimSet::Whitespace);
    let (a, b) = choose|a: int, b: int|
        0 <= a <= b <= s.len() && trim(s) == s.subrange(a, b) && (forall|k: int|
            0 <= k < a ==> TrimSet::Whitespace.has(#[trigger] s[k])) && (forall|k: int|
            b <= k < s.len() ==> TrimSet::Whitespace.has(#[trigger] s[k]));
    let pre = s.subrange(0, a);
    let mid = s.subrange(a, b);
    let post = s.subrange(b, s.len() as int);
    assert(s =~= pre + mid + post);
    lemma_bytes_add(pre + mid, post);
    lemma_bytes_add(pre, mid);
}

proof fn lemma_scan_bounds(text: Seq<char>, max: nat)
    requires
        max > 0,
    ensures
        scan(text, max).1.len() == 0 || bytes_len(scan(text, max).1) < max,
        forall|k: int|
            0 <= k < scan(text, max).0.len() ==> bytes_len(#[trigger] scan(text, max).0[k]) <= max
                + 3,
        crate::strings::all_ascii(text) ==> forall|k: int|
            0 <= k < scan(text, max).0.len() ==> bytes_len(#[trigger] scan(text, max).0[k]) <= max,
    decreases text.len(),
{
    if text.len() > 0 {
        let p = text.drop_last();
        let c = text.last();
        lemma_scan_bounds(p, max);
        let (done, cur) = scan(p, max);
        let cur2 = cur.push(c);
        assert(cur2.drop_last() =~= cur);
        assert(bytes_len(cur2) == bytes_len(cur) + utf8_len(c));
        if crate::strings::all_ascii(text) {
            assert forall|k: int| 0 <= k < p.len() implies (#[trigger] p[k] as u32) < 128 by {
                assert(p[k] == text[k]);
            }
            assert((text[text.len() - 1] as u32) < 128);
        }
        if ends_with_delimiter(cur2) || bytes_len(cur2) >= max {
            let t = trim(cur2);
            lemma_trim_bytes(cur2);
            if t.len() > 0 {
                let nd = done.push(t);
                assert forall|k: int| 0 <= k < nd.len() implies bytes_len(#[trigger] nd[k]) <= max
                    + 3 by {
                    if k < done.len() {
                        assert(nd[k] == done[k]);
                    }
                }
                if crate::strings::all_ascii(text) {
                    assert forall|k: int| 0 <= k < nd.len() implies bytes_len(#[trigger] nd[k])
                        <= max by {
                        if k < done.len() {
                            assert(nd[k] == done[k]);
                        }
                    }
                }
            }
        }
    }
}

/// No sentence holds more than `max` bytes and the character that reached
/// the limit; on ASCII text, no sentence holds more than `max` bytes (for a
/// positive `max`).
pub proof fn sentences_fit_limit(text: Seq<char>, max: nat)
    requires
        max > 0,
    ensures
        forall|k: int|
            0 <= k < sentences(text, max).len() ==> bytes_len(#[trigger] sentences(text, max)[k])
                <= max + 3,
        crate::strings::all_ascii(text) ==> forall|k: int|
            0 <= k < sentences(text, max).len() ==> bytes_len(#[trigger] sentences(text, max)[k])
                <= max,
{
    lemma_scan_bounds(text, max);
    let (done, cur) = scan(text, max);
    let t = trim(cur);
    lemma_trim_bytes(cur);
    if t.len() > 0 {
        let nd = done.push(t);
        assert forall|k: int| 0 <= k < nd.len() implies bytes_len(#[trigger] nd[k]) <= max + 3 by {
            if k < done.len() {
                assert(nd[k] == done[k]);
            }
        }
        if crate::strings::all_ascii(text) {
            assert forall|k: int| 0 <= k < nd.len() implies bytes_len(#[trigger] nd[k]) <= max by {
                if k < done.len() {
                    assert(nd[k] == done[k]);
                }
            }
        }
    }
}

/// `.`, `!` or `?` at index `j` of `s`, followed by a space.
pub open spec fn stop_space_at(s: Seq<char>, j: int) -> bool {
    (s[j] == '.' || s[j] == '!' || s[j] == '?') && s[j + 1] == ' '
}

/// One of the full-width stops `。`, `！`, `？`, `；`.
pub open spec fn wide_stop(c: char) -> bool {
    c == '\u{3002}' || c == '\u{FF01}' || c == '\u{FF1F}' || c == '\u{FF1B}'
}

/// `s` holds no sentence delimiter before its last character: no `. `,
/// `! ` or `? `, and no full-width stop but possibly the last character.
pub open spec fn no_inner_delimiter(s: Seq<char>) -> bool {
    &&& forall|j: int| 0 <= j < s.len() - 1 ==> !stop_space_at(s, j)
    &&& forall|j: int| 0 <= j < s.len() - 1 ==> !wide_stop(#[trigger] s[j])
}

/// The pending text holds no delimiter at all.
spec fn clean_pending(s: Seq<char>) -> bool {
    &&& forall|j: int| 0 <= j < s.len() - 1 ==> !stop_space_at(s, j)
    &&& forall|j: int| 0 <= j < s.len() ==> !wide_stop(#[trigger] s[j])
}

/// A trimmed piece of a text whose only delimiter may end it holds no
/// delimiter before its last character.
proof fn lemma_trim_inner(s: Seq<char>)
    requires
        s.len() > 0,
        clean_pending(s.drop_last()),
    ensures
        no_inner_delimiter(trim(s)),
{
    lemma_trim_shape(s, TrimSet::Whitespace);
    let t = trim(s);
    let (a, b) = choose|a: int, b: int|
        0 <= a <= b <= s.len() && trim(s) == s.subrange(a, b) && (forall|k: int|
            0 <= k < a ==> TrimSet::Whitespace.has(#[trigger] s[k])) && (forall|k: int|
            b <= k < s.len() ==> TrimSet::Whitespace.has(#[trigger] s[k]));
    let p = s.drop_last();
    assert forall|j: int| 0 <= j < t.len() - 1 implies !stop_space_at(t, j) by {
        assert(t[j] == s[a + j] && t[j + 1] == s[a + j + 1]);
        if a + j + 1 < p.len() {
            assert(p[a + j] == s[a + j] && p[a + j + 1] == s[a + j + 1]);
            assert(!stop_space_at(p, a + j));
        } else {
            assert(t.last() == s[s.len() - 1]);
            assert(!is_ws(t.last()));
            assert((' ' as u32) == 0x20);
        }
    }
    assert forall|j: int| 0 <= j < t.len() - 1 implies !wide_stop(#[trigger] t[j]) by {
        assert(t[j] == s[a + j]);
        assert(p[a + j] == s[a + j]);
    }
}

proof fn lemma_scan_clean(text: Seq<char>, max: nat)
    ensures
        clean_pending(scan(text, max).1),
        forall|k: int|
            0 <= k < scan(text, max).0.len() ==> no_inner_delimiter(#[trigger] scan(text, max).0[k]),
    decreases text.len(),
{
    if text.len() > 0 {
        let p = text.drop_last();
        let c = text.last();
        lemma_scan_clean(p, max);
        let (done, cur) = scan(p, max);
        let cur2 = cur.push(c);
        assert(cur2.drop_last() =~= cur);
        if ends_with_delimiter(cur2) || bytes_len(cur2) >= max {
            lemma_trim_inner(cur2);
            let t = trim(cur2);
            if t.len() > 0 {
                let nd = done.push(t);
                assert forall|k: int| 0 <= k < nd.len() implies no_inner_delimiter(#[trigger] nd[k]) by {
                    if k < done.len() {
                        assert(nd[k] == done[k]);
                    }
                }
            }
        } else {
            assert forall|j: int| 0 <= j < cur2.len() - 1 implies !stop_space_at(cur2, j) by {
                if j + 1 < cur.len() {
                    assert(cur2[j] == cur[j] && cur2[j + 1] == cur[j + 1]);
                    assert(!stop_space_at(cur, j));
                }
            }
            assert forall|j: int| 0 <= j < cur2.len() implies !wide_stop(#[trigger] cur2[j]) by {
                if j < cur.len() {
                    assert(cur2[j] == cur[j]);
                }
            }
        }
    }
}

/// A sentence ends right after each delimiter: no sentence holds `. `,
/// `! ` or `? `, and a full-width stop (`。`, `！`, `？`, `；`) only as its
/// last character, whatever the text and the limit.
pub proof fn sentences_end_at_delimiters(text: Seq<char>, max: nat)
    ensures
        forall|k: int|
            0 <= k < sentences(text, max).len() ==> no_inner_delimiter(#[trigger] sentences(text, max)[k]),
{
    lemma_scan_clean(text, max);
    let (done, cur) = scan(text, max);
    let t = trim(cur);
    if t.len() > 0 {
        assert(cur.len() > 0);
        lemma_trim_shape(cur, TrimSet::Whitespace);
        let (a, b) = choose|a: int, b: int|
            0 <= a <= b <= cur.len() && trim(cur) == cur.subrange(a, b) && (forall|k: int|
                0 <= k < a ==> TrimSet::Whitespace.has(#[trigger] cur[k])) && (forall|k: int|
                b <= k < cur.len() ==> TrimSet::Whitespace.has(#[trigger] cur[k]));
        assert forall|j: int| 0 <= j < t.len() - 1 implies !stop_space_at(t, j) by {
            assert(t[j] == cur[a + j] && t[j + 1] == cur[a + j + 1]);
            assert(!stop_space_at(cur, a + j));
        }
        assert forall|j: int| 0 <= j < t.len() - 1 implies !wide_stop(#[trigger] t[j]) by {
            assert(t[j] == cur[a + j]);
        }
        let nd = done.push(t);
        assert forall|k: int| 0 <= k < nd.len() implies no_inner_delimiter(#[trigger] nd[k]) by {
            if k < done.len() {
                assert(nd[k] == done[k]);
            }
        }
    }
}

fn utf8_width(c: char) -> (n: u128)
    ensures
        n == utf8_len(c),
{
    let u = c as u32;
    if u < 0x80 {
        1
    } else if u < 0x800 {
        2
    } else if u < 0x10000 {
        3
    } else {
        4
    }
}

fn ends_with_delim(cur: &Vec<char>) -> (r: bool)
    ensures
        r == ends_with_delimiter(cur@),
{
    let n = cur.len();
    if n >= 2 && cur[n - 1] == ' ' && (cur[n - 2] == '.' || cur[n - 2] == '!' || cur[n - 2] == '?') {
        return true;
    }
    if n >= 1 {
        let l = cur[n - 1];
        return l == '\u{3002}' || l == '\u{FF01}' || l == '\u{FF1F}' || l == '\u{FF1B}';
    }
    false
}

/// Split `text` into sentences: a chunk ends after one of the delimiters
/// `". "`, `"! "`, `"? "`, `"。"`, `"！"`, `"？"`, `"；"` or once it holds at
/// least `max_chars` bytes; each chunk is trimmed and kept if not empty.
pub fn split_into_sentences(text: &str, max_chars: usize) -> (r: Vec<String>)
    ensures
        r@.map_values(|s: String| s@) == sentences(text@, max_chars as nat),
{
    let v = chars_of(text);
    let mut out: Vec<String> = Vec::new();
    let mut cur: Vec<char> = Vec::new();
    let mut cur_bytes: u128 = 0;
    let mut i: usize = 0;
    while i < v.len()
        invariant
            i <= v@.len(),
            v@ == text@,
            (out@.map_values(|s: String| s@), cur@) == scan(v@.take(i as int), max_chars as nat),
            cur_bytes == bytes_len(cur@),
            cur@.len() == 0 || bytes_len(cur@) < max_chars,
        decreases v@.len() - i,
    {
        let c = v[i];
        proof {
            assert(v@.take(i + 1).drop_last() == v@.take(i as int));
            assert(v@.take(i + 1).last() == c);
        }
        let ghost old_cur = cur@;
        cur.push(c);
        assert(cur@.drop_last() == old_cur);
        cur_bytes = cur_bytes + utf8_width(c);
        if ends_with_delim(&cur) || cur_bytes >= max_chars as u128 {
            let t = trim_chars(cur.as_slice(), TrimSet::Whitespace);
            if t.len() > 0 {
                let ghost before = out@;
                out.push(string_from_chars(t.as_slice()));
                assert(out@.map_values(|s: String| s@) =~= before.map_values(|s: String| s@).push(
                    t@,
                ));
            }
            cur = Vec::new();
            cur_bytes = 0;
        }
        i = i + 1;
    }
    assert(v@.take(v@.len() as int) == v@);
    let t = trim_chars(cur.as_slice(), TrimSet::Whitespace);
    if t.len() > 0 {
        let ghost before = out@;
        out.push(string_from_chars(t.as_slice()));
        assert(out@.map_values(|s: String| s@) =~= before.map_values(|s: String| s@).push(t@));
    }
    out
}

} // verus!
