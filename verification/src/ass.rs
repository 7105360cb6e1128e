//! Burning subtitles into video: ASS documents from SRT entries.
use vstd::prelude::*;
use crate::strings::{cat, cat3, chars_of, decimal, is_whitespace, is_ws, owned, string_from_chars,
    two_digits, u64_to_decimal, zero_padded};
use crate::task::{EmbedVideoType, SubtitleResultType};

verus! {

/// An SRT entry with its times as written (`HH:MM:SS,mmm`).
#[derive(Debug, Clone)]
pub struct SrtSentenceWithStrTime {
    pub start: String,
    pub end: String,
    pub text: String,
}

/// Value of a sequence of decimal digits.
pub open spec fn digits_value(d: Seq<char>) -> nat
    decreases d.len(),
{
    if d.len() == 0 {
        0
    } else {
        digits_value(d.drop_last()) * 10 + ((d.last() as u32) - 48) as nat
    }
}

/// What `u32::from_str` gives: an optional `+`, then one or more ASCII
/// digits whose value fits in 32 bits.
pub open spec fn parse_u32_spec(s: Seq<char>) -> Option<u32> {
    let d = digit_part(s);
    if d.len() > 0 && (forall|i: int| 0 <= i < d.len() ==> '0' <= #[trigger] d[i] <= '9')
        && digits_value(d) <= u32::MAX {
        Some(digits_value(d) as u32)
    } else {
        None
    }
}

proof fn lemma_digits_value_grows(d: Seq<char>, k: int)
    requires
        0 <= k <= d.len(),
        forall|i: int| 0 <= i < d.len() ==> '0' <= #[trigger] d[i] <= '9',
    ensures
        digits_value(d.take(k)) <= digits_value(d),
    decreases d.len() - k,
{
    if k < d.len() {
        lemma_digits_value_grows(d, k + 1);
        assert(d.take(k + 1).drop_last() =~= d.take(k));
    } else {
        assert(d.take(k) =~= d);
    }
}

/// The digits that `u32::from_str` reads from `s` (after an optional `+`).
pub open spec fn digit_part(s: Seq<char>) -> Seq<char> {
    if s.len() > 0 && s[0] == '+' {
        s.drop_first()
    } else {
        s
    }
}

proof fn lemma_parse_fails_on_nondigit(s: Seq<char>, k: int)
    requires
        0 <= k < digit_part(s).len(),
        !('0' <= digit_part(s)[k] <= '9'),
    ensures
        parse_u32_spec(s) is None,
{
}

proof fn lemma_parse_fails_on_overflow(s: Seq<char>, k: int)
    requires
        0 <= k <= digit_part(s).len(),
        digits_value(digit_part(s).take(k)) > u32::MAX,
    ensures
        parse_u32_spec(s) is None,
{
    let d = digit_part(s);
    if forall|i: int| 0 <= i < d.len() ==> '0' <= #[trigger] d[i] <= '9' {
        lemma_digits_value_grows(d, k);
    }
}

/// Parse a `u32` as `str::parse::<u32>` does.
pub fn parse_u32(s: &[char]) -> (r: Option<u32>)
    ensures
        r == parse_u32_spec(s@),
{
    let start: usize = if s.len() > 0 && s[0] == '+' { 1 } else { 0 };
    let ghost d = digit_part(s@);
    assert(d =~= s@.skip(start as int));
    if start >= s.len() {
        return None;
    }
    let mut v: u64 = 0;
    let mut i: usize = start;
    while i < s.len()
        invariant
            start <= i <= s@.len(),
            s@.len() == s.len(),
            d == digit_part(s@),
            d == s@.skip(start as int),
            forall|k: int| 0 <= k < i - start ==> '0' <= #[trigger] d[k] <= '9',
            v == digits_value(d.take(i - start)),
            v <= u32::MAX,
        decreases s@.len() - i,
    {
        let c = s[i];
        assert(d[i - start] == c);
        if c < '0' || c > '9' {
            proof {
                lemma_parse_fails_on_nondigit(s@, i - start);
            }
            return None;
        }
        assert(d.take(i - start + 1).drop_last() =~= d.take(i - start));
        assert(d.take(i - start + 1).last() == c);
        let digit = (c as u32 - 48) as u64;
        let nv = v * 10 + digit;
        assert(nv == digits_value(d.take(i - start + 1)));
        if nv > 4294967295 {
            proof {
                lemma_parse_fails_on_overflow(s@, i - start + 1);
            }
            return None;
        }
        v = nv;
        i = i + 1;
    }
    assert(d.take(s@.len() - start) =~= d);
    Some(v as u32)
}

/// The index of the first `c` in `s`, if any.
pub open spec fn find_first(s: Seq<char>, c: char) -> Option<nat>
    decreases s.len(),
{
    if s.len() == 0 {
        None
    } else if s[0] == c {
        Some(0)
    } else {
        match find_first(s.drop_first(), c) {
            Some(i) => Some(i + 1),
            None => None,
        }
    }
}

pub proof fn lemma_find_first(s: Seq<char>, c: char, i: int)
    requires
        0 <= i <= s.len(),
        forall|k: int| 0 <= k < i ==> s[k] != c,
        i < s.len() ==> s[i] == c,
    ensures
        find_first(s, c) == if i < s.len() { Some(i as nat) } else { None::<nat> },
    decreases i,
{
    if i > 0 {
        lemma_find_first(s.drop_first(), c, i - 1);
    }
}

fn find_char(s: &[char], c: char) -> (r: Option<usize>)
    ensures
        r matches Some(i) ==> find_first(s@, c) == Some(i as nat) && i < s@.len(),
        r is None ==> find_first(s@, c) is None,
{
    let mut i: usize = 0;
    while i < s.len()
        invariant
            i <= s@.len(),
            forall|k: int| 0 <= k < i ==> s@[k] != c,
        decreases s@.len() - i,
    {
        if s[i] == c {
            proof {
                lemma_find_first(s@, c, i as int);
            }
            return Some(i);
        }
        i = i + 1;
    }
    proof {
        lemma_find_first(s@, c, i as int);
    }
    None
}

/// The index of the first `c` in `v`, if any.
pub fn find_char_in(v: &Vec<char>, c: char) -> (r: Option<usize>)
    ensures
        r matches Some(i) ==> find_first(v@, c) == Some(i as nat) && i < v@.len(),
        r is None ==> find_first(v@, c) is None,
{
    find_char(v.as_slice(), c)
}

/// `s` with `,` turned into `.`.
pub open spec fn comma_to_dot(s: Seq<char>) -> Seq<char> {
    s.map_values(|c: char| if c == ',' { '.' } else { c })
}

/// The number read from `p`, or 0 when it does not parse.
pub open spec fn number_or_zero(p: Seq<char>) -> nat {
    match parse_u32_spec(p) {
        Some(v) => v as nat,
        None => 0,
    }
}

/// The ASS time (`H:MM:SS.cc`) for an SRT time (`HH:MM:SS,mmm`): commas
/// become dots, the text is split at its first dot, the part before it must
/// have exactly three `:`-separated fields, and fields that do not parse
/// count as 0; otherwise the text is kept as it is.
pub open spec fn ass_time(srt: Seq<char>) -> Seq<char> {
    let cl = comma_to_dot(srt);
    match find_first(cl, '.') {
        None => srt,
        Some(i) => {
            let hms = cl.take(i as int);
            let centis = number_or_zero(cl.skip(i as int + 1)) / 10;
            match find_first(hms, ':') {
                None => srt,
                Some(a) => {
                    let rest = hms.skip(a as int + 1);
                    match find_first(rest, ':') {
                        None => srt,
                        Some(b) => {
                            let tail = rest.skip(b as int + 1);
                            if find_first(tail, ':') is Some {
                                srt
                            } else {
                                decimal(number_or_zero(hms.take(a as int))) + ":"@ + zero_padded(
                                    number_or_zero(rest.take(b as int)),
                                    2,
                                ) + ":"@ + zero_padded(number_or_zero(tail), 2) + "."@
                                    + zero_padded(centis, 2)
                            }
                        },
                    }
                },
            }
        },
    }
}

fn parsed_or_zero(s: &[char]) -> (r: u32)
    ensures
        r == match parse_u32_spec(s@) {
            Some(v) => v,
            None => 0,
        },
{
    match parse_u32(s) {
        Some(v) => v,
        None => 0,
    }
}

fn padded(n: u32) -> (r: String)
    ensures
        r@ == zero_padded(n as nat, 2),
{
    if n < 100 {
        two_digits(n as u64)
    } else {
        let r = u64_to_decimal(n as u64);
        proof {
            lemma_decimal_len_ge3(n as nat);
        }
        r
    }
}

proof fn lemma_decimal_len_ge3(n: nat)
    requires
        n >= 100,
    ensures
        decimal(n).len() >= 2,
{
    assert(decimal(n) == decimal(n / 10).push(crate::strings::digit_char(n % 10)));
    assert(decimal(n / 10) == decimal(n / 100).push(crate::strings::digit_char((n / 10) % 10)));
}

/// Convert an SRT timestamp (`HH:MM:SS,mmm`) to the ASS format (`H:MM:SS.cc`).
pub fn format_srt_to_ass_time(srt_time: &str) -> (r: String)
    ensures
        r@ == ass_time(srt_time@),
{
    let v = chars_of(srt_time);
    let mut cl: Vec<char> = Vec::new();
    let mut i: usize = 0;
    while i < v.len()
        invariant
            i <= v@.len(),
            v@ == srt_time@,
            cl@ == comma_to_dot(v@.take(i as int)),
        decreases v@.len() - i,
    {
        cl.push(if v[i] == ',' { '.' } else { v[i] });
        i = i + 1;
        assert(cl@ =~= comma_to_dot(v@.take(i as int)));
    }
    assert(v@.take(v@.len() as int) =~= v@);
    match find_char(cl.as_slice(), '.') {
        None => owned(srt_time),
        Some(dot) => {
            let hms = slice_vec(&cl, 0, dot);
            let frac = slice_vec(&cl, dot + 1, cl.len());
            assert(hms@ =~= cl@.take(dot as int));
            assert(frac@ =~= cl@.skip(dot + 1));
            let centis = parsed_or_zero(frac.as_slice()) / 10;
            match find_char(hms.as_slice(), ':') {
                None => owned(srt_time),
                Some(a) => {
                    let rest = slice_vec(&hms, a + 1, hms.len());
                    assert(rest@ =~= hms@.skip(a + 1));
                    match find_char(rest.as_slice(), ':') {
                        None => owned(srt_time),
                        Some(b) => {
                            let tail = slice_vec(&rest, b + 1, rest.len());
                            let h_part = slice_vec(&hms, 0, a);
                            let m_part = slice_vec(&rest, 0, b);
                            assert(tail@ =~= rest@.skip(b + 1));
                            assert(h_part@ =~= hms@.take(a as int));
                            assert(m_part@ =~= rest@.take(b as int));
                            match find_char(tail.as_slice(), ':') {
                                Some(_) => owned(srt_time),
                                None => {
                                    let h = parsed_or_zero(h_part.as_slice());
                                    let m = parsed_or_zero(m_part.as_slice());
                                    let s = parsed_or_zero(tail.as_slice());
                                    let mut r = u64_to_decimal(h as u64);
                                    r.append(":");
                                    r.append(padded(m).as_str());
                                    r.append(":");
                                    r.append(padded(s).as_str());
                                    r.append(".");
                                    r.append(padded(centis).as_str());
                                    proof {
                                        let cls = comma_to_dot(srt_time@);
                                        assert(cl@ == cls);
                                        assert(find_first(cls, '.') == Some(dot as nat));
                                        assert(find_first(hms@, ':') == Some(a as nat));
                                        assert(find_first(rest@, ':') == Some(b as nat));
                                        assert(find_first(tail@, ':') is None);
                                    }
                                    assert(r@ == ass_time(srt_time@));
                                    r
                                },
                            }
                        },
                    }
                },
            }
        },
    }
}

/// The elements `from .. to` of `v`.
pub fn slice_vec(v: &Vec<char>, from: usize, to: usize) -> (r: Vec<char>)
    requires
        from <= to <= v@.len(),
    ensures
        r@ == v@.subrange(from as int, to as int),
{
    let mut r: Vec<char> = Vec::new();
    let mut i = from;
    while i < to
        invariant
            from <= i <= to <= v@.len(),
            r@ == v@.subrange(from as int, i as int),
        decreases to - i,
    {
        r.push(v[i]);
        i = i + 1;
        assert(r@ =~= v@.subrange(from as int, i as int));
    }
    r
}


/// Words seen so far and the word being read, scanning `s` from the left;
/// whitespace ends a word.
pub open spec fn words_scan(s: Seq<char>) -> (Seq<Seq<char>>, Seq<char>)
    decreases s.len(),
{
    if s.len() == 0 {
        (Seq::empty(), Seq::empty())
    } else {
        let (ws, cur) = words_scan(s.drop_last());
        if is_ws(s.last()) {
            (if cur.len() > 0 { ws.push(cur) } else { ws }, Seq::empty())
        } else {
            (ws, cur.push(s.last()))
        }
    }
}

/// The whitespace-separated words of `s` (`str::split_whitespace`).
pub open spec fn words(s: Seq<char>) -> Seq<Seq<char>> {
    let (ws, cur) = words_scan(s);
    if cur.len() > 0 {
        ws.push(cur)
    } else {
        ws
    }
}

/// The words of `ws` joined with single spaces.
pub open spec fn joined_words(ws: Seq<Seq<char>>) -> Seq<char>
    decreases ws.len(),
{
    if ws.len() == 0 {
        Seq::empty()
    } else if ws.len() == 1 {
        ws[0]
    } else {
        joined_words(ws.drop_last()) + " "@ + ws.last()
    }
}

/// The words of `s`.
pub fn split_words(s: &str) -> (r: Vec<Vec<char>>)
    ensures
        r@.map_values(|w: Vec<char>| w@) == words(s@),
{
    let v = chars_of(s);
    let mut ws: Vec<Vec<char>> = Vec::new();
    let mut cur: Vec<char> = Vec::new();
    let mut i: usize = 0;
    while i < v.len()
        invariant
            i <= v@.len(),
            v@ == s@,
            (ws@.map_values(|w: Vec<char>| w@), cur@) == words_scan(v@.take(i as int)),
        decreases v@.len() - i,
    {
        assert(v@.take(i + 1).drop_last() =~= v@.take(i as int));
        let c = v[i];
        if is_whitespace(c) {
            if cur.len() > 0 {
                let ghost before = ws@.map_values(|w: Vec<char>| w@);
                ws.push(cur);
                assert(ws@.map_values(|w: Vec<char>| w@) =~= before.push(cur@));
            }
            cur = Vec::new();
        } else {
            cur.push(c);
        }
        i = i + 1;
    }
    assert(v@.take(v@.len() as int) =~= v@);
    if cur.len() > 0 {
        let ghost before = ws@.map_values(|w: Vec<char>| w@);
        ws.push(cur);
        assert(ws@.map_values(|w: Vec<char>| w@) =~= before.push(cur@));
    }
    ws
}

/// Words `from .. to` of `ws` joined with single spaces.
pub fn join_words(ws: &Vec<Vec<char>>, from: usize, to: usize) -> (r: String)
    requires
        from <= to <= ws@.len(),
    ensures
        r@ == joined_words(ws@.map_values(|w: Vec<char>| w@).subrange(from as int, to as int)),
{
    let ghost all = ws@.map_values(|w: Vec<char>| w@);
    let mut r: Vec<char> = Vec::new();
    let mut i = from;
    while i < to
        invariant
            from <= i <= to <= ws@.len(),
            all == ws@.map_values(|w: Vec<char>| w@),
            r@ == joined_words(all.subrange(from as int, i as int)),
        decreases to - i,
    {
        assert(all.subrange(from as int, i + 1).drop_last() =~= all.subrange(from as int, i as int));
        if i > from {
            r.push(' ');
        }
        let w = &ws[i];
        let mut k: usize = 0;
        let ghost base = r@;
        while k < w.len()
            invariant
                k <= w@.len(),
                r@ == base + w@.take(k as int),
            decreases w@.len() - k,
        {
            r.push(w[k]);
            k = k + 1;
            assert(w@.take(k as int) =~= w@.take(k - 1).push(w@[k - 1]));
        }
        assert(w@.take(w@.len() as int) =~= w@);
        proof {
            reveal_strlit(" ");
            if i == from {
                assert(all.subrange(from as int, i + 1) =~= seq![all[i as int]]);
            }
        }
        i = i + 1;
    }
    string_from_chars(r.as_slice())
}

/// A subtitle line as shown: unchanged when it has at most `max_words`
/// words, else its words split in the middle over two lines joined by `\N`.
pub open spec fn split_line(text: Seq<char>, max_words: nat) -> Seq<char> {
    let ws = words(text);
    if ws.len() <= max_words {
        text
    } else {
        let mid = ws.len() / 2;
        joined_words(ws.take(mid as int)) + "\\N"@ + joined_words(ws.skip(mid as int))
    }
}

/// Split a long subtitle line roughly in the middle.
pub fn split_long_text(text: &str, max_words: usize) -> (r: String)
    ensures
        r@ == split_line(text@, max_words as nat),
{
    let ws = split_words(text);
    if ws.len() <= max_words {
        return owned(text);
    }
    let mid = ws.len() / 2;
    let l1 = join_words(&ws, 0, mid);
    let l2 = join_words(&ws, mid, ws.len());
    proof {
        let all = ws@.map_values(|w: Vec<char>| w@);
        assert(all.subrange(0, mid as int) =~= all.take(mid as int));
        assert(all.subrange(mid as int, all.len() as int) =~= all.skip(mid as int));
    }
    cat3(l1.as_str(), "\\N", l2.as_str())
}

/// `s` without a final `'\r'`.
pub open spec fn strip_cr(s: Seq<char>) -> Seq<char> {
    if s.len() > 0 && s.last() == '\r' {
        s.drop_last()
    } else {
        s
    }
}

/// Completed lines and the pending text, scanning `s` from the left.
pub open spec fn lines_scan(s: Seq<char>) -> (Seq<Seq<char>>, Seq<char>)
    decreases s.len(),
{
    if s.len() == 0 {
        (Seq::empty(), Seq::empty())
    } else {
        let (ls, cur) = lines_scan(s.drop_last());
        if s.last() == '\n' {
            (ls.push(strip_cr(cur)), Seq::empty())
        } else {
            (ls, cur.push(s.last()))
        }
    }
}

/// The lines of `s` (`str::lines`): split at `\n`, a `\r` before it dropped,
/// no final empty line.
pub open spec fn lines(s: Seq<char>) -> Seq<Seq<char>> {
    let (ls, cur) = lines_scan(s);
    if cur.len() > 0 {
        ls.push(cur)
    } else {
        ls
    }
}

/// The lines of `s`.
pub fn split_lines(s: &str) -> (r: Vec<String>)
    ensures
        r@.map_values(|l: String| l@) == lines(s@),
{
    let v = chars_of(s);
    let mut ls: Vec<String> = Vec::new();
    let mut cur: Vec<char> = Vec::new();
    let mut i: usize = 0;
    while i < v.len()
        invariant
            i <= v@.len(),
            v@ == s@,
            (ls@.map_values(|l: String| l@), cur@) == lines_scan(v@.take(i as int)),
        decreases v@.len() - i,
    {
        assert(v@.take(i + 1).drop_last() =~= v@.take(i as int));
        let c = v[i];
        if c == '\n' {
            let n = cur.len();
            let line = if n > 0 && cur[n - 1] == '\r' {
                slice_vec(&cur, 0, n - 1)
            } else {
                slice_vec(&cur, 0, n)
            };
            assert(line@ =~= strip_cr(cur@));
            let ghost before = ls@.map_values(|l: String| l@);
            ls.push(string_from_chars(line.as_slice()));
            assert(ls@.map_values(|l: String| l@) =~= before.push(line@));
            cur = Vec::new();
        } else {
            cur.push(c);
        }
        i = i + 1;
    }
    assert(v@.take(v@.len() as int) =~= v@);
    if cur.len() > 0 {
        let ghost before = ls@.map_values(|l: String| l@);
        ls.push(string_from_chars(cur.as_slice()));
        assert(ls@.map_values(|l: String| l@) =~= before.push(cur@));
    }
    ls
}

/// One dialogue event of an ASS document.
pub open spec fn dialogue(start: Seq<char>, end: Seq<char>, style: Seq<char>, text: Seq<char>) -> Seq<
    char,
> {
    "Dialogue: 0,"@ + start + ","@ + end + ","@ + style + ",,0,0,0,,"@ + text + "\n"@
}

/// The dialogue events for one subtitle: bilingual subtitles with two lines
/// give a `Major` and a `Minor` event, otherwise the first line (if any) gives
/// a `Major` event.
pub open spec fn subtitle_events(sub: SrtSentenceWithStrTime, result_type: SubtitleResultType,
    max_words: nat) -> Seq<char> {
    let start = ass_time(sub.start@);
    let end = ass_time(sub.end@);
    let ls = lines(sub.text@);
    let bilingual = result_type == SubtitleResultType::BilingualTranslationOnTop || result_type
        == SubtitleResultType::BilingualTranslationOnBottom;
    if bilingual && ls.len() >= 2 {
        dialogue(start, end, "Major"@, split_line(ls[0], max_words)) + dialogue(
            start,
            end,
            "Minor"@,
            split_line(ls[1], max_words),
        )
    } else if ls.len() >= 1 {
        dialogue(start, end, "Major"@, split_line(ls[0], max_words))
    } else {
        Seq::empty()
    }
}

/// The events of all of `subs`, in order.
pub open spec fn all_events(subs: Seq<SrtSentenceWithStrTime>, result_type: SubtitleResultType,
    max_words: nat) -> Seq<char>
    decreases subs.len(),
{
    if subs.len() == 0 {
        Seq::empty()
    } else {
        all_events(subs.drop_last(), result_type, max_words) + subtitle_events(
            subs.last(),
            result_type,
            max_words,
        )
    }
}

/// Both bilingual layouts put a subtitle's first line in a `Major` event
/// and its second line in a `Minor` event, with the subtitle's times
/// (the styles, not the event order, place the translation on top or at
/// the bottom): the two layouts give the same events, for one subtitle and
/// for a whole document. A single-language layout gives one `Major` event
/// for the first line.
pub proof fn bilingual_layouts_give_two_events(sub: SrtSentenceWithStrTime, max_words: nat)
    ensures
        lines(sub.text@).len() >= 2 ==> subtitle_events(
            sub,
            SubtitleResultType::BilingualTranslationOnBottom,
            max_words,
        ) == dialogue(
            ass_time(sub.start@),
            ass_time(sub.end@),
            "Major"@,
            split_line(lines(sub.text@)[0], max_words),
        ) + dialogue(
            ass_time(sub.start@),
            ass_time(sub.end@),
            "Minor"@,
            split_line(lines(sub.text@)[1], max_words),
        ),
        subtitle_events(sub, SubtitleResultType::BilingualTranslationOnTop, max_words)
            == subtitle_events(sub, SubtitleResultType::BilingualTranslationOnBottom, max_words),
        lines(sub.text@).len() >= 1 ==> subtitle_events(
            sub,
            SubtitleResultType::OriginOnly,
            max_words,
        ) == dialogue(
            ass_time(sub.start@),
            ass_time(sub.end@),
            "Major"@,
            split_line(lines(sub.text@)[0], max_words),
        ),
        subtitle_events(sub, SubtitleResultType::OriginOnly, max_words) == subtitle_events(
            sub,
            SubtitleResultType::TargetOnly,
            max_words,
        ),
{
}

/// A whole document's events are the same for both bilingual layouts.
pub proof fn bilingual_documents_agree(subs: Seq<SrtSentenceWithStrTime>, max_words: nat)
    ensures
        all_events(subs, SubtitleResultType::BilingualTranslationOnTop, max_words) == all_events(
            subs,
            SubtitleResultType::BilingualTranslationOnBottom,
            max_words,
        ),
    decreases subs.len(),
{
    if subs.len() > 0 {
        bilingual_documents_agree(subs.drop_last(), max_words);
        bilingual_layouts_give_two_events(subs.last(), max_words);
    }
}

fn dialogue_line(start: &str, end: &str, style: &str, text: &str) -> (r: String)
    ensures
        r@ == dialogue(start@, end@, style@, text@),
{
    let mut r = cat3("Dialogue: 0,", start, ",");
    r.append(end);
    r.append(",");
    r.append(style);
    r.append(",,0,0,0,,");
    r.append(text);
    r.append("\n");
    r
}

fn events_for(sub: &SrtSentenceWithStrTime, result_type: SubtitleResultType, max_word_one_line:
    usize) -> (r: String)
    ensures
        r@ == subtitle_events(*sub, result_type, max_word_one_line as nat),
{
    let mut content = String::new();
    let start = format_srt_to_ass_time(sub.start.as_str());
    let end = format_srt_to_ass_time(sub.end.as_str());
    let ls = split_lines(sub.text.as_str());
    proof {
        assert(ls@.len() == lines(sub.text@).len());
        if ls@.len() > 0 {
            assert(ls@.map_values(|l: String| l@)[0] == ls@[0]@);
        }
        if ls@.len() > 1 {
            assert(ls@.map_values(|l: String| l@)[1] == ls@[1]@);
        }
    }
    let bilingual = result_type == SubtitleResultType::BilingualTranslationOnTop || result_type
        == SubtitleResultType::BilingualTranslationOnBottom;
    if bilingual && ls.len() >= 2 {
        let major = split_long_text(ls[0].as_str(), max_word_one_line);
        content.append(dialogue_line(start.as_str(), end.as_str(), "Major", major.as_str()).as_str());
        let minor = split_long_text(ls[1].as_str(), max_word_one_line);
        content.append(dialogue_line(start.as_str(), end.as_str(), "Minor", minor.as_str()).as_str());
    } else if ls.len() >= 1 {
        let text = split_long_text(ls[0].as_str(), max_word_one_line);
        content.append(dialogue_line(start.as_str(), end.as_str(), "Major", text.as_str()).as_str());
    }
    content
}

/// The ASS document for `subtitles`: `header` (the styles of the layout),
/// then the dialogue events.
pub fn generate_ass(header: &str, subtitles: &Vec<SrtSentenceWithStrTime>, result_type:
    SubtitleResultType, max_word_one_line: usize) -> (r: String)
    ensures
        r@ == header@ + all_events(subtitles@, result_type, max_word_one_line as nat),
{
    let mut content = owned(header);
    let mut i: usize = 0;
    while i < subtitles.len()
        invariant
            i <= subtitles@.len(),
            content@ == header@ + all_events(
                subtitles@.take(i as int),
                result_type,
                max_word_one_line as nat,
            ),
        decreases subtitles@.len() - i,
    {
        assert(subtitles@.take(i + 1).drop_last() =~= subtitles@.take(i as int));
        content.append(events_for(&subtitles[i], result_type, max_word_one_line).as_str());
        i = i + 1;
    }
    assert(subtitles@.take(subtitles@.len() as int) =~= subtitles@);
    content
}

/// Title events for a vertical video, shown from the start to `end_ts`: the
/// major title, and the minor one when the major one is set.
pub open spec fn title_events(end_ts: Seq<char>, major: Seq<char>, minor: Seq<char>) -> Seq<char> {
    if major.len() == 0 {
        Seq::empty()
    } else {
        dialogue("0:00:00.00"@, end_ts, "Title"@, major) + if minor.len() == 0 {
            Seq::<char>::empty()
        } else {
            dialogue("0:00:00.00"@, end_ts, "SubTitle"@, minor)
        }
    }
}

/// The title overlay events of a vertical video.
pub fn vertical_title_events(end_ts: &str, major: &str, minor: &str) -> (r: String)
    ensures
        r@ == title_events(end_ts@, major@, minor@),
{
    if major.is_empty() {
        return String::new();
    }
    let mut r = dialogue_line("0:00:00.00", end_ts, "Title", major);
    if !minor.is_empty() {
        r.append(dialogue_line("0:00:00.00", end_ts, "SubTitle", minor).as_str());
    }
    r
}

/// The video that gets the subtitles: the dubbed one when it exists, else
/// the input video, else none. `*_exists` tell whether the files are there.
pub fn embed_source(tts_video: &str, tts_exists: bool, input_video: &str, input_exists: bool) -> (r:
    Option<String>)
    ensures
        r matches Some(p) ==> (tts_video@.len() > 0 && tts_exists && p@ == tts_video@) || (!(
        tts_video@.len() > 0 && tts_exists) && input_video@.len() > 0 && input_exists && p@
            == input_video@),
        r is None <==> !(tts_video@.len() > 0 && tts_exists) && !(input_video@.len() > 0
            && input_exists),
{
    if !tts_video.is_empty() && tts_exists {
        Some(owned(tts_video))
    } else if !input_video.is_empty() && input_exists {
        Some(owned(input_video))
    } else {
        None
    }
}

/// Which layouts to produce: (horizontal, vertical).
pub fn embed_layouts(t: EmbedVideoType) -> (r: (bool, bool))
    ensures
        r == (match t {
            EmbedVideoType::NoEmbed => (false, false),
            EmbedVideoType::Horizontal => (true, false),
            EmbedVideoType::Vertical => (false, true),
            EmbedVideoType::All => (true, true),
        }),
{
    match t {
        EmbedVideoType::NoEmbed => (false, false),
        EmbedVideoType::Horizontal => (true, false),
        EmbedVideoType::Vertical => (false, true),
        EmbedVideoType::All => (true, true),
    }
}

/// ffmpeg arguments that burn the subtitles of `ass_path` into `video`.
pub fn burn_args(video: &str, ass_path: &str, output: &str) -> (r: Vec<String>)
    ensures
        r@.map_values(|a: String| a@) == seq!["-y"@, "-i"@, video@, "-vf"@, "ass="@ + ass_path@,
            output@],
{
    let mut r = Vec::new();
    r.push(owned("-y"));
    r.push(owned("-i"));
    r.push(owned(video));
    r.push(owned("-vf"));
    r.push(cat("ass=", ass_path));
    r.push(owned(output));
    assert(r@.map_values(|a: String| a@) =~= seq!["-y"@, "-i"@, video@, "-vf"@, "ass="@ + ass_path@,
        output@]);
    r
}

/// ffmpeg arguments that fit `input` into a 1080x1920 portrait frame.
pub fn vertical_args(input: &str, output: &str) -> (r: Vec<String>)
    ensures
        r@.map_values(|a: String| a@) == seq!["-y"@, "-i"@, input@, "-vf"@,
            "scale=1080:1920:force_original_aspect_ratio=decrease,pad=1080:1920:(ow-iw)/2:(oh-ih)/2"@,
            output@],
{
    let mut r = Vec::new();
    r.push(owned("-y"));
    r.push(owned("-i"));
    r.push(owned(input));
    r.push(owned("-vf"));
    r.push(owned("scale=1080:1920:force_original_aspect_ratio=decrease,pad=1080:1920:(ow-iw)/2:(oh-ih)/2"));
    r.push(owned(output));
    assert(r@.map_values(|a: String| a@) =~= seq!["-y"@, "-i"@, input@, "-vf"@,
        "scale=1080:1920:force_original_aspect_ratio=decrease,pad=1080:1920:(ow-iw)/2:(oh-ih)/2"@,
        output@]);
    r
}


/// The ASS time stamp `H:MM:SS.CC` of a time given in hundredths of a
/// second.
pub open spec fn ass_clock(cs: nat) -> Seq<char> {
    decimal(cs / 360000) + ":"@ + zero_padded((cs % 360000) / 6000, 2) + ":"@ + zero_padded(
        (cs % 6000) / 100,
        2,
    ) + "."@ + zero_padded(cs % 100, 2)
}

/// Format a time in hundredths of a second as an ASS time stamp.
pub fn format_ass_time(total_cs: u64) -> (r: String)
    ensures
        r@ == ass_clock(total_cs as nat),
{
    let h = total_cs / 360000;
    let m = (total_cs % 360000) / 6000;
    let sec = (total_cs % 6000) / 100;
    let cs = total_cs % 100;
    let mut r = u64_to_decimal(h);
    r.append(":");
    r.append(two_digits(m).as_str());
    r.append(":");
    r.append(two_digits(sec).as_str());
    r.append(".");
    r.append(two_digits(cs).as_str());
    r
}

} // verus!
