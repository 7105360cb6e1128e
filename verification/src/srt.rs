//! Reading SRT subtitle files back: blocks separated by blank lines, each a
//! number, a `start --> end` line and one or more lines of text.
use vstd::prelude::*;
use crate::ass::{comma_to_dot, find_char_in, find_first, lines, parse_u32, parse_u32_spec, slice_vec,
    split_lines, SrtSentenceWithStrTime};
use crate::strings::{cat3, zero_pad, zero_padded};
use crate::strings::{chars_of, string_from_chars, trim, trim_str};
use crate::transcript::{block_text, join_lines, joined_lines, srt_document, SrtBlock, SrtSide};
use crate::ass::{lines_scan, strip_cr};
use crate::task::SubtitleResultType;

verus! {

/// The lines of an SRT document grouped into blocks: runs of lines that are
/// not blank, scanned from the left (the finished blocks, and the block
/// still open).
pub open spec fn block_scan(ls: Seq<Seq<char>>) -> (Seq<Seq<Seq<char>>>, Seq<Seq<char>>)
    decreases ls.len(),
{
    if ls.len() == 0 {
        (seq![], seq![])
    } else {
        let (done, cur) = block_scan(ls.drop_last());
        let l = ls.last();
        if trim(l).len() == 0 {
            if cur.len() > 0 {
                (done.push(cur), seq![])
            } else {
                (done, seq![])
            }
        } else {
            (done, cur.push(l))
        }
    }
}

/// The blocks of the lines `ls`: maximal runs of lines that are not blank.
pub open spec fn blocks_of(ls: Seq<Seq<char>>) -> Seq<Seq<Seq<char>>> {
    let (done, cur) = block_scan(ls);
    if cur.len() > 0 {
        done.push(cur)
    } else {
        done
    }
}

/// The index of the first occurrence of `pat` in `s`, if any.
pub open spec fn first_at(s: Seq<char>, pat: Seq<char>) -> Option<nat>
    decreases s.len(),
{
    if s.len() < pat.len() {
        None
    } else if s.take(pat.len() as int) == pat {
        Some(0)
    } else if s.len() == 0 {
        None
    } else {
        match first_at(s.drop_first(), pat) {
            Some(i) => Some(i + 1),
            None => None,
        }
    }
}

/// The entry a block stands for: at least three lines, the second holding
/// ` --> ` between the (trimmed) start and end times; the text is the
/// remaining lines joined by newlines. Other blocks stand for nothing.
pub open spec fn entry_of(b: Seq<Seq<char>>) -> Option<(Seq<char>, Seq<char>, Seq<char>)> {
    if b.len() >= 3 {
        match first_at(b[1], " --> "@) {
            Some(p) => Some(
                (trim(b[1].take(p as int)), trim(b[1].skip(p as int + 5)), joined_lines(b.skip(2))),
            ),
            None => None,
        }
    } else {
        None
    }
}

/// The entries of the blocks `bs`, in order, skipping blocks that stand for
/// none.
pub open spec fn entries_of(bs: Seq<Seq<Seq<char>>>) -> Seq<(Seq<char>, Seq<char>, Seq<char>)>
    decreases bs.len(),
{
    if bs.len() == 0 {
        seq![]
    } else {
        entries_of(bs.drop_last()) + match entry_of(bs.last()) {
            Some(e) => seq![e],
            None => seq![],
        }
    }
}

/// The entries of an SRT document.
pub open spec fn srt_entries(s: Seq<char>) -> Seq<(Seq<char>, Seq<char>, Seq<char>)> {
    entries_of(blocks_of(lines(s)))
}

/// The start, end and text of each entry of `v`.
pub open spec fn entry_views(v: Seq<SrtSentenceWithStrTime>) -> Seq<(Seq<char>, Seq<char>, Seq<char>)> {
    v.map_values(|e: SrtSentenceWithStrTime| (e.start@, e.end@, e.text@))
}

/// `o` moved `i` places to the right.
pub open spec fn shifted(o: Option<nat>, i: nat) -> Option<nat> {
    match o {
        Some(k) => Some(k + i),
        None => None,
    }
}

fn find_seq(s: &Vec<char>, pat: &Vec<char>) -> (r: Option<usize>)
    ensures
        match r {
            Some(i) => first_at(s@, pat@) == Some(i as nat),
            None => first_at(s@, pat@) is None,
        },
{
    let mut i: usize = 0;
    assert(s@.skip(0) =~= s@);
    while i <= s.len()
        invariant
            i <= s@.len(),
            s@.len() == s.len(),
            first_at(s@, pat@) == shifted(first_at(s@.skip(i as int), pat@), i as nat),
        decreases s@.len() - i,
    {
        let ghost rest = s@.skip(i as int);
        if pat.len() > s.len() - i {
            return None;
        }
        if crate::strings::starts_here(s, pat, i) {
            return Some(i);
        }
        assert(rest.len() > 0) by {
            if rest.len() == 0 {
                assert(rest.take(pat@.len() as int) =~= pat@);
            }
        }
        assert(rest.drop_first() =~= s@.skip(i + 1));
        i = i + 1;
    }
    None
}

fn entry_for(block: &Vec<String>) -> (r: Option<SrtSentenceWithStrTime>)
    ensures
        match r {
            Some(e) => entry_of(block@.map_values(|l: String| l@)) == Some(
                (e.start@, e.end@, e.text@),
            ),
            None => entry_of(block@.map_values(|l: String| l@)) is None,
        },
{
    let ghost b = block@.map_values(|l: String| l@);
    if block.len() < 3 {
        return None;
    }
    let line = chars_of(block[1].as_str());
    let arrow = chars_of(" --> ");
    proof {
        reveal_strlit(" --> ");
    }
    assert(b[1] == block@[1]@);
    match find_seq(&line, &arrow) {
        None => None,
        Some(p) => {
            let n = line.len();
            assert(p + 5 <= n) by {
                lemma_first_at_fits(line@, arrow@);
            }
            let a = slice_vec(&line, 0, p);
            let z = slice_vec(&line, p + 5, n);
            assert(a@ =~= b[1].take(p as int));
            assert(z@ =~= b[1].skip(p as int + 5));
            let start = trim_str(string_from_chars(a.as_slice()).as_str());
            let end = trim_str(string_from_chars(z.as_slice()).as_str());
            let mut text_lines: Vec<String> = Vec::new();
            let mut k: usize = 2;
            while k < block.len()
                invariant
                    2 <= k <= block@.len(),
                    b == block@.map_values(|l: String| l@),
                    text_lines@.map_values(|l: String| l@) == b.subrange(2, k as int),
                decreases block@.len() - k,
            {
                let ghost before = text_lines@.map_values(|l: String| l@);
                text_lines.push(crate::strings::owned(block[k].as_str()));
                assert(text_lines@.map_values(|l: String| l@) =~= before.push(b[k as int]));
                assert(b.subrange(2, k + 1) =~= b.subrange(2, k as int).push(b[k as int]));
                k = k + 1;
            }
            assert(b.subrange(2, block@.len() as int) =~= b.skip(2));
            let text = join_lines(&text_lines);
            Some(SrtSentenceWithStrTime { start, end, text })
        },
    }
}

proof fn lemma_first_at_fits(s: Seq<char>, pat: Seq<char>)
    ensures
        first_at(s, pat) matches Some(p) ==> p + pat.len() <= s.len(),
    decreases s.len(),
{
    if s.len() >= pat.len() && s.take(pat.len() as int) != pat && s.len() > 0 {
        lemma_first_at_fits(s.drop_first(), pat);
    }
}

/// The entries of an SRT document, in order: for each block of at least
/// three non-blank lines whose second line holds ` --> `, the trimmed times
/// around it and the remaining lines as text.
pub fn parse_srt(content: &str) -> (r: Vec<SrtSentenceWithStrTime>)
    ensures
        entry_views(r@) == srt_entries(content@),
{
    let ls = split_lines(content);
    let ghost all = ls@.map_values(|l: String| l@);
    let mut out: Vec<SrtSentenceWithStrTime> = Vec::new();
    let mut cur: Vec<String> = Vec::new();
    let mut i: usize = 0;
    while i < ls.len()
        invariant
            i <= ls@.len(),
            all == ls@.map_values(|l: String| l@),
            all == lines(content@),
            ({
                let (done, open) = block_scan(all.take(i as int));
                &&& entry_views(out@) == entries_of(done)
                &&& cur@.map_values(|l: String| l@) == open
            }),
        decreases ls@.len() - i,
    {
        assert(all.take(i + 1).drop_last() =~= all.take(i as int));
        assert(all.take(i + 1).last() == ls@[i as int]@);
        let ghost (done0, open0) = block_scan(all.take(i as int));
        let t = trim_str(ls[i].as_str());
        if t.as_str().is_empty() {
            if cur.len() > 0 {
                let ghost before = entry_views(out@);
                match entry_for(&cur) {
                    Some(e) => out.push(e),
                    None => {},
                }
                assert(entry_views(out@) =~= before + match entry_of(open0) {
                    Some(e) => seq![e],
                    None => seq![],
                });
                assert(done0.push(open0).drop_last() =~= done0);
                cur = Vec::new();
                assert(cur@.map_values(|l: String| l@) =~= Seq::<Seq<char>>::empty());
            } else {
                assert(open0 =~= Seq::<Seq<char>>::empty());
            }
        } else {
            let ghost before = cur@.map_values(|l: String| l@);
            cur.push(crate::strings::owned(ls[i].as_str()));
            assert(cur@.map_values(|l: String| l@) =~= before.push(all[i as int]));
        }
        i = i + 1;
    }
    assert(all.take(ls@.len() as int) =~= all);
    let ghost (done1, open1) = block_scan(all);
    if cur.len() > 0 {
        assert(done1.push(open1).drop_last() =~= done1);
        let ghost before = entry_views(out@);
        match entry_for(&cur) {
            Some(e) => out.push(e),
            None => {},
        }
        assert(entry_views(out@) =~= before + match entry_of(cur@.map_values(|l: String| l@)) {
            Some(e) => seq![e],
            None => seq![],
        });
    }
    out
}


/// The SRT time stamp `HH:MM:SS,mmm` of a time in milliseconds (hours take
/// more digits when needed).
pub open spec fn srt_clock(ms: nat) -> Seq<char> {
    zero_padded(ms / 3600000, 2) + ":"@ + zero_padded((ms / 60000) % 60, 2) + ":"@ + zero_padded(
        (ms / 1000) % 60,
        2,
    ) + ","@ + zero_padded(ms % 1000, 3)
}

/// Format a time in milliseconds as an SRT time stamp.
pub fn format_srt_time(ms: u64) -> (r: String)
    ensures
        r@ == srt_clock(ms as nat),
{
    let mut r = zero_pad(ms / 3600000, 2);
    r.append(":");
    r.append(zero_pad((ms / 60000) % 60, 2).as_str());
    r.append(":");
    r.append(zero_pad((ms / 1000) % 60, 2).as_str());
    r.append(",");
    r.append(zero_pad(ms % 1000, 3).as_str());
    r
}

/// The time line of an SRT block: `start --> end`.
pub fn format_time_range(start_ms: u64, end_ms: u64) -> (r: String)
    ensures
        r@ == srt_clock(start_ms as nat) + " --> "@ + srt_clock(end_ms as nat),
{
    let a = format_srt_time(start_ms);
    let b = format_srt_time(end_ms);
    cat3(a.as_str(), " --> ", b.as_str())
}

/// The time an SRT time stamp stands for, in milliseconds: the trimmed text
/// must be `H:M:S` and a fraction after `,` or `.`, each part a 32-bit
/// number; the fraction counts milliseconds.
pub open spec fn srt_time_ms(s: Seq<char>) -> Option<nat> {
    let t = comma_to_dot(trim(s));
    match find_first(t, ':') {
        None => None,
        Some(a) => {
            let r1 = t.skip(a as int + 1);
            match find_first(r1, ':') {
                None => None,
                Some(b) => {
                    let r2 = r1.skip(b as int + 1);
                    match find_first(r2, '.') {
                        None => None,
                        Some(c) => match (
                            parse_u32_spec(t.take(a as int)),
                            parse_u32_spec(r1.take(b as int)),
                            parse_u32_spec(r2.take(c as int)),
                            parse_u32_spec(r2.skip(c as int + 1)),
                        ) {
                            (Some(h), Some(m), Some(sec), Some(ms)) => Some(
                                (((h * 60 + m) * 60 + sec) * 1000 + ms) as nat,
                            ),
                            _ => None,
                        },
                    }
                },
            }
        },
    }
}

fn parse_part(v: &Vec<char>, from: usize, to: usize) -> (r: Option<u32>)
    requires
        from <= to <= v@.len(),
    ensures
        r == parse_u32_spec(v@.subrange(from as int, to as int)),
{
    let p = slice_vec(v, from, to);
    parse_u32(p.as_slice())
}

/// Read an SRT time stamp as milliseconds (see [`srt_time_ms`]).
pub fn parse_timestamp(s: &str) -> (r: Option<u64>)
    ensures
        match r {
            Some(ms) => srt_time_ms(s@) == Some(ms as nat),
            None => srt_time_ms(s@) is None,
        },
{
    let trimmed = trim_str(s);
    let raw = chars_of(trimmed.as_str());
    let mut t: Vec<char> = Vec::new();
    let mut i: usize = 0;
    while i < raw.len()
        invariant
            i <= raw@.len(),
            raw@ == trim(s@),
            t@ == comma_to_dot(raw@.take(i as int)),
        decreases raw@.len() - i,
    {
        t.push(if raw[i] == ',' { '.' } else { raw[i] });
        i = i + 1;
        assert(t@ =~= comma_to_dot(raw@.take(i as int)));
    }
    assert(raw@.take(raw@.len() as int) =~= raw@);
    let ghost tv = t@;
    let n = t.len();
    let a = match find_char_in(&t, ':') {
        Some(a) => a,
        None => return None,
    };
    let r1 = slice_vec(&t, a + 1, n);
    assert(r1@ =~= tv.skip(a + 1));
    let b = match find_char_in(&r1, ':') {
        Some(b) => b,
        None => return None,
    };
    let m1 = r1.len();
    let r2 = slice_vec(&r1, b + 1, m1);
    assert(r2@ =~= r1@.skip(b + 1));
    let c = match find_char_in(&r2, '.') {
        Some(c) => c,
        None => return None,
    };
    let m2 = r2.len();
    assert(tv.subrange(0, a as int) =~= tv.take(a as int));
    assert(r1@.subrange(0, b as int) =~= r1@.take(b as int));
    assert(r2@.subrange(0, c as int) =~= r2@.take(c as int));
    assert(r2@.subrange(c + 1, m2 as int) =~= r2@.skip(c + 1));
    let h = parse_part(&t, 0, a);
    let m = parse_part(&r1, 0, b);
    let sec = parse_part(&r2, 0, c);
    let ms = parse_part(&r2, c + 1, m2);
    match (h, m, sec, ms) {
        (Some(h), Some(m), Some(sec), Some(ms)) => {
            let total: u64 = ((h as u64 * 60 + m as u64) * 60 + sec as u64) * 1000 + ms as u64;
            Some(total)
        },
        _ => None,
    }
}


/// Leading zeros do not change the value of a run of digits.
proof fn lemma_leading_zeros(k: nat, d: Seq<char>)
    ensures
        crate::ass::digits_value(Seq::new(k, |i: int| '0') + d) == crate::ass::digits_value(d),
    decreases d.len(), k,
{
    let z = Seq::new(k, |i: int| '0');
    if d.len() == 0 {
        assert(z + d =~= z);
        if k > 0 {
            assert(z.drop_last() =~= Seq::new((k - 1) as nat, |i: int| '0'));
            lemma_leading_zeros((k - 1) as nat, d);
            assert(Seq::new((k - 1) as nat, |i: int| '0') + d =~= Seq::new((k - 1) as nat, |i: int| '0'));
            assert(('0' as u32) == 48);
        }
    } else {
        assert((z + d).drop_last() =~= z + d.drop_last());
        lemma_leading_zeros(k, d.drop_last());
    }
}

/// A zero-padded number is a non-empty run of ASCII digits that reads back
/// as the number.
proof fn lemma_padded_reads_back(n: nat, w: nat)
    ensures
        zero_padded(n, w).len() >= 1,
        forall|k: int|
            0 <= k < zero_padded(n, w).len() ==> '0' <= #[trigger] zero_padded(n, w)[k] <= '9',
        crate::ass::digits_value(zero_padded(n, w)) == n,
{
    let d = crate::strings::decimal(n);
    crate::media::lemma_decimal_reads_back(n);
    if d.len() < w {
        let z = Seq::new((w - d.len()) as nat, |i: int| '0');
        lemma_leading_zeros((w - d.len()) as nat, d);
        assert forall|k: int| 0 <= k < (z + d).len() implies '0' <= #[trigger] (z + d)[k] <= '9' by {
            if k >= z.len() {
                assert((z + d)[k] == d[k - z.len()]);
            }
        }
    }
}

/// The value of a time stamp's parts is the time itself.
proof fn lemma_clock_parts(ms: nat)
    ensures
        (((ms / 3600000) * 60 + (ms / 60000) % 60) * 60 + (ms / 1000) % 60) * 1000 + ms % 1000 == ms,
{
    let a = ms / 1000;
    let b = a / 60;
    vstd::arithmetic::div_mod::lemma_fundamental_div_mod(ms as int, 1000);
    vstd::arithmetic::div_mod::lemma_fundamental_div_mod(a as int, 60);
    vstd::arithmetic::div_mod::lemma_fundamental_div_mod(b as int, 60);
    vstd::arithmetic::div_mod::lemma_div_denominator(ms as int, 1000, 60);
    vstd::arithmetic::div_mod::lemma_div_denominator(ms as int, 60000, 60);
    assert(a / 60 == ms / 60000);
    assert(b / 60 == ms / 3600000);
}

/// `x` is a non-empty run of ASCII digits.
pub open spec fn digit_run(x: Seq<char>) -> bool {
    x.len() >= 1 && forall|k: int| 0 <= k < x.len() ==> '0' <= #[trigger] x[k] <= '9'
}

/// A time stamp made of digit runs is its own trimmed text, and reads with
/// `.` in place of `,`.
proof fn lemma_clock_text(zh: Seq<char>, zm: Seq<char>, zs: Seq<char>, zf: Seq<char>)
    requires
        digit_run(zh),
        digit_run(zm),
        digit_run(zs),
        digit_run(zf),
    ensures
        comma_to_dot(trim(zh + ":"@ + zm + ":"@ + zs + ","@ + zf)) == zh + ":"@ + zm + ":"@ + zs
            + "."@ + zf,
{
    reveal_strlit(":");
    reveal_strlit(",");
    reveal_strlit(".");
    let s = zh + ":"@ + zm + ":"@ + zs + ","@ + zf;
    let t = zh + ":"@ + zm + ":"@ + zs + "."@ + zf;
    let ws = crate::strings::TrimSet::Whitespace;
    assert(s[0] == zh[0]);
    crate::strings::lemma_lead_count(s, ws, 0);
    assert(s.skip(0) =~= s);
    assert(s[s.len() - 1] == zf[zf.len() - 1]);
    crate::strings::lemma_trail_count(s, ws, s.len() as int);
    assert(trim(s) =~= s);
    assert forall|i: int| 0 <= i < s.len() implies #[trigger] comma_to_dot(s)[i] == t[i] by {
        let k1 = zh.len() as int;
        let k2 = k1 + 1 + zm.len();
        let k3 = k2 + 1 + zs.len();
        if i < k1 {
            assert(s[i] == zh[i] && t[i] == zh[i]);
        } else if i == k1 {
        } else if i < k2 {
            assert(s[i] == zm[i - k1 - 1] && t[i] == zm[i - k1 - 1]);
        } else if i == k2 {
        } else if i < k3 {
            assert(s[i] == zs[i - k2 - 1] && t[i] == zs[i - k2 - 1]);
        } else if i == k3 {
        } else {
            assert(s[i] == zf[i - k3 - 1] && t[i] == zf[i - k3 - 1]);
        }
    }
    assert(comma_to_dot(s) =~= t);
}

/// Where the separators of a time stamp made of digit runs are found.
proof fn lemma_clock_split(zh: Seq<char>, zm: Seq<char>, zs: Seq<char>, zf: Seq<char>)
    requires
        digit_run(zh),
        digit_run(zm),
        digit_run(zs),
        digit_run(zf),
    ensures
        ({
            let t = zh + ":"@ + zm + ":"@ + zs + "."@ + zf;
            let r1 = t.skip(zh.len() as int + 1);
            let r2 = r1.skip(zm.len() as int + 1);
            &&& find_first(t, ':') == Some(zh.len())
            &&& t.take(zh.len() as int) == zh
            &&& find_first(r1, ':') == Some(zm.len())
            &&& r1.take(zm.len() as int) == zm
            &&& find_first(r2, '.') == Some(zs.len())
            &&& r2.take(zs.len() as int) == zs
            &&& r2.skip(zs.len() as int + 1) == zf
        }),
{
    reveal_strlit(":");
    reveal_strlit(".");
    let t = zh + ":"@ + zm + ":"@ + zs + "."@ + zf;
    let a = zh.len() as int;
    assert forall|i: int| 0 <= i < a implies t[i] != ':' by {
        assert(t[i] == zh[i]);
    }
    crate::ass::lemma_find_first(t, ':', a);
    let r1 = t.skip(a + 1);
    assert(r1 =~= zm + ":"@ + zs + "."@ + zf);
    assert(t.take(a) =~= zh);
    let b = zm.len() as int;
    assert forall|i: int| 0 <= i < b implies r1[i] != ':' by {
        assert(r1[i] == zm[i]);
    }
    crate::ass::lemma_find_first(r1, ':', b);
    let r2 = r1.skip(b + 1);
    assert(r2 =~= zs + "."@ + zf);
    assert(r1.take(b) =~= zm);
    let c = zs.len() as int;
    assert forall|i: int| 0 <= i < c implies r2[i] != '.' by {
        assert(r2[i] == zs[i]);
    }
    crate::ass::lemma_find_first(r2, '.', c);
    assert(r2.take(c) =~= zs);
    assert(r2.skip(c + 1) =~= zf);
}

/// A digit run reads as its value when that fits in 32 bits.
proof fn lemma_run_parses(x: Seq<char>)
    requires
        digit_run(x),
        crate::ass::digits_value(x) <= u32::MAX,
    ensures
        parse_u32_spec(x) == Some(crate::ass::digits_value(x) as u32),
{
    assert(crate::ass::digit_part(x) == x);
}

/// A time written into a subtitle file reads back as the same time (for
/// times whose hours fit in 32 bits).
pub proof fn timestamp_round_trip(ms: u64)
    requires
        ms / 3600000 <= u32::MAX,
    ensures
        srt_time_ms(srt_clock(ms as nat)) == Some(ms as nat),
{
    let n = ms as nat;
    let zh = zero_padded(n / 3600000, 2);
    let zm = zero_padded((n / 60000) % 60, 2);
    let zs = zero_padded((n / 1000) % 60, 2);
    let zf = zero_padded(n % 1000, 3);
    lemma_padded_reads_back(n / 3600000, 2);
    lemma_padded_reads_back((n / 60000) % 60, 2);
    lemma_padded_reads_back((n / 1000) % 60, 2);
    lemma_padded_reads_back(n % 1000, 3);
    lemma_clock_parts(n);
    lemma_clock_text(zh, zm, zs, zf);
    lemma_clock_split(zh, zm, zs, zf);
    lemma_run_parses(zh);
    lemma_run_parses(zm);
    lemma_run_parses(zs);
    lemma_run_parses(zf);
}


/// `l` stands on a line of its own: it holds no line break and does not end
/// with a carriage return.
pub open spec fn plain_line(l: Seq<char>) -> bool {
    &&& forall|k: int| 0 <= k < l.len() ==> #[trigger] l[k] != '\n'
    &&& !(l.len() > 0 && l.last() == '\r')
}

/// The lines `ls`, each followed by a line break.
pub open spec fn with_breaks(ls: Seq<Seq<char>>) -> Seq<char>
    decreases ls.len(),
{
    if ls.len() == 0 {
        seq![]
    } else {
        with_breaks(ls.drop_last()) + ls.last() + "\n"@
    }
}

proof fn lemma_scan_open_line(p: Seq<char>, l: Seq<char>)
    requires
        lines_scan(p).1.len() == 0,
        forall|k: int| 0 <= k < l.len() ==> #[trigger] l[k] != '\n',
    ensures
        lines_scan(p + l) == (lines_scan(p).0, l),
    decreases l.len(),
{
    if l.len() == 0 {
        assert(p + l =~= p);
        assert(lines_scan(p).1 =~= l);
    } else {
        lemma_scan_open_line(p, l.drop_last());
        assert((p + l).drop_last() =~= p + l.drop_last());
        assert((p + l).last() == l.last());
        assert(l.drop_last().push(l.last()) =~= l);
    }
}

/// Lines written one per line break read back as themselves.
proof fn lemma_lines_of_breaks(ls: Seq<Seq<char>>)
    requires
        forall|i: int| 0 <= i < ls.len() ==> plain_line(#[trigger] ls[i]),
    ensures
        lines_scan(with_breaks(ls)) == (ls, Seq::<char>::empty()),
        lines(with_breaks(ls)) == ls,
    decreases ls.len(),
{
    reveal_strlit("\n");
    if ls.len() == 0 {
        assert(lines_scan(Seq::<char>::empty()) == (Seq::<Seq<char>>::empty(), Seq::<char>::empty()));
        assert(ls =~= Seq::<Seq<char>>::empty());
    } else {
        let prev = ls.drop_last();
        let l = ls.last();
        assert forall|i: int| 0 <= i < prev.len() implies plain_line(#[trigger] prev[i]) by {
            assert(prev[i] == ls[i]);
        }
        lemma_lines_of_breaks(prev);
        assert(plain_line(ls[ls.len() - 1]));
        lemma_scan_open_line(with_breaks(prev), l);
        let w = with_breaks(ls);
        assert(w.drop_last() =~= with_breaks(prev) + l);
        assert(w.last() == '\n');
        assert(strip_cr(l) == l);
        assert(prev.push(l) =~= ls);
    }
}


/// The text lines of block `b` in a document of `side`.
pub open spec fn text_lines(b: SrtBlock, side: SrtSide) -> Seq<Seq<char>> {
    match side {
        SrtSide::Bilingual(SubtitleResultType::BilingualTranslationOnTop) => seq![
            b.target_language_sentence@,
            b.origin_language_sentence@,
        ],
        SrtSide::Bilingual(SubtitleResultType::BilingualTranslationOnBottom) => seq![
            b.origin_language_sentence@,
            b.target_language_sentence@,
        ],
        SrtSide::Bilingual(_) => seq![b.origin_language_sentence@],
        SrtSide::Origin => seq![b.origin_language_sentence@],
        SrtSide::Target => seq![b.target_language_sentence@],
    }
}

/// The lines of block `b`: its number, its time range, its text lines.
pub open spec fn block_lines(b: SrtBlock, side: SrtSide) -> Seq<Seq<char>> {
    seq![crate::strings::decimal(b.index as nat), b.timestamp@] + text_lines(b, side)
}

/// The lines of the document of `blocks`: each block's lines, then a blank
/// line.
pub open spec fn doc_lines(blocks: Seq<SrtBlock>, side: SrtSide) -> Seq<Seq<char>>
    decreases blocks.len(),
{
    if blocks.len() == 0 {
        seq![]
    } else {
        doc_lines(blocks.drop_last(), side) + block_lines(blocks.last(), side) + seq![seq![]]
    }
}

proof fn lemma_with_breaks_concat(a: Seq<Seq<char>>, b: Seq<Seq<char>>)
    ensures
        with_breaks(a + b) == with_breaks(a) + with_breaks(b),
    decreases b.len(),
{
    if b.len() == 0 {
        assert(a + b =~= a);
        assert(with_breaks(a) + with_breaks(b) =~= with_breaks(a));
    } else {
        lemma_with_breaks_concat(a, b.drop_last());
        assert((a + b).drop_last() =~= a + b.drop_last());
        assert((a + b).last() == b.last());
        assert(with_breaks(a + b) =~= with_breaks(a) + with_breaks(b));
    }
}

proof fn lemma_breaks_one(l: Seq<char>)
    ensures
        with_breaks(seq![l]) == l + "\n"@,
{
    let s = seq![l];
    assert(s.drop_last() =~= Seq::<Seq<char>>::empty());
    assert(s.last() == l);
    assert(with_breaks(Seq::<Seq<char>>::empty()) =~= Seq::<char>::empty());
    assert(Seq::<char>::empty() + l =~= l);
}

proof fn lemma_breaks_two(l: Seq<char>, m: Seq<char>)
    ensures
        with_breaks(seq![l, m]) == l + "\n"@ + m + "\n"@,
{
    let s = seq![l, m];
    assert(s.drop_last() =~= seq![l]);
    assert(s.last() == m);
    lemma_breaks_one(l);
}

/// The document of `blocks` is its lines, each followed by a line break.
proof fn lemma_document_lines(blocks: Seq<SrtBlock>, side: SrtSide)
    ensures
        srt_document(blocks, side) == with_breaks(doc_lines(blocks, side)),
    decreases blocks.len(),
{
    reveal_strlit("\n");
    reveal_strlit("\n\n");
    if blocks.len() > 0 {
        let b = blocks.last();
        lemma_document_lines(blocks.drop_last(), side);
        let prev = doc_lines(blocks.drop_last(), side);
        let t = text_lines(b, side);
        let d = crate::strings::decimal(b.index as nat);
        let head = seq![d, b.timestamp@];
        lemma_with_breaks_concat(prev, block_lines(b, side) + seq![Seq::<char>::empty()]);
        lemma_with_breaks_concat(block_lines(b, side), seq![Seq::<char>::empty()]);
        lemma_with_breaks_concat(head, t);
        lemma_breaks_two(d, b.timestamp@);
        lemma_breaks_one(Seq::<char>::empty());
        let tb = with_breaks(t);
        if t.len() == 1 {
            lemma_breaks_one(t[0]);
            assert(t =~= seq![t[0]]);
            assert(tb == block_text(b, side) + "\n"@);
        } else {
            lemma_breaks_two(t[0], t[1]);
            assert(t =~= seq![t[0], t[1]]);
            assert(tb =~= block_text(b, side) + "\n"@);
        }
        let nl = "\n"@;
        assert(doc_lines(blocks, side) == prev + block_lines(b, side) + seq![Seq::<char>::empty()]);
        assert(block_lines(b, side) == head + t);
        assert(with_breaks(seq![Seq::<char>::empty()]) =~= nl);
        let wb = with_breaks(block_lines(b, side));
        assert(wb == (d + nl + b.timestamp@ + nl) + tb);
        let tail = block_lines(b, side) + seq![Seq::<char>::empty()];
        assert(doc_lines(blocks, side) =~= prev + tail);
        assert(with_breaks(tail) == wb + nl);
        assert(with_breaks(doc_lines(blocks, side)) == with_breaks(prev) + (wb + nl));
        assert("\n\n"@ =~= nl + nl);
        assert(srt_document(blocks, side) == srt_document(blocks.drop_last(), side) + d + nl
            + b.timestamp@ + nl + block_text(b, side) + "\n\n"@);
        assert(srt_document(blocks, side) =~= with_breaks(doc_lines(blocks, side)));
    }
}

/// A line that reads back as a line of its own and is not blank.
pub open spec fn filled_line(l: Seq<char>) -> bool {
    plain_line(l) && trim(l).len() > 0
}

/// Block `b`, written in a document of `side`, reads back as one entry:
/// its time range and its text lines are filled lines, and the time range
/// holds ` --> `.
pub open spec fn readable_block(b: SrtBlock, side: SrtSide) -> bool {
    &&& filled_line(b.timestamp@)
    &&& first_at(b.timestamp@, " --> "@) is Some
    &&& forall|k: int|
        0 <= k < text_lines(b, side).len() ==> filled_line(#[trigger] text_lines(b, side)[k])
}

/// The entry that block `b` of a document of `side` reads back as.
pub open spec fn block_entry(b: SrtBlock, side: SrtSide) -> (Seq<char>, Seq<char>, Seq<char>) {
    let ts = b.timestamp@;
    let p = first_at(ts, " --> "@).unwrap() as int;
    (trim(ts.take(p)), trim(ts.skip(p + 5)), block_text(b, side))
}

/// A line whose first and last characters are not whitespace is its own
/// trimmed text.
proof fn lemma_solid_trim(l: Seq<char>)
    requires
        l.len() > 0,
        !crate::strings::is_ws(l[0]),
        !crate::strings::is_ws(l.last()),
    ensures
        trim(l) == l,
{
    let ws = crate::strings::TrimSet::Whitespace;
    crate::strings::lemma_lead_count(l, ws, 0);
    assert(l.skip(0) =~= l);
    crate::strings::lemma_trail_count(l, ws, l.len() as int);
    assert(l.take(l.len() as int) =~= l);
}

proof fn lemma_decimal_filled(n: nat)
    ensures
        filled_line(crate::strings::decimal(n)),
{
    let d = crate::strings::decimal(n);
    crate::media::lemma_decimal_reads_back(n);
    assert('0' <= d[0] <= '9');
    assert('0' <= d[d.len() - 1] <= '9');
    lemma_solid_trim(d);
    assert forall|k: int| 0 <= k < d.len() implies #[trigger] d[k] != '\n' by {
        assert('0' <= d[k] <= '9');
    }
}

proof fn lemma_scan_run(ls: Seq<Seq<char>>, g: Seq<Seq<char>>)
    requires
        block_scan(ls).1.len() == 0,
        forall|k: int| 0 <= k < g.len() ==> trim(#[trigger] g[k]).len() > 0,
    ensures
        block_scan(ls + g) == (block_scan(ls).0, g),
    decreases g.len(),
{
    if g.len() == 0 {
        assert(ls + g =~= ls);
        assert(block_scan(ls).1 =~= g);
    } else {
        lemma_scan_run(ls, g.drop_last());
        assert((ls + g).drop_last() =~= ls + g.drop_last());
        assert((ls + g).last() == g.last());
        assert(trim(g[g.len() - 1]).len() > 0);
        assert(g.drop_last().push(g.last()) =~= g);
    }
}

proof fn lemma_block_lines_filled(b: SrtBlock, side: SrtSide)
    requires
        readable_block(b, side),
    ensures
        forall|k: int|
            0 <= k < block_lines(b, side).len() ==> filled_line(#[trigger] block_lines(b, side)[k]),
        block_lines(b, side).len() >= 3,
{
    lemma_decimal_filled(b.index as nat);
    let bl = block_lines(b, side);
    let t = text_lines(b, side);
    assert forall|k: int| 0 <= k < bl.len() implies filled_line(#[trigger] bl[k]) by {
        if k >= 2 {
            assert(bl[k] == t[k - 2]);
        }
    }
}

/// The lines of a document fall into the blocks of its entries.
proof fn lemma_scan_document(blocks: Seq<SrtBlock>, side: SrtSide)
    requires
        forall|i: int| 0 <= i < blocks.len() ==> readable_block(#[trigger] blocks[i], side),
    ensures
        block_scan(doc_lines(blocks, side)) == (
            blocks.map_values(|b: SrtBlock| block_lines(b, side)),
            Seq::<Seq<char>>::empty(),
        ),
        forall|k: int|
            0 <= k < doc_lines(blocks, side).len() ==> plain_line(
                #[trigger] doc_lines(blocks, side)[k],
            ),
    decreases blocks.len(),
{
    if blocks.len() == 0 {
        assert(blocks.map_values(|b: SrtBlock| block_lines(b, side)) =~= Seq::<Seq<Seq<char>>>::empty());
    } else {
        let prev = blocks.drop_last();
        let b = blocks.last();
        assert forall|i: int| 0 <= i < prev.len() implies readable_block(#[trigger] prev[i], side) by {
            assert(prev[i] == blocks[i]);
        }
        lemma_scan_document(prev, side);
        assert(readable_block(blocks[blocks.len() - 1], side));
        lemma_block_lines_filled(b, side);
        let pl = doc_lines(prev, side);
        let bl = block_lines(b, side);
        lemma_scan_run(pl, bl);
        let whole = doc_lines(blocks, side);
        assert(whole == pl + bl + seq![Seq::<char>::empty()]);
        assert(whole.drop_last() =~= pl + bl);
        assert(whole.last() == Seq::<char>::empty());
        assert(trim(Seq::<char>::empty()).len() == 0) by {
            assert(trim(Seq::<char>::empty()).len() <= 0);
        }
        assert(blocks.map_values(|b: SrtBlock| block_lines(b, side)) =~= prev.map_values(
            |b: SrtBlock| block_lines(b, side),
        ).push(bl));
        assert forall|k: int| 0 <= k < whole.len() implies plain_line(#[trigger] whole[k]) by {
            if k < pl.len() {
                assert(whole[k] == pl[k]);
            } else if k < pl.len() + bl.len() {
                assert(whole[k] == bl[k - pl.len()]);
                assert(filled_line(bl[k - pl.len()]));
            } else {
                assert(whole[k] == Seq::<char>::empty());
            }
        }
    }
}

proof fn lemma_entry_of_block(b: SrtBlock, side: SrtSide)
    requires
        readable_block(b, side),
    ensures
        entry_of(block_lines(b, side)) == Some(block_entry(b, side)),
{
    reveal_strlit("\n");
    let bl = block_lines(b, side);
    let t = text_lines(b, side);
    lemma_block_lines_filled(b, side);
    assert(bl[1] == b.timestamp@);
    assert(bl.skip(2) =~= t);
    if t.len() == 1 {
        assert(joined_lines(t) == t[0]);
    } else {
        assert(t.drop_last() =~= seq![t[0]]);
        assert(joined_lines(t.drop_last()) == t[0]);
        assert(joined_lines(t) =~= block_text(b, side));
    }
}

proof fn lemma_entries_of_blocks(blocks: Seq<SrtBlock>, side: SrtSide)
    requires
        forall|i: int| 0 <= i < blocks.len() ==> readable_block(#[trigger] blocks[i], side),
    ensures
        entries_of(blocks.map_values(|b: SrtBlock| block_lines(b, side))) == blocks.map_values(
            |b: SrtBlock| block_entry(b, side),
        ),
    decreases blocks.len(),
{
    let bs = blocks.map_values(|b: SrtBlock| block_lines(b, side));
    if blocks.len() == 0 {
        assert(blocks.map_values(|b: SrtBlock| block_entry(b, side)) =~= Seq::<
            (Seq<char>, Seq<char>, Seq<char>),
        >::empty());
    } else {
        let prev = blocks.drop_last();
        assert forall|i: int| 0 <= i < prev.len() implies readable_block(#[trigger] prev[i], side) by {
            assert(prev[i] == blocks[i]);
        }
        lemma_entries_of_blocks(prev, side);
        assert(readable_block(blocks[blocks.len() - 1], side));
        lemma_entry_of_block(blocks.last(), side);
        assert(bs.drop_last() =~= prev.map_values(|b: SrtBlock| block_lines(b, side)));
        assert(bs.last() == block_lines(blocks.last(), side));
        assert(blocks.map_values(|b: SrtBlock| block_entry(b, side)) =~= prev.map_values(
            |b: SrtBlock| block_entry(b, side),
        ).push(block_entry(blocks.last(), side)));
    }
}

/// Reading back a subtitle document written from `blocks` gives one entry
/// per block, in order: the trimmed times on either side of ` --> ` and
/// the block's text, for blocks whose time range holds ` --> ` and whose
/// time range and text lines are single, non-blank lines.
pub proof fn srt_round_trip(blocks: Seq<SrtBlock>, side: SrtSide)
    requires
        forall|i: int| 0 <= i < blocks.len() ==> readable_block(#[trigger] blocks[i], side),
    ensures
        srt_entries(srt_document(blocks, side)) == blocks.map_values(
            |b: SrtBlock| block_entry(b, side),
        ),
{
    lemma_document_lines(blocks, side);
    lemma_scan_document(blocks, side);
    lemma_lines_of_breaks(doc_lines(blocks, side));
    lemma_entries_of_blocks(blocks, side);
}

/// The characters of an SRT time stamp: digits, `:` and `,`.
proof fn lemma_clock_chars(ms: nat)
    ensures
        srt_clock(ms).len() > 0,
        forall|k: int|
            0 <= k < srt_clock(ms).len() ==> ('0' <= #[trigger] srt_clock(ms)[k] <= '9'
                || srt_clock(ms)[k] == ':' || srt_clock(ms)[k] == ','),
        '0' <= srt_clock(ms)[0] <= '9',
        '0' <= srt_clock(ms).last() <= '9',
{
    reveal_strlit(":");
    reveal_strlit(",");
    let zh = zero_padded(ms / 3600000, 2);
    let zm = zero_padded((ms / 60000) % 60, 2);
    let zs = zero_padded((ms / 1000) % 60, 2);
    let zf = zero_padded(ms % 1000, 3);
    lemma_padded_reads_back(ms / 3600000, 2);
    lemma_padded_reads_back((ms / 60000) % 60, 2);
    lemma_padded_reads_back((ms / 1000) % 60, 2);
    lemma_padded_reads_back(ms % 1000, 3);
    let c = srt_clock(ms);
    let k1 = zh.len() as int;
    let k2 = k1 + 1 + zm.len();
    let k3 = k2 + 1 + zs.len();
    assert(c == zh + ":"@ + zm + ":"@ + zs + ","@ + zf);
    assert forall|k: int| 0 <= k < c.len() implies ('0' <= #[trigger] c[k] <= '9' || c[k] == ':'
        || c[k] == ',') by {
        if k < k1 {
            assert(c[k] == zh[k]);
        } else if k == k1 {
        } else if k < k2 {
            assert(c[k] == zm[k - k1 - 1]);
        } else if k == k2 {
        } else if k < k3 {
            assert(c[k] == zs[k - k2 - 1]);
        } else if k == k3 {
        } else {
            assert(c[k] == zf[k - k3 - 1]);
        }
    }
    assert(c[0] == zh[0]);
    assert(c[c.len() - 1] == zf[zf.len() - 1]);
}

/// In `x --> y` with no space in `x`, the arrow is found right after `x`.
proof fn lemma_arrow_after(x: Seq<char>, y: Seq<char>)
    requires
        forall|k: int| 0 <= k < x.len() ==> #[trigger] x[k] != ' ',
    ensures
        first_at(x + " --> "@ + y, " --> "@) == Some(x.len()),
    decreases x.len(),
{
    reveal_strlit(" --> ");
    let s = x + " --> "@ + y;
    if x.len() == 0 {
        assert(s.take(5) =~= " --> "@);
    } else {
        assert(s.take(5)[0] == x[0]);
        assert(s.take(5) != " --> "@);
        let t = x.drop_first();
        assert(s.drop_first() =~= t + " --> "@ + y);
        lemma_arrow_after(t, y);
    }
}

/// The entry a block whose time range was written from `start` and `end`
/// reads back as: the two time stamps and the block's text.
proof fn lemma_clock_block(b: SrtBlock, side: SrtSide, start: nat, end: nat)
    requires
        b.timestamp@ == srt_clock(start) + " --> "@ + srt_clock(end),
        forall|k: int|
            0 <= k < text_lines(b, side).len() ==> filled_line(#[trigger] text_lines(b, side)[k]),
    ensures
        readable_block(b, side),
        block_entry(b, side) == (srt_clock(start), srt_clock(end), block_text(b, side)),
{
    reveal_strlit(" --> ");
    let x = srt_clock(start);
    let y = srt_clock(end);
    let ts = b.timestamp@;
    lemma_clock_chars(start);
    lemma_clock_chars(end);
    assert forall|k: int| 0 <= k < x.len() implies #[trigger] x[k] != ' ' by {
        assert('0' <= x[k] <= '9' || x[k] == ':' || x[k] == ',');
    }
    lemma_arrow_after(x, y);
    assert(ts.take(x.len() as int) =~= x);
    assert(ts.skip(x.len() as int + 5) =~= y);
    lemma_solid_trim(x);
    lemma_solid_trim(y);
    assert(ts[0] == x[0]);
    assert(ts.last() == y.last());
    lemma_solid_trim(ts);
    assert forall|k: int| 0 <= k < ts.len() implies #[trigger] ts[k] != '\n' by {
        if k < x.len() {
            assert(ts[k] == x[k]);
            assert('0' <= x[k] <= '9' || x[k] == ':' || x[k] == ',');
        } else if k < x.len() + 5 {
            assert(ts[k] == " --> "@[k - x.len()]);
        } else {
            assert(ts[k] == y[k - x.len() - 5]);
            assert('0' <= y[k - x.len() - 5] <= '9' || y[k - x.len() - 5] == ':' || y[k - x.len() - 5] == ',');
        }
    }
}

/// The times written into a subtitle document read back as the same
/// times: where each block's time range is `start --> end` as
/// `format_time_range` writes it and its text lines are single, non-blank
/// lines, reading the document gives one entry per block whose start and
/// end are those time stamps, which stand for `start` and `end` again, and
/// whose text is the block's text.
pub proof fn srt_times_round_trip(
    blocks: Seq<SrtBlock>,
    side: SrtSide,
    starts: Seq<u64>,
    ends: Seq<u64>,
)
    requires
        starts.len() == blocks.len(),
        ends.len() == blocks.len(),
        forall|i: int|
            0 <= i < blocks.len() ==> (#[trigger] blocks[i]).timestamp@ == srt_clock(
                starts[i] as nat,
            ) + " --> "@ + srt_clock(ends[i] as nat),
        forall|i: int, k: int|
            0 <= i < blocks.len() && 0 <= k < text_lines(blocks[i], side).len() ==> filled_line(
                #[trigger] text_lines(blocks[i], side)[k],
            ),
        forall|i: int|
            0 <= i < blocks.len() ==> #[trigger] starts[i] / 3600000 <= u32::MAX && ends[i]
                / 3600000 <= u32::MAX,
    ensures
        srt_entries(srt_document(blocks, side)).len() == blocks.len(),
        forall|i: int|
            0 <= i < blocks.len() ==> {
                let e = #[trigger] srt_entries(srt_document(blocks, side))[i];
                &&& e == (srt_clock(starts[i] as nat), srt_clock(ends[i] as nat), block_text(
                    blocks[i],
                    side,
                ))
                &&& srt_time_ms(e.0) == Some(starts[i] as nat)
                &&& srt_time_ms(e.1) == Some(ends[i] as nat)
            },
{
    assert forall|i: int| 0 <= i < blocks.len() implies readable_block(#[trigger] blocks[i], side) by {
        assert forall|k: int| 0 <= k < text_lines(blocks[i], side).len() implies filled_line(
            #[trigger] text_lines(blocks[i], side)[k],
        ) by {}
        lemma_clock_block(blocks[i], side, starts[i] as nat, ends[i] as nat);
    }
    srt_round_trip(blocks, side);
    assert forall|i: int| 0 <= i < blocks.len() implies {
        let e = #[trigger] srt_entries(srt_document(blocks, side))[i];
        &&& e == (srt_clock(starts[i] as nat), srt_clock(ends[i] as nat), block_text(blocks[i], side))
        &&& srt_time_ms(e.0) == Some(starts[i] as nat)
        &&& srt_time_ms(e.1) == Some(ends[i] as nat)
    } by {
        assert forall|k: int| 0 <= k < text_lines(blocks[i], side).len() implies filled_line(
            #[trigger] text_lines(blocks[i], side)[k],
        ) by {}
        lemma_clock_block(blocks[i], side, starts[i] as nat, ends[i] as nat);
        assert(starts[i] / 3600000 <= u32::MAX);
        timestamp_round_trip(starts[i]);
        timestamp_round_trip(ends[i]);
    }
}

} // verus!
