//! Aligning translated sentences with word-level timestamps: the text side.
//! Sentences are looked up, in order, in the concatenated word text; a byte
//! offset of that text is then mapped back to the word that holds it.
use vstd::prelude::*;
use crate::strings::{alphanumeric, char_to_lowercase, chars_of, is_alphanumeric, lowercase,
    string_from_chars};

verus! {

/// `s` reduced for matching: its alphanumeric characters, lowercased.
pub open spec fn match_form(s: Seq<char>) -> Seq<char>
    decreases s.len(),
{
    if s.len() == 0 {
        Seq::empty()
    } else if alphanumeric(s.last()) {
        match_form(s.drop_last()) + lowercase(s.last())
    } else {
        match_form(s.drop_last())
    }
}

/// Remove punctuation and spaces, and lowercase the rest, for fuzzy matching.
pub fn clean_for_match(s: &str) -> (r: String)
    ensures
        r@ == match_form(s@),
{
    let v = chars_of(s);
    let mut out: Vec<char> = Vec::new();
    let mut i: usize = 0;
    while i < v.len()
        invariant
            i <= v@.len(),
            v@ == s@,
            out@ == match_form(v@.take(i as int)),
        decreases v@.len() - i,
    {
        let c = v[i];
        assert(v@.take(i + 1).drop_last() == v@.take(i as int));
        if is_alphanumeric(c) {
            let low = char_to_lowercase(c);
            let mut k: usize = 0;
            let ghost base = out@;
            while k < low.len()
                invariant
                    k <= low@.len(),
                    out@ == base + low@.take(k as int),
                decreases low@.len() - k,
            {
                out.push(low[k]);
                k = k + 1;
                assert(low@.take(k as int) == low@.take(k - 1).push(low@[k - 1]));
            }
            assert(low@.take(low@.len() as int) == low@);
        }
        i = i + 1;
    }
    assert(v@.take(v@.len() as int) == v@);
    string_from_chars(out.as_slice())
}

/// `needle` occurs in `hay` at byte `p`.
pub open spec fn occurs_at(hay: Seq<u8>, needle: Seq<u8>, p: int) -> bool {
    0 <= p && p + needle.len() <= hay.len() && hay.subrange(p, p + needle.len()) == needle
}

/// The first occurrence of `needle` in `hay` at or after byte `from`.
pub open spec fn first_occurrence(hay: Seq<u8>, needle: Seq<u8>, from: int, p: int) -> bool {
    &&& from <= p
    &&& occurs_at(hay, needle, p)
    &&& forall|q: int| from <= q < p ==> !occurs_at(hay, needle, q)
}

fn occurs_here(hay: &[u8], needle: &[u8], p: usize) -> (r: bool)
    requires
        p + needle@.len() <= hay@.len(),
    ensures
        r == occurs_at(hay@, needle@, p as int),
{
    assert(hay@.len() == hay.len() && needle@.len() == needle.len());
    let mut k: usize = 0;
    while k < needle.len()
        invariant
            k <= needle@.len(),
            p + needle@.len() <= hay@.len(),
            hay@.len() == hay.len(),
            needle@.len() == needle.len(),
            forall|m: int| 0 <= m < k ==> hay@[p + m] == needle@[m],
        decreases needle@.len() - k,
    {
        if hay[p + k] != needle[k] {
            assert(hay@.subrange(p as int, p + needle@.len())[k as int] != needle@[k as int]);
            return false;
        }
        k = k + 1;
    }
    assert(hay@.subrange(p as int, p + needle@.len()) =~= needle@);
    true
}

/// The first byte position at or after `from` where `needle` occurs in `hay`.
pub fn find_from(hay: &[u8], needle: &[u8], from: usize) -> (r: Option<usize>)
    ensures
        r matches Some(p) ==> first_occurrence(hay@, needle@, from as int, p as int),
        r is None ==> forall|q: int| from <= q ==> !occurs_at(hay@, needle@, q),
{
    if needle.len() > hay.len() {
        return None;
    }
    assert(hay@.len() == hay.len() && needle@.len() == needle.len());
    let last = hay.len() - needle.len();
    let mut p: usize = from;
    loop
        invariant
            from <= p,
            last == hay@.len() - needle@.len(),
            forall|q: int| from <= q < p ==> !occurs_at(hay@, needle@, q),
        decreases last + 1 - p,
    {
        if p > last {
            return None;
        }
        if occurs_here(hay, needle, p) {
            return Some(p);
        }
        if p == last {
            return None;
        }
        p = p + 1;
    }
}

/// What the aligner does with one sentence.
#[derive(Clone, Copy, PartialEq, Eq, Debug)]
pub enum MatchStep {
    /// The sentence has nothing left after cleaning and gives no block.
    Skipped,
    /// The cleaned sentence was found at bytes `start .. end` of the text.
    Found { start: usize, end: usize },
    /// The cleaned sentence was not found after the current search offset.
    Missing,
}

/// The steps for `needles` when the search starts at byte `from` of `hay`;
/// each found sentence moves the search to the end of its match.
pub open spec fn plan_from(hay: Seq<u8>, needles: Seq<Seq<u8>>, from: int) -> Seq<MatchStep>
    decreases needles.len(),
{
    if needles.len() == 0 {
        Seq::empty()
    } else {
        let n = needles[0];
        if n.len() == 0 {
            seq![MatchStep::Skipped] + plan_from(hay, needles.drop_first(), from)
        } else if exists|p: int| first_occurrence(hay, n, from, p) {
            let p = choose|p: int| first_occurrence(hay, n, from, p);
            seq![MatchStep::Found { start: p as usize, end: (p + n.len()) as usize }] + plan_from(
                hay,
                needles.drop_first(),
                p + n.len(),
            )
        } else {
            seq![MatchStep::Missing] + plan_from(hay, needles.drop_first(), from)
        }
    }
}

proof fn lemma_first_unique(hay: Seq<u8>, n: Seq<u8>, from: int, p: int, q: int)
    requires
        first_occurrence(hay, n, from, p),
        first_occurrence(hay, n, from, q),
    ensures
        p == q,
{
}

/// The match steps for the cleaned sentences `needles` (as UTF-8 bytes) in
/// the cleaned word text `hay`, searching in order from its start.
pub fn plan_matches(hay: &[u8], needles: &Vec<Vec<u8>>) -> (r: Vec<MatchStep>)
    ensures
        r@ == plan_from(hay@, needles@.map_values(|n: Vec<u8>| n@), 0),
{
    let ghost ns = needles@.map_values(|n: Vec<u8>| n@);
    let mut out: Vec<MatchStep> = Vec::new();
    let mut offset: usize = 0;
    let mut i: usize = 0;
    assert(ns.skip(0) =~= ns);
    assert(hay@.len() == hay.len());
    while i < needles.len()
        invariant
            i <= needles@.len(),
            hay@.len() == hay.len(),
            ns == needles@.map_values(|n: Vec<u8>| n@),
            offset <= hay@.len(),
            out@ + plan_from(hay@, ns.skip(i as int), offset as int) == plan_from(hay@, ns, 0),
        decreases needles@.len() - i,
    {
        let n = &needles[i];
        assert(n@.len() == n.len());
        let ghost rest = ns.skip(i as int);
        assert(rest[0] == n@);
        assert(rest.drop_first() == ns.skip(i + 1));
        let ghost before = out@;
        if n.len() == 0 {
            out.push(MatchStep::Skipped);
            assert(before + plan_from(hay@, rest, offset as int) =~= out@ + plan_from(
                hay@,
                ns.skip(i + 1),
                offset as int,
            ));
        } else {
            match find_from(hay, n.as_slice(), offset) {
                Some(p) => {
                    proof {
                        let c = choose|q: int| first_occurrence(hay@, n@, offset as int, q);
                        lemma_first_unique(hay@, n@, offset as int, p as int, c);
                    }
                    out.push(MatchStep::Found { start: p, end: p + n.len() });
                    assert(before + plan_from(hay@, rest, offset as int) =~= out@ + plan_from(
                        hay@,
                        ns.skip(i + 1),
                        (p + n@.len()) as int,
                    ));
                    offset = p + n.len();
                },
                None => {
                    out.push(MatchStep::Missing);
                    assert(before + plan_from(hay@, rest, offset as int) =~= out@ + plan_from(
                        hay@,
                        ns.skip(i + 1),
                        offset as int,
                    ));
                },
            }
        }
        i = i + 1;
    }
    assert(ns.skip(needles@.len() as int) =~= Seq::<Seq<u8>>::empty());
    assert(out@ + Seq::<MatchStep>::empty() =~= out@);
    out
}

/// The sentences are looked up in order and their matches never overlap:
/// there is one step per sentence; a found sentence occurs in the text at
/// its range, at or after the starting offset; an empty sentence is skipped
/// and a sentence that is not empty is found or missing; and each found
/// range starts at or after the end of every earlier found range.
pub proof fn matches_in_order(hay: Seq<u8>, needles: Seq<Seq<u8>>, from: int)
    requires
        0 <= from,
        hay.len() <= usize::MAX,
    ensures
        plan_from(hay, needles, from).len() == needles.len(),
        forall|i: int|
            0 <= i < needles.len() ==> match #[trigger] plan_from(hay, needles, from)[i] {
                MatchStep::Found { start, end } => from <= start && end == start
                    + needles[i].len() && occurs_at(hay, needles[i], start as int),
                MatchStep::Skipped => needles[i].len() == 0,
                MatchStep::Missing => needles[i].len() > 0,
            },
        forall|i: int, j: int|
            0 <= i < j < needles.len() && (#[trigger] plan_from(hay, needles, from)[i]) is Found
                && (#[trigger] plan_from(hay, needles, from)[j]) is Found ==> plan_from(
                hay,
                needles,
                from,
            )[i]->end <= plan_from(hay, needles, from)[j]->start,
    decreases needles.len(),
{
    if needles.len() > 0 {
        let n = needles[0];
        let tail = needles.drop_first();
        let plan = plan_from(hay, needles, from);
        let next: int = if n.len() == 0 {
            from
        } else if exists|p: int| first_occurrence(hay, n, from, p) {
            let p = choose|p: int| first_occurrence(hay, n, from, p);
            p + n.len()
        } else {
            from
        };
        let rest = plan_from(hay, tail, next);
        matches_in_order(hay, tail, next);
        assert(plan == seq![plan[0]] + rest);
        assert(from <= next);
        assert forall|i: int| 1 <= i < needles.len() implies plan[i] == rest[i - 1] && needles[i]
            == tail[i - 1] by {}
        assert(match plan[0] {
            MatchStep::Found { start, end } => from <= start && end == start + needles[0].len()
                && occurs_at(hay, needles[0], start as int) && end == next,
            MatchStep::Skipped => needles[0].len() == 0,
            MatchStep::Missing => needles[0].len() > 0,
        });
        assert forall|i: int|
            0 <= i < needles.len() implies match #[trigger] plan[i] {
                MatchStep::Found { start, end } => from <= start && end == start
                    + needles[i].len() && occurs_at(hay, needles[i], start as int),
                MatchStep::Skipped => needles[i].len() == 0,
                MatchStep::Missing => needles[i].len() > 0,
            } by {
            if i > 0 {
                assert(plan[i] == rest[i - 1]);
                assert(needles[i] == tail[i - 1]);
            }
        }
        assert forall|i: int, j: int|
            0 <= i < j < needles.len() && (#[trigger] plan[i]) is Found && (#[trigger] plan[j]) is Found
                implies plan[i]->end <= plan[j]->start by {
            assert(plan[j] == rest[j - 1]);
            assert(tail[j - 1] == needles[j]);
            assert(next <= rest[j - 1]->start);
            if i > 0 {
                assert(plan[i] == rest[i - 1]);
            } else {
                assert(plan[0]->end == next);
            }
        }
    }
}

/// Sum of the first `k` word lengths.
pub open spec fn prefix_len(lens: Seq<usize>, k: int) -> int
    decreases k,
{
    if k <= 0 {
        0
    } else {
        prefix_len(lens, k - 1) + lens[k - 1] as int
    }
}

/// The word that holds byte `idx` of the words' concatenation, with the
/// offset of `idx` inside it; `None` when `idx` is past the end.
pub fn locate_byte(lens: &[usize], idx: usize) -> (r: Option<(usize, usize)>)
    ensures
        r matches Some((w, off)) ==> {
            &&& w < lens@.len()
            &&& prefix_len(lens@, w as int) <= idx < prefix_len(lens@, w + 1)
            &&& off == idx - prefix_len(lens@, w as int)
        },
        r is None ==> prefix_len(lens@, lens@.len() as int) <= idx,
{
    let mut acc: u128 = 0;
    let mut w: usize = 0;
    while w < lens.len()
        invariant
            w <= lens@.len(),
            acc == prefix_len(lens@, w as int),
            acc <= idx,
        decreases lens@.len() - w,
    {
        let next = acc + lens[w] as u128;
        if next > idx as u128 {
            return Some((w, (idx as u128 - acc) as usize));
        }
        acc = next;
        w = w + 1;
    }
    None
}

} // verus!
