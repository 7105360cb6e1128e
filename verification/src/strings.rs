//! Character-level string helpers shared by the whole library.
use vstd::prelude::*;
use vstd::string::*;

verus! {

/// The characters of `s`, in order.
pub fn chars_of(s: &str) -> (v: Vec<char>)
    ensures
        v@ == s@,
{
    let mut v: Vec<char> = Vec::new();
    for c in it: s.chars()
        invariant
            v@ == it.seq().take(it.index() as int),
            it.seq() == s@,
    {
        v.push(c);
    }
    v
}

/// Appends one character to a `String` (std `String::push`).
#[verifier::external_body]
pub(crate) fn push_char(s: &mut String, c: char)
    ensures
        final(s)@ == old(s)@.push(c),
{
    s.push(c)
}

/// A new `String` holding exactly the given characters.
pub fn string_from_chars(chars: &[char]) -> (s: String)
    ensures
        s@ == chars@,
{
    let mut s = String::new();
    let mut i: usize = 0;
    while i < chars.len()
        invariant
            i <= chars@.len(),
            s@ == chars@.take(i as int),
        decreases chars@.len() - i,
    {
        push_char(&mut s, chars[i]);
        i = i + 1;
        assert(chars@.take(i as int) == chars@.take((i - 1) as int).push(chars@[i - 1]));
    }
    assert(chars@.take(chars@.len() as int) == chars@);
    s
}

/// An owned copy of a string slice.
pub fn owned(s: &str) -> (r: String)
    ensures
        r@ == s@,
{
    s.to_owned()
}

/// `a` followed by `b`.
pub fn cat(a: &str, b: &str) -> (r: String)
    ensures
        r@ == a@ + b@,
{
    let mut r = a.to_owned();
    r.append(b);
    r
}

/// `a`, `b` and `c` one after the other.
pub fn cat3(a: &str, b: &str, c: &str) -> (r: String)
    ensures
        r@ == a@ + b@ + c@,
{
    let mut r = a.to_owned();
    r.append(b);
    r.append(c);
    r
}

/// Whether two string slices hold the same characters.
pub fn str_eq(a: &str, b: &str) -> (r: bool)
    ensures
        r == (a@ == b@),
{
    let x = a.to_owned();
    let y = b.to_owned();
    x == y
}

/// The decimal digit character for `d < 10`.
pub open spec fn digit_char(d: nat) -> char {
    (48 + d) as char
}

/// The decimal representation of `n`, without leading zeros.
pub open spec fn decimal(n: nat) -> Seq<char>
    decreases n,
{
    if n < 10 {
        seq![digit_char(n)]
    } else {
        decimal(n / 10).push(digit_char(n % 10))
    }
}

/// `n` in decimal, padded with leading zeros to at least `width` characters.
pub open spec fn zero_padded(n: nat, width: nat) -> Seq<char> {
    let d = decimal(n);
    if d.len() >= width {
        d
    } else {
        Seq::new((width - d.len()) as nat, |i: int| '0') + d
    }
}

fn digit(d: u64) -> (c: char)
    requires
        d < 10,
    ensures
        c == digit_char(d as nat),
{
    let b: u8 = 48u8 + (d as u8);
    b as char
}

fn decimal_chars(n: u64) -> (v: Vec<char>)
    ensures
        v@ == decimal(n as nat),
    decreases n,
{
    if n < 10 {
        let mut v = Vec::new();
        v.push(digit(n));
        v
    } else {
        let mut v = decimal_chars(n / 10);
        v.push(digit(n % 10));
        v
    }
}

/// `n` written in decimal, as `format!("{n}")` writes it.
pub fn u64_to_decimal(n: u64) -> (s: String)
    ensures
        s@ == decimal(n as nat),
{
    let v = decimal_chars(n);
    string_from_chars(v.as_slice())
}

/// `n` written in decimal, as `format!("{n}")` writes it.
pub fn usize_to_decimal(n: usize) -> (s: String)
    ensures
        s@ == decimal(n as nat),
{
    u64_to_decimal(n as u64)
}

proof fn lemma_decimal_len_small(n: nat)
    requires
        n < 10,
    ensures
        decimal(n).len() == 1,
{
}

proof fn lemma_decimal_len_two(n: nat)
    requires
        10 <= n < 100,
    ensures
        decimal(n).len() == 2,
{
    assert(decimal(n / 10).len() == 1);
}

/// `n < 100` written with two digits, as `format!("{n:02}")` writes it.
pub fn two_digits(n: u64) -> (s: String)
    requires
        n < 100,
    ensures
        s@ == zero_padded(n as nat, 2),
        s@.len() == 2,
{
    if n < 10 {
        proof { lemma_decimal_len_small(n as nat); }
        let mut s = String::new();
        push_char(&mut s, '0');
        push_char(&mut s, digit(n));
        proof {
            assert(s@ =~= Seq::new(1, |i: int| '0') + decimal(n as nat));
        }
        s
    } else {
        proof { lemma_decimal_len_two(n as nat); }
        u64_to_decimal(n)
    }
}

/// The whitespace characters of `char::is_whitespace` (the Unicode
/// `White_Space` property).
pub open spec fn is_ws(c: char) -> bool {
    let u = c as u32;
    ||| u == 0x20
    ||| 0x09 <= u <= 0x0D
    ||| u == 0x85
    ||| u == 0xA0
    ||| u == 0x1680
    ||| 0x2000 <= u <= 0x200A
    ||| u == 0x2028
    ||| u == 0x2029
    ||| u == 0x202F
    ||| u == 0x205F
    ||| u == 0x3000
}

/// `n` in decimal with leading zeros up to `width` characters (`{:0w}`).
pub fn zero_pad(n: u64, width: usize) -> (r: String)
    ensures
        r@ == zero_padded(n as nat, width as nat),
{
    let d = u64_to_decimal(n);
    let v = chars_of(d.as_str());
    if v.len() >= width {
        return d;
    }
    let mut out: Vec<char> = Vec::new();
    let fill = width - v.len();
    let mut k: usize = 0;
    while k < fill
        invariant
            k <= fill,
            out@ == Seq::new(k as nat, |i: int| '0'),
        decreases fill - k,
    {
        out.push('0');
        k = k + 1;
        assert(out@ =~= Seq::new(k as nat, |i: int| '0'));
    }
    let mut m: usize = 0;
    while m < v.len()
        invariant
            m <= v@.len(),
            out@ == Seq::new(fill as nat, |i: int| '0') + v@.take(m as int),
        decreases v@.len() - m,
    {
        out.push(v[m]);
        m = m + 1;
        assert(out@ =~= Seq::new(fill as nat, |i: int| '0') + v@.take(m as int));
    }
    assert(v@.take(v@.len() as int) =~= v@);
    string_from_chars(out.as_slice())
}

/// Whether `c` is whitespace, as `char::is_whitespace` decides.
pub fn is_whitespace(c: char) -> (r: bool)
    ensures
        r == is_ws(c),
{
    let u = c as u32;
    u == 0x20 || (0x09 <= u && u <= 0x0D) || u == 0x85 || u == 0xA0 || u == 0x1680 || (0x2000 <= u
        && u <= 0x200A) || u == 0x2028 || u == 0x2029 || u == 0x202F || u == 0x205F || u == 0x3000
}


/// A set of characters that trimming removes from the ends of a string.
#[derive(Clone, Copy, PartialEq, Eq, Structural)]
pub enum TrimSet {
    /// Unicode whitespace, as `str::trim` removes it.
    Whitespace,
    /// The `'.'` character, as `trim_matches('.')` removes it.
    Dot,
}

impl TrimSet {
    pub open spec fn has(self, c: char) -> bool {
        match self {
            TrimSet::Whitespace => is_ws(c),
            TrimSet::Dot => c == '.',
        }
    }

    /// Whether `c` belongs to the set.
    pub fn contains(&self, c: char) -> (r: bool)
        ensures
            r == self.has(c),
    {
        match self {
            TrimSet::Whitespace => is_whitespace(c),
            TrimSet::Dot => c == '.',
        }
    }
}

/// How many characters at the start of `s` belong to `set`.
pub open spec fn lead_count(s: Seq<char>, set: TrimSet) -> nat
    decreases s.len(),
{
    if s.len() > 0 && set.has(s[0]) {
        1 + lead_count(s.drop_first(), set)
    } else {
        0
    }
}

/// How many characters at the end of `s` belong to `set`.
pub open spec fn trail_count(s: Seq<char>, set: TrimSet) -> nat
    decreases s.len(),
{
    if s.len() > 0 && set.has(s.last()) {
        1 + trail_count(s.drop_last(), set)
    } else {
        0
    }
}

/// `s` without the characters of `set` at its start and at its end.
pub open spec fn trim_by(s: Seq<char>, set: TrimSet) -> Seq<char> {
    let t = s.skip(lead_count(s, set) as int);
    t.take(t.len() - trail_count(t, set))
}

/// `s` without leading and trailing whitespace, as `str::trim` gives it.
pub open spec fn trim(s: Seq<char>) -> Seq<char> {
    trim_by(s, TrimSet::Whitespace)
}

pub proof fn lemma_lead_count(s: Seq<char>, set: TrimSet, i: int)
    requires
        0 <= i <= s.len(),
        forall|k: int| 0 <= k < i ==> set.has(#[trigger] s[k]),
        i < s.len() ==> !set.has(s[i]),
    ensures
        lead_count(s, set) == i,
    decreases i,
{
    if i > 0 {
        let t = s.drop_first();
        assert forall|k: int| 0 <= k < i - 1 implies set.has(#[trigger] t[k]) by {
            assert(t[k] == s[k + 1]);
        }
        lemma_lead_count(t, set, i - 1);
    }
}

pub proof fn lemma_trail_count(s: Seq<char>, set: TrimSet, j: int)
    requires
        0 <= j <= s.len(),
        forall|k: int| j <= k < s.len() ==> set.has(#[trigger] s[k]),
        j > 0 ==> !set.has(s[j - 1]),
    ensures
        trail_count(s, set) == s.len() - j,
    decreases s.len() - j,
{
    if j < s.len() {
        let t = s.drop_last();
        assert forall|k: int| j <= k < t.len() implies set.has(#[trigger] t[k]) by {
            assert(t[k] == s[k]);
        }
        lemma_trail_count(t, set, j);
    }
}

pub proof fn lemma_lead_props(s: Seq<char>, set: TrimSet)
    ensures
        lead_count(s, set) <= s.len(),
        forall|k: int| 0 <= k < lead_count(s, set) ==> set.has(#[trigger] s[k]),
        lead_count(s, set) < s.len() ==> !set.has(s[lead_count(s, set) as int]),
    decreases s.len(),
{
    if s.len() > 0 && set.has(s[0]) {
        let t = s.drop_first();
        lemma_lead_props(t, set);
        assert forall|k: int| 0 <= k < lead_count(s, set) implies set.has(#[trigger] s[k]) by {
            if k > 0 {
                assert(s[k] == t[k - 1]);
            }
        }
    }
}

pub proof fn lemma_trail_props(s: Seq<char>, set: TrimSet)
    ensures
        trail_count(s, set) <= s.len(),
        forall|k: int| s.len() - trail_count(s, set) <= k < s.len() ==> set.has(#[trigger] s[k]),
        trail_count(s, set) < s.len() ==> !set.has(s[s.len() - trail_count(s, set) - 1]),
    decreases s.len(),
{
    if s.len() > 0 && set.has(s.last()) {
        let t = s.drop_last();
        lemma_trail_props(t, set);
        assert forall|k: int| s.len() - trail_count(s, set) <= k < s.len() implies set.has(
            #[trigger] s[k],
        ) by {
            if k < s.len() - 1 {
                assert(s[k] == t[k]);
            }
        }
    }
}

/// The result of trimming starts and ends outside `set`, and `s` is that
/// result with characters of `set` before and after it.
pub proof fn lemma_trim_shape(s: Seq<char>, set: TrimSet)
    ensures
        trim_by(s, set).len() > 0 ==> !set.has(trim_by(s, set)[0]) && !set.has(
            trim_by(s, set).last(),
        ),
        exists|a: int, b: int|
            0 <= a <= b <= s.len() && trim_by(s, set) == s.subrange(a, b) && (forall|k: int|
                0 <= k < a ==> set.has(#[trigger] s[k])) && (forall|k: int|
                b <= k < s.len() ==> set.has(#[trigger] s[k])),
{
    lemma_lead_props(s, set);
    let a = lead_count(s, set) as int;
    let t = s.skip(a);
    lemma_trail_props(t, set);
    let b = a + t.len() - trail_count(t, set);
    let r = trim_by(s, set);
    assert(r =~= s.subrange(a, b));
    assert forall|k: int| b <= k < s.len() implies set.has(#[trigger] s[k]) by {
        assert(s[k] == t[k - a]);
    }
    if r.len() > 0 {
        assert(r[0] == s[a]);
        assert(r.last() == t[t.len() - trail_count(t, set) - 1]);
    }
}

/// The characters of `v` without those of `set` at either end.
pub fn trim_chars(v: &[char], set: TrimSet) -> (r: Vec<char>)
    ensures
        r@ == trim_by(v@, set),
{
    let n = v.len();
    let mut i: usize = 0;
    while i < n && set.contains(v[i])
        invariant
            i <= n,
            n == v@.len(),
            forall|k: int| 0 <= k < i ==> set.has(#[trigger] v@[k]),
        decreases n - i,
    {
        i = i + 1;
    }
    proof {
        lemma_lead_count(v@, set, i as int);
    }
    let mut j: usize = n;
    while j > i && set.contains(v[j - 1])
        invariant
            i <= j <= n,
            n == v@.len(),
            forall|k: int| j <= k < n ==> set.has(#[trigger] v@[k]),
        decreases j,
    {
        j = j - 1;
    }
    let ghost t = v@.skip(i as int);
    proof {
        assert forall|k: int| j - i <= k < t.len() implies set.has(#[trigger] t[k]) by {
            assert(t[k] == v@[k + i]);
        }
        if j > i {
            assert(t[j - i - 1] == v@[j - 1]);
        }
        lemma_trail_count(t, set, j - i);
    }
    let mut r: Vec<char> = Vec::new();
    let mut k: usize = i;
    while k < j
        invariant
            i <= k <= j <= n,
            n == v@.len(),
            r@ == v@.subrange(i as int, k as int),
        decreases j - k,
    {
        r.push(v[k]);
        k = k + 1;
    }
    assert(r@ =~= t.take(t.len() - trail_count(t, set)));
    r
}

/// `s` without leading and trailing whitespace (`str::trim`).
pub fn trim_str(s: &str) -> (r: String)
    ensures
        r@ == trim(s@),
{
    let v = chars_of(s);
    let t = trim_chars(v.as_slice(), TrimSet::Whitespace);
    string_from_chars(t.as_slice())
}

/// Whether `c` is an ASCII letter or digit.
pub open spec fn ascii_alnum(c: char) -> bool {
    ('a' <= c <= 'z') || ('A' <= c <= 'Z') || ('0' <= c <= '9')
}

/// The ASCII lowercase form of `c` (other characters are left alone).
pub open spec fn ascii_lower(c: char) -> char {
    if 'A' <= c <= 'Z' {
        ((c as u32) + 32) as char
    } else {
        c
    }
}

/// What `char::is_alphanumeric` answers for `c`.
pub uninterp spec fn alphanumeric(c: char) -> bool;

/// std `char::is_alphanumeric`. Claimed: the answer is a function of `c`
/// alone, and on ASCII it holds exactly of letters and digits.
#[verifier::external_body]
pub(crate) fn is_alphanumeric(c: char) -> (r: bool)
    ensures
        r == alphanumeric(c),
        (c as u32) < 128 ==> (r <==> ascii_alnum(c)),
{
    c.is_alphanumeric()
}

/// The characters that `char::to_lowercase` yields for `c`.
pub uninterp spec fn lowercase(c: char) -> Seq<char>;

/// std `char::to_lowercase`, collected. Claimed: the result is a function
/// of `c` alone, and an ASCII character maps to its ASCII lowercase form.
#[verifier::external_body]
pub(crate) fn char_to_lowercase(c: char) -> (r: Vec<char>)
    ensures
        r@ == lowercase(c),
        (c as u32) < 128 ==> r@ == seq![ascii_lower(c)],
{
    c.to_lowercase().collect()
}

/// What `str::to_lowercase` gives for `s`.
pub uninterp spec fn lowercase_str(s: Seq<char>) -> Seq<char>;

/// Whether every character of `s` is ASCII.
pub open spec fn all_ascii(s: Seq<char>) -> bool {
    forall|i: int| 0 <= i < s.len() ==> (#[trigger] s[i] as u32) < 128
}

/// std `str::to_lowercase`. Claimed: the result is a function of `s`
/// alone, and an ASCII string maps character by character to ASCII lowercase.
#[verifier::external_body]
pub(crate) fn str_to_lowercase(s: &str) -> (r: String)
    ensures
        r@ == lowercase_str(s@),
        all_ascii(s@) ==> r@ == s@.map_values(|c: char| ascii_lower(c)),
{
    s.to_lowercase()
}


/// `u` holds `w` starting at index `p`.
pub open spec fn occurs_in_at(u: Seq<char>, w: Seq<char>, p: int) -> bool {
    0 <= p && p + w.len() <= u.len() && u.subrange(p, p + w.len()) == w
}

/// `w` occurs somewhere in `u`.
pub open spec fn contains_seq(u: Seq<char>, w: Seq<char>) -> bool {
    exists|p: int| occurs_in_at(u, w, p)
}

/// Whether `w` occurs in `s` (`str::contains` with a string pattern).
pub fn contains_str(s: &str, w: &str) -> (r: bool)
    ensures
        r == contains_seq(s@, w@),
{
    let u = chars_of(s);
    let v = chars_of(w);
    if v.len() > u.len() {
        assert forall|p: int| !occurs_in_at(s@, w@, p) by {}
        return false;
    }
    let last = u.len() - v.len();
    let mut p: usize = 0;
    loop
        invariant
            u@ == s@,
            v@ == w@,
            u@.len() == u.len(),
            v@.len() == v.len(),
            p <= last,
            last == u@.len() - v@.len(),
            forall|q: int| 0 <= q < p ==> !occurs_in_at(s@, w@, q),
        decreases last - p,
    {
        let mut k: usize = 0;
        let mut same = true;
        while k < v.len()
            invariant
                k <= v@.len(),
                p <= last,
                last == u@.len() - v@.len(),
                u@.len() == u.len(),
                v@.len() == v.len(),
                same ==> forall|m: int| 0 <= m < k ==> u@[p + m] == v@[m],
                !same ==> !occurs_in_at(u@, v@, p as int),
            decreases v@.len() - k,
        {
            if u[p + k] != v[k] {
                if same {
                    assert(u@.subrange(p as int, p + v@.len())[k as int] != v@[k as int]);
                }
                same = false;
            }
            k = k + 1;
        }
        if same {
            assert(u@.subrange(p as int, p + v@.len()) =~= v@);
            assert(occurs_in_at(s@, w@, p as int));
            return true;
        }
        if p == last {
            assert forall|q: int| !occurs_in_at(s@, w@, q) by {
                if 0 <= q && q + w@.len() <= s@.len() {
                    assert(q <= last);
                }
            }
            return false;
        }
        p = p + 1;
    }
}

/// `n` copies of `c`.
pub open spec fn repeat(c: char, n: nat) -> Seq<char> {
    Seq::new(n, |i: int| c)
}

/// A string of `n` copies of `c` (`str::repeat` on a one-character string).
pub fn repeat_char(c: char, n: usize) -> (r: String)
    ensures
        r@ == repeat(c, n as nat),
{
    let mut r = String::new();
    let mut i: usize = 0;
    while i < n
        invariant
            i <= n,
            r@ == repeat(c, i as nat),
        decreases n - i,
    {
        push_char(&mut r, c);
        i = i + 1;
        assert(r@ =~= repeat(c, i as nat));
    }
    r
}


/// `s` with every non-overlapping occurrence of `f`, taken from the left,
/// replaced by `t`; an empty `f` matches before every character and at the
/// end (what `str::replace` gives).
pub open spec fn replaced(s: Seq<char>, f: Seq<char>, t: Seq<char>) -> Seq<char>
    decreases s.len(),
{
    if f.len() == 0 {
        if s.len() == 0 {
            t
        } else {
            t + seq![s[0]] + replaced(s.drop_first(), f, t)
        }
    } else if s.len() == 0 {
        Seq::empty()
    } else if f.len() <= s.len() && s.take(f.len() as int) == f {
        t + replaced(s.skip(f.len() as int), f, t)
    } else {
        seq![s[0]] + replaced(s.drop_first(), f, t)
    }
}

pub(crate) fn starts_here(s: &Vec<char>, f: &Vec<char>, i: usize) -> (r: bool)
    requires
        i <= s@.len(),
    ensures
        r == (f@.len() <= s@.len() - i && s@.skip(i as int).take(f@.len() as int) == f@),
{
    if f.len() > s.len() - i {
        return false;
    }
    let mut k: usize = 0;
    while k < f.len()
        invariant
            k <= f@.len(),
            i + f@.len() <= s@.len(),
            s@.len() == s.len(),
            f@.len() == f.len(),
            forall|m: int| 0 <= m < k ==> s@[i + m] == f@[m],
        decreases f@.len() - k,
    {
        if s[i + k] != f[k] {
            assert(s@.skip(i as int).take(f@.len() as int)[k as int] != f@[k as int]);
            return false;
        }
        k = k + 1;
    }
    assert(s@.skip(i as int).take(f@.len() as int) =~= f@);
    true
}

fn push_all(out: &mut Vec<char>, t: &Vec<char>)
    ensures
        final(out)@ == old(out)@ + t@,
{
    let mut k: usize = 0;
    while k < t.len()
        invariant
            k <= t@.len(),
            out@ == old(out)@ + t@.take(k as int),
        decreases t@.len() - k,
    {
        out.push(t[k]);
        k = k + 1;
        assert(t@.take(k as int) =~= t@.take(k - 1).push(t@[k - 1]));
    }
    assert(t@.take(t@.len() as int) =~= t@);
}

/// `s` with every occurrence of `from` replaced by `to` (`str::replace`).
pub fn replace_str(s: &str, from: &str, to: &str) -> (r: String)
    ensures
        r@ == replaced(s@, from@, to@),
{
    let sv = chars_of(s);
    let fv = chars_of(from);
    let tv = chars_of(to);
    let mut out: Vec<char> = Vec::new();
    let mut i: usize = 0;
    assert(sv@.skip(0) =~= sv@);
    while i < sv.len()
        invariant
            i <= sv@.len(),
            sv@ == s@,
            fv@ == from@,
            tv@ == to@,
            out@ + replaced(sv@.skip(i as int), fv@, tv@) == replaced(s@, from@, to@),
        decreases sv@.len() - i,
    {
        let ghost rest = sv@.skip(i as int);
        if fv.len() == 0 {
            assert(rest.drop_first() =~= sv@.skip(i + 1));
            let ghost before = out@;
            push_all(&mut out, &tv);
            out.push(sv[i]);
            assert(before + replaced(rest, fv@, tv@) =~= out@ + replaced(sv@.skip(i + 1), fv@, tv@));
            i = i + 1;
        } else if starts_here(&sv, &fv, i) {
            assert(rest.skip(fv@.len() as int) =~= sv@.skip(i + fv@.len()));
            let ghost before = out@;
            push_all(&mut out, &tv);
            assert(before + replaced(rest, fv@, tv@) =~= out@ + replaced(
                sv@.skip(i + fv@.len()),
                fv@,
                tv@,
            ));
            i = i + fv.len();
        } else {
            assert(rest.drop_first() =~= sv@.skip(i + 1));
            let ghost before = out@;
            out.push(sv[i]);
            assert(before + replaced(rest, fv@, tv@) =~= out@ + replaced(sv@.skip(i + 1), fv@, tv@));
            i = i + 1;
        }
    }
    let ghost before = out@;
    if fv.len() == 0 {
        push_all(&mut out, &tv);
    }
    assert(sv@.skip(i as int) =~= Seq::<char>::empty());
    assert(out@ =~= replaced(s@, from@, to@));
    string_from_chars(out.as_slice())
}

} // verus!
