//! Locating the quietest moment of a stretch of raw audio, where a long
//! recording is best cut into segments.
use vstd::prelude::*;

verus! {

/// The `i`-th signed 16-bit little-endian sample of `bytes`.
pub open spec fn sample(bytes: Seq<u8>, i: int) -> int {
    let v = bytes[2 * i] as int + 256 * (bytes[2 * i + 1] as int);
    if v >= 32768 {
        v - 65536
    } else {
        v
    }
}

/// Sum of the squared samples `j .. j + n`.
pub open spec fn window_energy(bytes: Seq<u8>, j: int, n: nat) -> int
    decreases n,
{
    if n == 0 {
        0
    } else {
        window_energy(bytes, j, (n - 1) as nat) + sample(bytes, j + n - 1) * sample(
            bytes,
            j + n - 1,
        )
    }
}

/// The sample reported for the window that starts at sample `j`: the middle
/// of the first window, and `w / 2` samples before the end of each later one.
pub open spec fn window_pos(j: int, w: nat) -> int {
    if j == 0 {
        (w / 2) as int
    } else {
        j + w - 1 - (w / 2) as int
    }
}

/// `j` starts a window of `w` samples with the least energy of all windows
/// of `count` samples, and no earlier window has as little.
pub open spec fn first_quietest(bytes: Seq<u8>, count: nat, w: nat, j: int) -> bool {
    &&& 0 <= j <= count - w
    &&& forall|k: int|
        0 <= k <= count - w ==> window_energy(bytes, j, w) <= #[trigger] window_energy(bytes, k, w)
    &&& forall|k: int|
        0 <= k < j ==> window_energy(bytes, j, w) < #[trigger] window_energy(bytes, k, w)
}

proof fn lemma_shift(bytes: Seq<u8>, j: int, n: nat)
    ensures
        window_energy(bytes, j + 1, n) + sample(bytes, j) * sample(bytes, j) == window_energy(
            bytes,
            j,
            n,
        ) + sample(bytes, j + n) * sample(bytes, j + n),
    decreases n,
{
    if n > 0 {
        lemma_shift(bytes, j, (n - 1) as nat);
    }
}

proof fn lemma_sample_bounds(bytes: Seq<u8>, i: int)
    requires
        0 <= 2 * i,
        2 * i + 1 < bytes.len(),
    ensures
        -32768 <= sample(bytes, i) < 32768,
        0 <= sample(bytes, i) * sample(bytes, i) <= 0x4000_0000,
{
    let s = sample(bytes, i);
    assert(0 <= s * s <= 0x4000_0000) by (nonlinear_arith)
        requires
            -32768 <= s < 32768,
    ;
}

proof fn lemma_energy_bounds(bytes: Seq<u8>, j: int, n: nat)
    requires
        0 <= j,
        2 * (j + n) <= bytes.len(),
    ensures
        0 <= window_energy(bytes, j, n) <= n * 0x4000_0000,
    decreases n,
{
    if n > 0 {
        lemma_energy_bounds(bytes, j, (n - 1) as nat);
        lemma_sample_bounds(bytes, j + n - 1);
    }
}

fn sample_at(bytes: &[u8], i: usize) -> (s: i128)
    requires
        2 * i + 1 < bytes@.len(),
    ensures
        s == sample(bytes@, i as int),
{
    assert(bytes@.len() == bytes.len());
    let v: i128 = bytes[2 * i] as i128 + 256 * (bytes[2 * i + 1] as i128);
    if v >= 32768 {
        v - 65536
    } else {
        v
    }
}

/// The sample offset of the quietest window of `window` samples in the raw
/// 16-bit little-endian audio `bytes`, or `None` when there are fewer than
/// four bytes or fewer samples than one window.
pub fn quietest_sample(bytes: &[u8], window: usize) -> (r: Option<usize>)
    ensures
        (bytes@.len() < 4 || bytes@.len() / 2 < window) <==> r is None,
        r matches Some(p) ==> exists|j: int|
            first_quietest(bytes@, (bytes@.len() / 2) as nat, window as nat, j) && p == window_pos(
                j,
                window as nat,
            ),
{
    if bytes.len() < 4 {
        return None;
    }
    let count = bytes.len() / 2;
    if count < window {
        return None;
    }
    let ghost b = bytes@;
    let ghost w = window as nat;
    let mut energy: i128 = 0;
    let mut i: usize = 0;
    while i < window
        invariant
            i <= window <= count,
            count == b.len() / 2,
            b == bytes@,
            energy == window_energy(b, 0, i as nat),
            0 <= energy <= i * 0x4000_0000,
        decreases window - i,
    {
        proof {
            lemma_sample_bounds(b, i as int);
        }
        let s = sample_at(bytes, i);
        energy = energy + s * s;
        i = i + 1;
    }
    let mut min_energy: i128 = energy;
    let mut best: usize = 0;
    let mut min_pos: usize = window / 2;
    let mut i: usize = window;
    while i < count
        invariant
            window <= i <= count,
            count == b.len() / 2,
            b == bytes@,
            w == window,
            energy == window_energy(b, i - window, w),
            0 <= energy <= window * 0x4000_0000,
            first_quietest(b, (i - window + window) as nat, w, best as int),
            min_energy == window_energy(b, best as int, w),
            min_pos == window_pos(best as int, w),
        decreases count - i,
    {
        let j = i - window;
        proof {
            lemma_sample_bounds(b, i as int);
            lemma_sample_bounds(b, j as int);
            lemma_shift(b, j as int, w);
            lemma_energy_bounds(b, (j + 1) as int, w);
        }
        let new_s = sample_at(bytes, i);
        let old_s = sample_at(bytes, j);
        energy = energy + new_s * new_s - old_s * old_s;
        if energy < min_energy {
            min_energy = energy;
            best = j + 1;
            min_pos = i - window / 2;
        }
        i = i + 1;
    }
    proof {
        assert(first_quietest(b, count as nat, w, best as int));
    }
    Some(min_pos)
}

} // verus!
