use vstd::prelude::*;

use crate::audio::{sum_of_squares, sum_sq};

verus! {

/// Whether the block of `block` samples at `pos` holds sound: its root mean
/// square is above 50.
pub open spec fn loud(s: Seq<i16>, pos: int, block: int) -> bool {
    sum_sq(s.subrange(pos, pos + block)) > 2500 * block
}

/// The start of the first loud block, scanning whole blocks from `pos`.
pub open spec fn first_loud(s: Seq<i16>, block: int, pos: int) -> Option<int>
    decreases s.len() - pos,
{
    if block <= 0 || pos < 0 || pos + block > s.len() {
        None
    } else if loud(s, pos, block) {
        Some(pos)
    } else {
        first_loud(s, block, pos + block)
    }
}

/// The start of the last loud block, scanning back from `pos` by whole
/// blocks while a block starts after the first one.
pub open spec fn last_loud(s: Seq<i16>, block: int, pos: int) -> Option<int>
    decreases pos,
{
    if block <= 0 || pos <= block || pos > s.len() {
        None
    } else if loud(s, pos - block, block) {
        Some(pos - block)
    } else {
        last_loud(s, block, pos - block)
    }
}

/// The bounds of the audio kept by `trim_silence`: from 200 ms before the
/// first loud 100 ms block to 200 ms after the last one, within the audio.
/// Audio shorter than one block, or whose bounds would be empty, is kept
/// whole; so is audio without any loud block.
pub open spec fn trim_bounds_spec(s: Seq<i16>, sample_rate: int) -> (int, int) {
    let block = sample_rate / 10;
    let padding = sample_rate / 5;
    let n = s.len() as int;
    if n < block {
        (0, n)
    } else {
        let start0 = match first_loud(s, block, 0) {
            Some(p) => p,
            None => 0,
        };
        let end0 = match last_loud(s, block, n) {
            Some(p) => p + block,
            None => n,
        };
        let start = if start0 >= padding { start0 - padding } else { 0 };
        let end = if end0 + padding <= n { end0 + padding } else { n };
        if start >= end {
            (0, n)
        } else {
            (start, end)
        }
    }
}

fn is_loud(samples: &[i16], pos: usize, block: usize) -> (r: bool)
    requires
        pos + block <= samples@.len(),
    ensures
        r == loud(samples@, pos as int, block as int),
{
    let len = samples.len();
    let part = &samples[pos..pos + block];
    let sum = sum_of_squares(part);
    sum > 2500 * (block as u128)
}

/// Cuts the silence off both ends of the audio, keeping 200 ms of margin,
/// for engines that invent words on silence.
pub fn trim_silence(samples: &[i16], sample_rate: u32) -> (r: &[i16])
    requires
        sample_rate >= 10,
    ensures
        r@ == samples@.subrange(
            trim_bounds_spec(samples@, sample_rate as int).0,
            trim_bounds_spec(samples@, sample_rate as int).1,
        ),
{
    let block = (sample_rate / 10) as usize;
    let padding = (sample_rate / 5) as usize;
    let n = samples.len();
    if n < block {
        assert(samples@.subrange(0, n as int) =~= samples@);
        return samples;
    }
    let mut start: usize = 0;
    let mut pos: usize = 0;
    let mut found = false;
    while block <= n - pos
        invariant_except_break
            !found,
            start == 0,
            first_loud(samples@, block as int, 0) == first_loud(samples@, block as int, pos as int),
        invariant
            block > 0,
            n == samples@.len(),
            pos <= n,
        ensures
            found ==> first_loud(samples@, block as int, 0) == Some(start as int),
            !found ==> first_loud(samples@, block as int, 0) is None && start == 0,
            start <= n,
        decreases n - pos,
    {
        if is_loud(samples, pos, block) {
            start = pos;
            found = true;
            break;
        }
        pos = pos + block;
    }
    let mut end: usize = n;
    let mut found_end = false;
    pos = n;
    while pos > block
        invariant_except_break
            !found_end,
            end == n,
            last_loud(samples@, block as int, n as int) == last_loud(samples@, block as int, pos as int),
        invariant
            block > 0,
            n == samples@.len(),
            n >= block,
            pos <= n,
        ensures
            found_end ==> last_loud(samples@, block as int, n as int) == Some(end - block),
            !found_end ==> last_loud(samples@, block as int, n as int) is None && end == n,
            end <= n,
            end >= block,
        decreases pos,
    {
        pos = pos - block;
        if is_loud(samples, pos, block) {
            end = pos + block;
            found_end = true;
            break;
        }
    }
    assert(block as int == sample_rate as int / 10);
    assert(padding as int == sample_rate as int / 5);
    assert(start as int == (match first_loud(samples@, block as int, 0) {
        Some(p) => p,
        None => 0,
    }));
    assert(end as int == (match last_loud(samples@, block as int, n as int) {
        Some(p) => p + block,
        None => n as int,
    }));
    let start = if start >= padding {
        start - padding
    } else {
        0
    };
    let end = if padding <= n && end <= n - padding {
        end + padding
    } else {
        n
    };
    if start >= end {
        assert(samples@.subrange(0, n as int) =~= samples@);
        return samples;
    }
    &samples[start..end]
}

/// Whether every sample of `s[lo..hi]` has magnitude at most 50.
pub open spec fn quiet_range(s: Seq<i16>, lo: int, hi: int) -> bool {
    forall|j: int| lo <= j < hi ==> -50 <= #[trigger] s[j] <= 50
}

/// Whether every sample of `s[lo..hi]` has magnitude above 50.
pub open spec fn strong_range(s: Seq<i16>, lo: int, hi: int) -> bool {
    forall|j: int| lo <= j < hi ==> (#[trigger] s[j] > 50 || s[j] < -50)
}

proof fn lemma_sum_sq_bounds(t: Seq<i16>)
    ensures
        quiet_range(t, 0, t.len() as int) ==> sum_sq(t) <= 2500 * t.len(),
        strong_range(t, 0, t.len() as int) ==> sum_sq(t) >= 2601 * t.len(),
    decreases t.len(),
{
    if t.len() > 0 {
        let p = t.drop_last();
        lemma_sum_sq_bounds(p);
        let x = t.last();
        if quiet_range(t, 0, t.len() as int) {
            assert(quiet_range(p, 0, p.len() as int)) by {
                assert forall|j: int| 0 <= j < p.len() implies -50 <= #[trigger] p[j] <= 50 by {
                    assert(p[j] == t[j]);
                }
            }
            assert(-50 <= t[t.len() - 1] <= 50);
            assert(x * x <= 2500) by (nonlinear_arith)
                requires
                    -50 <= x <= 50,
            ;
        }
        if strong_range(t, 0, t.len() as int) {
            assert(strong_range(p, 0, p.len() as int)) by {
                assert forall|j: int| 0 <= j < p.len() implies (#[trigger] p[j] > 50 || p[j] < -50) by {
                    assert(p[j] == t[j]);
                }
            }
            assert(t[t.len() - 1] > 50 || t[t.len() - 1] < -50);
            assert(x * x >= 2601) by (nonlinear_arith)
                requires
                    x > 50 || x < -50,
            ;
        }
    }
}

/// The loudness of a block compares its mean square with 50²: a block whose
/// samples all have magnitude at most 50 is never loud, and one whose
/// samples all exceed 50 in magnitude always is.
pub proof fn lemma_loudness_threshold(s: Seq<i16>, pos: int, block: int)
    requires
        0 <= pos,
        0 < block,
        pos + block <= s.len(),
    ensures
        quiet_range(s, pos, pos + block) ==> !loud(s, pos, block),
        strong_range(s, pos, pos + block) ==> loud(s, pos, block),
{
    let t = s.subrange(pos, pos + block);
    if quiet_range(s, pos, pos + block) {
        assert forall|j: int| 0 <= j < t.len() implies -50 <= #[trigger] t[j] <= 50 by {
            assert(t[j] == s[pos + j]);
        }
    }
    if strong_range(s, pos, pos + block) {
        assert forall|j: int| 0 <= j < t.len() implies (#[trigger] t[j] > 50 || t[j] < -50) by {
            assert(t[j] == s[pos + j]);
        }
    }
    lemma_sum_sq_bounds(t);
}

proof fn lemma_first_loud_skips_quiet(s: Seq<i16>, block: int, m: nat)
    requires
        0 < block,
        m * block <= s.len(),
        quiet_range(s, 0, m * block),
    ensures
        first_loud(s, block, 0) == first_loud(s, block, m * block),
    decreases m,
{
    if m == 0 {
        assert(m * block == 0) by (nonlinear_arith)
            requires
                m == 0,
        ;
    } else {
        let k = (m - 1) as nat;
        assert(k * block + block == m * block) by (nonlinear_arith)
            requires
                k == m - 1,
        ;
        assert(0 <= k * block) by (nonlinear_arith)
            requires
                0 < block,
        ;
        lemma_first_loud_skips_quiet(s, block, k);
        assert(quiet_range(s, k * block, k * block + block));
        lemma_loudness_threshold(s, k * block, block);
    }
}

proof fn lemma_last_loud_skips_quiet(s: Seq<i16>, block: int, e: int, m: nat)
    requires
        0 < block,
        block < e,
        e + m * block == s.len(),
        quiet_range(s, e, s.len() as int),
    ensures
        last_loud(s, block, s.len() as int) == last_loud(s, block, e),
    decreases m,
{
    if m == 0 {
        assert(m * block == 0) by (nonlinear_arith)
            requires
                m == 0,
        ;
    } else {
        let k = (m - 1) as nat;
        assert(k * block + block == m * block) by (nonlinear_arith)
            requires
                k == m - 1,
        ;
        assert(0 <= k * block) by (nonlinear_arith)
            requires
                0 < block,
        ;
        let e2 = e + block;
        lemma_last_loud_skips_quiet(s, block, e2, k);
        assert(quiet_range(s, e2 - block, e2));
        lemma_loudness_threshold(s, e2 - block, block);
    }
}

/// Trimming drops quiet ends: when the audio starts with `m` whole 100 ms
/// blocks of samples no louder than 50, then a block of clearly louder
/// samples, and ends (counting whole blocks back from its end) with `k`
/// quiet blocks after a clearly louder one, the audio kept runs from 200 ms
/// before the first loud block to 200 ms after the last, within the audio.
pub proof fn lemma_trim_drops_quiet_ends(s: Seq<i16>, sample_rate: int, m: nat, k: nat)
    requires
        sample_rate >= 10,
        ({
            let block = sample_rate / 10;
            let n = s.len() as int;
            let start = m * block;
            let end = n - k * block;
            &&& start + block <= n
            &&& block < end - block
            &&& start < end
            &&& quiet_range(s, 0, start)
            &&& strong_range(s, start, start + block)
            &&& strong_range(s, end - block, end)
            &&& quiet_range(s, end, n)
        }),
    ensures
        ({
            let block = sample_rate / 10;
            let padding = sample_rate / 5;
            let n = s.len() as int;
            let start = m * block;
            let end = n - k * block;
            trim_bounds_spec(s, sample_rate) == (
                if start >= padding { start - padding } else { 0 },
                if end + padding <= n { end + padding } else { n },
            )
        }),
{
    let block = sample_rate / 10;
    let n = s.len() as int;
    let start = m * block;
    let end = n - k * block;
    assert(0 <= start) by (nonlinear_arith)
        requires
            block > 0,
            start == m * block,
    ;
    lemma_first_loud_skips_quiet(s, block, m);
    lemma_loudness_threshold(s, start, block);
    assert(first_loud(s, block, start) == Some(start));
    lemma_last_loud_skips_quiet(s, block, end, k);
    lemma_loudness_threshold(s, end - block, block);
    assert(last_loud(s, block, end) == Some(end - block));
}

} // verus!
