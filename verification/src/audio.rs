use vstd::prelude::*;

use crate::text::{
    chars_of, lines, lines_vec, strip_prefix, strip_prefix_vec, string_of, trim, trim_by, trim_start_by,
    trim_start_vec, trim_vec, vviews, CharClass,
};

verus! {

/// The description in one line of `wpctl inspect`, `  * node.description
/// = "Name"` (the `*` may be missing): the value after the key, the `=` and
/// the quotes; none for another line or an empty value.
pub open spec fn description_in(line: Seq<char>) -> Option<Seq<char>> {
    let trimmed = trim_start_by(line, CharClass::OneOf('*', ' ', '\t'));
    match strip_prefix(trimmed, "node.description"@) {
        Some(rest) => {
            let value = trim_by(trim(trim_start_by(trim(rest), CharClass::Is('='))), CharClass::Is('"'));
            if value.len() > 0 {
                Some(value)
            } else {
                None
            }
        },
        None => None,
    }
}

/// The first description among the lines.
pub open spec fn first_description(ls: Seq<Seq<char>>) -> Option<Seq<char>>
    decreases ls.len(),
{
    if ls.len() == 0 {
        None
    } else {
        match description_in(ls[0]) {
            Some(v) => Some(v),
            None => first_description(ls.drop_first()),
        }
    }
}

fn line_description(line: &Vec<char>) -> (r: Option<Vec<char>>)
    ensures
        match r {
            Some(v) => description_in(line@) == Some(v@),
            None => description_in(line@) is None,
        },
{
    let trimmed = trim_start_vec(line, &CharClass::OneOf('*', ' ', '\t'));
    let key = chars_of("node.description");
    match strip_prefix_vec(&trimmed, &key) {
        Some(rest) => {
            let a = trim_vec(&rest, &CharClass::Whitespace);
            let b = trim_start_vec(&a, &CharClass::Is('='));
            let c = trim_vec(&b, &CharClass::Whitespace);
            let value = trim_vec(&c, &CharClass::Is('"'));
            if value.len() > 0 {
                Some(value)
            } else {
                None
            }
        },
        None => None,
    }
}

/// The name of the default microphone in the output of `wpctl inspect
/// @DEFAULT_AUDIO_SOURCE@`: the first non-empty `node.description`.
pub fn wpctl_description(output: &str) -> (r: Option<String>)
    ensures
        crate::updater::oview(r) == first_description(lines(output@)),
{
    let text = chars_of(output);
    let ls = lines_vec(&text);
    let ghost all = vviews(ls@);
    let mut i: usize = 0;
    assert(all.skip(0) =~= all);
    while i < ls.len()
        invariant
            i <= ls.len(),
            all == vviews(ls@),
            all == lines(output@),
            first_description(all) == first_description(all.skip(i as int)),
        decreases ls.len() - i,
    {
        assert(all.skip(i as int)[0] == ls@[i as int]@);
        assert(all.skip(i as int).drop_first() =~= all.skip(i + 1));
        if let Some(v) = line_description(&ls[i]) {
            return Some(string_of(&v));
        }
        i = i + 1;
    }
    assert(all.skip(ls.len() as int).len() == 0);
    None
}

/// Commands that steer a recording.
#[derive(Debug, Clone, Copy, PartialEq, Eq, Structural)]
pub enum AudioCommand {
    /// Stop recording and hand over the result.
    Stop,
    /// Pause, or resume a paused recording.
    TogglePause,
}

/// What a recording produced.
#[derive(Debug, Clone)]
pub struct RecordResult {
    /// The recognised text.
    pub text: String,
    /// Where the raw audio was cached.
    pub audio_path: String,
    /// Length of the recording in seconds.
    pub duration_secs: u32,
}

/// The sum of the squares of the samples.
pub open spec fn sum_sq(s: Seq<i16>) -> int
    decreases s.len(),
{
    if s.len() == 0 {
        0
    } else {
        sum_sq(s.drop_last()) + s.last() * s.last()
    }
}

/// Whether the level `k` (0..=100) is reached by a signal with this sum of
/// squares over `n` samples: its root mean square is at least `30 * k`,
/// the full scale of 100 being a root mean square of 3000.
pub open spec fn level_reached(k: int, sum: int, n: int) -> bool {
    900 * k * k * n <= sum
}

proof fn lemma_sum_sq_bounds(s: Seq<i16>)
    ensures
        0 <= sum_sq(s) <= s.len() * 1073741824,
    decreases s.len(),
{
    if s.len() > 0 {
        lemma_sum_sq_bounds(s.drop_last());
        let x = s.last() as int;
        assert(0 <= x * x <= 1073741824) by (nonlinear_arith)
            requires
                -32768 <= x <= 32767,
        ;
    }
}

/// The sum of squares of the samples, exactly.
pub(crate) fn sum_of_squares(data: &[i16]) -> (r: u128)
    ensures
        r == sum_sq(data@),
{
    let mut sum: u128 = 0;
    let mut i: usize = 0;
    while i < data.len()
        invariant
            i <= data.len(),
            sum == sum_sq(data@.take(i as int)),
            sum <= i * 1073741824,
        decreases data.len() - i,
    {
        let x = data[i] as i64;
        assert(0 <= x * x <= 1073741824) by (nonlinear_arith)
            requires
                -32768 <= x <= 32767,
        ;
        let sq = (x * x) as u128;
        assert(data@.take(i + 1).drop_last() =~= data@.take(i as int));
        sum = sum + sq;
        i = i + 1;
    }
    assert(data@.take(data@.len() as int) =~= data@);
    sum
}

/// The volume level of a block of samples, 0..=100, and whether it holds a
/// live signal (a root mean square above 10). An empty block is silent.
pub fn compute_rms_level(data: &[i16]) -> (r: (u32, bool))
    ensures
        data@.len() == 0 ==> r == (0u32, false),
        data@.len() > 0 ==> {
            &&& r.0 <= 100
            &&& level_reached(r.0 as int, sum_sq(data@), data@.len() as int)
            &&& (r.0 < 100 ==> !level_reached(r.0 + 1, sum_sq(data@), data@.len() as int))
            &&& r.1 == (sum_sq(data@) > 100 * data@.len())
        },
{
    if data.len() == 0 {
        return (0, false);
    }
    let sum = sum_of_squares(data);
    let n = data.len() as u128;
    let mut k: u128 = 0;
    proof {
        lemma_sum_sq_bounds(data@);
        assert(900 * 0 * 0 * n == 0) by (nonlinear_arith);
    }
    loop
        invariant
            k <= 100,
            n == data@.len(),
            n > 0,
            n <= 0xffff_ffff_ffff_ffffu128,
            sum == sum_sq(data@),
            level_reached(k as int, sum as int, n as int),
        ensures
            k <= 100,
            level_reached(k as int, sum as int, n as int),
            k < 100 ==> !level_reached(k + 1, sum as int, n as int),
        decreases 100 - k,
    {
        if k == 100 {
            break;
        }
        let k1 = k + 1;
        assert(900 * k1 * k1 <= 9000000) by (nonlinear_arith)
            requires
                k1 <= 100,
        ;
        let a = 900 * k1 * k1;
        assert(a * n <= 9000000 * 0xffff_ffff_ffff_ffffu128) by (nonlinear_arith)
            requires
                a <= 9000000,
                n <= 0xffff_ffff_ffff_ffffu128,
        ;
        let need = a * n;
        if need > sum {
            break;
        }
        k = k1;
    }
    let voiced = sum > 100 * n;
    (k as u32, voiced)
}

/// Why a recording stops on its own.
#[derive(Debug, Clone, Copy, PartialEq, Eq, Structural)]
pub enum StopReason {
    /// Speech was heard and silence has lasted the voice-activity timeout.
    Vad,
    /// The overall silence timeout has passed.
    Timeout,
}

/// The automatic stop decision. Times are in nanoseconds: since the last
/// speech, the voice-activity timeout, since the text last grew, and the
/// overall timeout. Voice activity is checked first.
pub fn should_stop_on_silence(
    vad_enabled: bool,
    speech_detected: bool,
    since_last_speech: u128,
    vad_timeout: u128,
    since_last_growth: u128,
    silence_timeout: u128,
) -> (r: Option<StopReason>)
    ensures
        r == (if vad_enabled && speech_detected && since_last_speech >= vad_timeout {
            Some(StopReason::Vad)
        } else if since_last_growth >= silence_timeout {
            Some(StopReason::Timeout)
        } else {
            None
        }),
{
    if vad_enabled && speech_detected && since_last_speech >= vad_timeout {
        return Some(StopReason::Vad);
    }
    if since_last_growth >= silence_timeout {
        return Some(StopReason::Timeout);
    }
    None
}

/// The little-endian bytes of a 16-bit sample.
pub open spec fn le_bytes(x: i16) -> Seq<u8> {
    let u = if x < 0 { x + 65536 } else { x as int };
    seq![(u % 256) as u8, (u / 256) as u8]
}

/// The raw cache format: each sample as two little-endian bytes, in order.
pub open spec fn pcm_bytes(s: Seq<i16>) -> Seq<u8>
    decreases s.len(),
{
    if s.len() == 0 {
        Seq::empty()
    } else {
        pcm_bytes(s.drop_last()) + le_bytes(s.last())
    }
}

/// The sample held by two little-endian bytes.
pub open spec fn sample_of(lo: u8, hi: u8) -> i16 {
    let u = hi * 256 + lo;
    if u >= 32768 { (u - 65536) as i16 } else { u as i16 }
}

/// Samples read back from raw bytes: each complete pair of bytes is one
/// sample; a trailing odd byte is ignored.
pub open spec fn pcm_samples(b: Seq<u8>) -> Seq<i16>
    decreases b.len(),
{
    if b.len() < 2 {
        Seq::empty()
    } else {
        seq![sample_of(b[0], b[1])] + pcm_samples(b.subrange(2, b.len() as int))
    }
}

fn sample_le_bytes(x: i16) -> (r: (u8, u8))
    ensures
        seq![r.0, r.1] == le_bytes(x),
{
    let u: u32 = if x < 0 { (x as i32 + 65536) as u32 } else { x as u32 };
    ((u % 256) as u8, (u / 256) as u8)
}

/// Encodes samples in the raw cache format.
pub fn pcm_to_le_bytes(samples: &[i16]) -> (r: Vec<u8>)
    ensures
        r@ == pcm_bytes(samples@),
{
    let mut r: Vec<u8> = Vec::new();
    let mut i: usize = 0;
    while i < samples.len()
        invariant
            i <= samples.len(),
            r@ == pcm_bytes(samples@.take(i as int)),
        decreases samples.len() - i,
    {
        let (lo, hi) = sample_le_bytes(samples[i]);
        assert(samples@.take(i + 1).drop_last() =~= samples@.take(i as int));
        r.push(lo);
        r.push(hi);
        i = i + 1;
    }
    assert(samples@.take(samples@.len() as int) =~= samples@);
    r
}

/// Decodes raw cache bytes into samples.
pub fn pcm_from_le_bytes(bytes: &[u8]) -> (r: Vec<i16>)
    ensures
        r@ == pcm_samples(bytes@),
{
    let mut r: Vec<i16> = Vec::new();
    let mut i: usize = 0;
    assert(bytes@.subrange(0, bytes@.len() as int) =~= bytes@);
    assert(r@ + pcm_samples(bytes@) =~= pcm_samples(bytes@));
    while i + 1 < bytes.len()
        invariant
            i <= bytes.len(),
            i % 2 == 0,
            r@ + pcm_samples(bytes@.subrange(i as int, bytes@.len() as int)) == pcm_samples(bytes@),
        decreases bytes.len() - i,
    {
        let lo = bytes[i];
        let hi = bytes[i + 1];
        let u: u32 = hi as u32 * 256 + lo as u32;
        let x: i16 = if u >= 32768 { (u as i32 - 65536) as i16 } else { u as i16 };
        proof {
            let rest = bytes@.subrange(i as int, bytes@.len() as int);
            assert(rest.subrange(2, rest.len() as int) =~= bytes@.subrange(i + 2, bytes@.len() as int));
            assert(x == sample_of(rest[0], rest[1]));
            assert(r@.push(x) + pcm_samples(bytes@.subrange(i + 2, bytes@.len() as int)) =~= r@ + pcm_samples(rest));
        }
        r.push(x);
        i = i + 2;
    }
    proof {
        let rest = bytes@.subrange(i as int, bytes@.len() as int);
        assert(rest.len() < 2);
        assert(r@ + pcm_samples(rest) =~= r@);
    }
    r
}

proof fn lemma_sample_roundtrip(x: i16)
    ensures
        sample_of(le_bytes(x)[0], le_bytes(x)[1]) == x,
{
}

proof fn lemma_pcm_bytes_len(s: Seq<i16>)
    ensures
        pcm_bytes(s).len() == 2 * s.len(),
    decreases s.len(),
{
    if s.len() > 0 {
        lemma_pcm_bytes_len(s.drop_last());
    }
}

proof fn lemma_pcm_samples_append(a: Seq<u8>, x: i16)
    requires
        a.len() % 2 == 0,
    ensures
        pcm_samples(a + le_bytes(x)) == pcm_samples(a).push(x),
    decreases a.len(),
{
    if a.len() == 0 {
        lemma_sample_roundtrip(x);
        let b = a + le_bytes(x);
        assert(b =~= le_bytes(x));
        assert(b.subrange(2, b.len() as int) =~= Seq::<u8>::empty());
        assert(pcm_samples(Seq::<u8>::empty()) == Seq::<i16>::empty());
        assert(pcm_samples(b) =~= seq![x]);
    } else {
        let b = a + le_bytes(x);
        let a2 = a.subrange(2, a.len() as int);
        lemma_pcm_samples_append(a2, x);
        assert(b.subrange(2, b.len() as int) =~= a2 + le_bytes(x));
        assert(b[0] == a[0] && b[1] == a[1]);
        assert(pcm_samples(b) =~= seq![sample_of(a[0], a[1])] + pcm_samples(a2).push(x));
        assert(pcm_samples(a) =~= seq![sample_of(a[0], a[1])] + pcm_samples(a2));
    }
}

/// Reading back the raw cache format gives the samples that were written.
pub proof fn lemma_pcm_roundtrip(s: Seq<i16>)
    ensures
        pcm_samples(pcm_bytes(s)) == s,
    decreases s.len(),
{
    if s.len() == 0 {
        assert(pcm_bytes(s) =~= Seq::<u8>::empty());
    } else {
        lemma_pcm_roundtrip(s.drop_last());
        lemma_pcm_bytes_len(s.drop_last());
        lemma_pcm_samples_append(pcm_bytes(s.drop_last()), s.last());
        assert(s.drop_last().push(s.last()) =~= s);
    }
}

} // verus!
