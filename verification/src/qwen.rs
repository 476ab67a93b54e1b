use vstd::prelude::*;

use crate::asr::{conv_len, feat_extract_output_lengths};
use crate::error::ArcanaError;
use crate::history::{dec, dec_text};
use crate::text::{
    chars_of, matches_at, matches_at_vec, push_all, push_str, slice_vec, string_of, trim, trim_vec, CharClass,
};

verus! {

/// `<|audio_start|>`.
pub const AUDIO_START_ID: i64 = 151669;
/// `<|audio_end|>`.
pub const AUDIO_END_ID: i64 = 151670;
/// `<|audio_pad|>`, a placeholder for one audio feature.
pub const AUDIO_PAD_ID: i64 = 151676;
/// `<|im_start|>`.
pub const IM_START_ID: i64 = 151644;
/// `<|im_end|>`.
pub const IM_END_ID: i64 = 151645;
/// `<|endoftext|>`.
pub const ENDOFTEXT_ID: i64 = 151643;
/// The newline token.
pub const NEWLINE_ID: i64 = 198;
/// Mel frames per encoder chunk.
pub const CHUNK_SIZE: usize = 100;
/// The most tokens one transcription generates.
pub const MAX_NEW_TOKENS: usize = 512;

/// `n` audio placeholders.
pub open spec fn pads(n: nat) -> Seq<i64> {
    Seq::new(n, |i: int| AUDIO_PAD_ID)
}

/// The chat prompt around the audio: a system turn, a user turn holding
/// `n` audio placeholders between the audio markers, and the opening of
/// the assistant turn.
pub open spec fn prompt_ids(system: Seq<i64>, user: Seq<i64>, assistant: Seq<i64>, n: nat) -> Seq<i64> {
    seq![IM_START_ID] + system + seq![NEWLINE_ID, IM_END_ID, NEWLINE_ID] + seq![IM_START_ID] + user + seq![
        NEWLINE_ID,
        AUDIO_START_ID,
    ] + pads(n) + seq![AUDIO_END_ID, IM_END_ID, NEWLINE_ID] + seq![IM_START_ID] + assistant + seq![
        NEWLINE_ID,
    ]
}

fn push_all_ids(ids: &mut Vec<i64>, more: &[i64])
    ensures
        final(ids)@ == old(ids)@ + more@,
{
    let ghost start = ids@;
    let mut i: usize = 0;
    while i < more.len()
        invariant
            i <= more.len(),
            ids@ == start + more@.take(i as int),
        decreases more.len() - i,
    {
        ids.push(more[i]);
        i = i + 1;
        assert(ids@ =~= start + more@.take(i as int));
    }
    assert(more@.take(more.len() as int) =~= more@);
}

/// The prompt's token ids for `num_audio_tokens` audio features, given the
/// token ids of the words "system", "user" and "assistant".
pub fn build_prompt_ids(system_ids: &[i64], user_ids: &[i64], assistant_ids: &[i64], num_audio_tokens: usize) -> (r:
    Vec<i64>)
    requires
        system_ids@.len() + user_ids@.len() + assistant_ids@.len() + num_audio_tokens + 12 <= usize::MAX,
    ensures
        r@ == prompt_ids(system_ids@, user_ids@, assistant_ids@, num_audio_tokens as nat),
{
    let mut ids: Vec<i64> = Vec::new();
    ids.push(IM_START_ID);
    push_all_ids(&mut ids, system_ids);
    ids.push(NEWLINE_ID);
    ids.push(IM_END_ID);
    ids.push(NEWLINE_ID);
    ids.push(IM_START_ID);
    push_all_ids(&mut ids, user_ids);
    ids.push(NEWLINE_ID);
    ids.push(AUDIO_START_ID);
    let ghost before_pads = ids@;
    let mut k: usize = 0;
    while k < num_audio_tokens
        invariant
            k <= num_audio_tokens,
            ids@ == before_pads + pads(k as nat),
        decreases num_audio_tokens - k,
    {
        ids.push(AUDIO_PAD_ID);
        k = k + 1;
        assert(ids@ =~= before_pads + pads(k as nat));
    }
    ids.push(AUDIO_END_ID);
    ids.push(IM_END_ID);
    ids.push(NEWLINE_ID);
    ids.push(IM_START_ID);
    push_all_ids(&mut ids, assistant_ids);
    ids.push(NEWLINE_ID);
    assert(ids@ =~= prompt_ids(system_ids@, user_ids@, assistant_ids@, num_audio_tokens as nat));
    ids
}

/// The lengths of the chunks a mel spectrogram of `mel_len` frames is cut
/// into: `CHUNK_SIZE` frames each, the last one shorter if need be.
pub open spec fn chunk_lens(mel_len: nat) -> Seq<usize> {
    let n = (mel_len + CHUNK_SIZE - 1) / (CHUNK_SIZE as int);
    Seq::new(
        n as nat,
        |i: int|
            if mel_len - CHUNK_SIZE * i < CHUNK_SIZE {
                (mel_len - CHUNK_SIZE * i) as usize
            } else {
                CHUNK_SIZE
            },
    )
}

/// Cuts `mel_len` mel frames into encoder chunks.
pub fn chunk_lengths(mel_len: usize) -> (r: Vec<usize>)
    ensures
        r@ == chunk_lens(mel_len as nat),
        forall|i: int| 0 <= i < r@.len() ==> 1 <= #[trigger] r@[i] <= CHUNK_SIZE,
{
    let n = mel_len / CHUNK_SIZE + if mel_len % CHUNK_SIZE == 0 {
        0
    } else {
        1
    };
    assert(n as int == (mel_len + CHUNK_SIZE - 1) / (CHUNK_SIZE as int)) by (nonlinear_arith)
        requires
            n == mel_len / 100 + if mel_len % 100 == 0 {
                0int
            } else {
                1int
            },
    ;
    let mut r: Vec<usize> = Vec::new();
    let mut i: usize = 0;
    while i < n
        invariant
            i <= n,
            n as int == (mel_len + CHUNK_SIZE - 1) / (CHUNK_SIZE as int),
            r@.len() == i,
            forall|j: int| 0 <= j < i ==> r@[j] == chunk_lens(mel_len as nat)[j],
            forall|j: int| 0 <= j < i ==> 1 <= #[trigger] r@[j] <= CHUNK_SIZE,
        decreases n - i,
    {
        assert(CHUNK_SIZE * i < mel_len) by (nonlinear_arith)
            requires
                i < n,
                n as int == (mel_len + 99) / 100,
        ;
        let start = CHUNK_SIZE * i;
        let rest = mel_len - start;
        let len = if rest < CHUNK_SIZE {
            rest
        } else {
            CHUNK_SIZE
        };
        r.push(len);
        i = i + 1;
    }
    assert(r@ =~= chunk_lens(mel_len as nat));
    r
}

/// Where the embedding of one prompt position comes from.
#[derive(Debug, Clone, Copy, PartialEq, Eq, Structural)]
pub enum EmbedSource {
    /// Row `k` of the audio features.
    Audio(usize),
    /// The embedding of this token.
    Token(i64),
}

/// How many audio placeholders there are in `ids`.
pub open spec fn pad_count(ids: Seq<i64>) -> nat
    decreases ids.len(),
{
    if ids.len() == 0 {
        0
    } else {
        pad_count(ids.drop_last()) + if ids.last() == AUDIO_PAD_ID {
            1nat
        } else {
            0nat
        }
    }
}

proof fn lemma_pad_count_concat(a: Seq<i64>, b: Seq<i64>)
    ensures
        pad_count(a + b) == pad_count(a) + pad_count(b),
    decreases b.len(),
{
    if b.len() == 0 {
        assert(a + b =~= a);
    } else {
        lemma_pad_count_concat(a, b.drop_last());
        assert((a + b).drop_last() =~= a + b.drop_last());
    }
}

proof fn lemma_pad_count_pads(n: nat)
    ensures
        pad_count(pads(n)) == n,
    decreases n,
{
    if n > 0 {
        lemma_pad_count_pads((n - 1) as nat);
        assert(pads(n).drop_last() =~= pads((n - 1) as nat));
    }
}

proof fn lemma_pad_count_free(a: Seq<i64>)
    requires
        forall|i: int| 0 <= i < a.len() ==> a[i] != AUDIO_PAD_ID,
    ensures
        pad_count(a) == 0,
    decreases a.len(),
{
    if a.len() > 0 {
        lemma_pad_count_free(a.drop_last());
    }
}

/// A prompt built for `n` audio features holds exactly `n` placeholders
/// when the role words' tokens are not placeholders themselves.
pub proof fn lemma_prompt_holds_n_placeholders(system: Seq<i64>, user: Seq<i64>, assistant: Seq<i64>, n: nat)
    requires
        forall|i: int| 0 <= i < system.len() ==> system[i] != AUDIO_PAD_ID,
        forall|i: int| 0 <= i < user.len() ==> user[i] != AUDIO_PAD_ID,
        forall|i: int| 0 <= i < assistant.len() ==> assistant[i] != AUDIO_PAD_ID,
    ensures
        pad_count(prompt_ids(system, user, assistant, n)) == n,
{
    lemma_pad_count_free(system);
    lemma_pad_count_free(user);
    lemma_pad_count_free(assistant);
    lemma_pad_count_pads(n);
    let s1 = seq![IM_START_ID];
    let s2 = seq![NEWLINE_ID, IM_END_ID, NEWLINE_ID];
    let s3 = seq![IM_START_ID];
    let s4 = seq![NEWLINE_ID, AUDIO_START_ID];
    let s5 = seq![AUDIO_END_ID, IM_END_ID, NEWLINE_ID];
    let s6 = seq![IM_START_ID];
    let s7 = seq![NEWLINE_ID];
    lemma_pad_count_free(s1);
    lemma_pad_count_free(s2);
    lemma_pad_count_free(s3);
    lemma_pad_count_free(s4);
    lemma_pad_count_free(s5);
    lemma_pad_count_free(s6);
    lemma_pad_count_free(s7);
    let p1 = s1 + system;
    lemma_pad_count_concat(s1, system);
    let p2 = p1 + s2;
    lemma_pad_count_concat(p1, s2);
    let p3 = p2 + s3;
    lemma_pad_count_concat(p2, s3);
    let p4 = p3 + user;
    lemma_pad_count_concat(p3, user);
    let p5 = p4 + s4;
    lemma_pad_count_concat(p4, s4);
    let p6 = p5 + pads(n);
    lemma_pad_count_concat(p5, pads(n));
    let p7 = p6 + s5;
    lemma_pad_count_concat(p6, s5);
    let p8 = p7 + s6;
    lemma_pad_count_concat(p7, s6);
    let p9 = p8 + assistant;
    lemma_pad_count_concat(p8, assistant);
    let p10 = p9 + s7;
    lemma_pad_count_concat(p9, s7);
    assert(p10 == prompt_ids(system, user, assistant, n));
}

/// The source of each prompt position: the placeholders take the audio
/// features in order while there are features left; every other position
/// (a surplus placeholder too) takes its token's embedding.
pub open spec fn embed_sources(ids: Seq<i64>, n_audio: nat) -> Seq<EmbedSource> {
    Seq::new(
        ids.len(),
        |i: int|
            if ids[i] == AUDIO_PAD_ID && pad_count(ids.take(i)) < n_audio {
                EmbedSource::Audio(pad_count(ids.take(i)) as usize)
            } else {
                EmbedSource::Token(ids[i])
            },
    )
}

/// Plans the fusion of the prompt's token embeddings with the audio
/// features.
pub fn fuse_sources(token_ids: &[i64], n_audio: usize) -> (r: Vec<EmbedSource>)
    ensures
        r@ == embed_sources(token_ids@, n_audio as nat),
{
    let mut r: Vec<EmbedSource> = Vec::new();
    let mut audio_idx: usize = 0;
    let mut i: usize = 0;
    while i < token_ids.len()
        invariant
            i <= token_ids.len(),
            audio_idx as int == if pad_count(token_ids@.take(i as int)) < n_audio {
                pad_count(token_ids@.take(i as int)) as int
            } else {
                n_audio as int
            },
            audio_idx <= n_audio,
            r@.len() == i,
            forall|j: int| 0 <= j < i ==> r@[j] == embed_sources(token_ids@, n_audio as nat)[j],
        decreases token_ids.len() - i,
    {
        let tid = token_ids[i];
        assert(token_ids@.take(i + 1).drop_last() =~= token_ids@.take(i as int));
        assert(token_ids@.take(i + 1).last() == tid);
        if tid == AUDIO_PAD_ID && audio_idx < n_audio {
            r.push(EmbedSource::Audio(audio_idx));
            audio_idx = audio_idx + 1;
        } else {
            r.push(EmbedSource::Token(tid));
        }
        i = i + 1;
    }
    assert(r@ =~= embed_sources(token_ids@, n_audio as nat));
    r
}

/// Whether a token ends the transcript.
pub open spec fn is_eos(t: i64) -> bool {
    t == IM_END_ID || t == ENDOFTEXT_ID
}

/// The autoregressive generation of the transcript's tokens: it starts
/// from the prefill's best token, stops at an end token or after
/// `MAX_NEW_TOKENS` tokens, and drops a final end token.
#[derive(Debug, Clone)]
pub struct Generation {
    /// The tokens generated so far, end token included.
    pub tokens: Vec<i64>,
}

impl Generation {
    pub open spec fn wf(&self) -> bool {
        1 <= self.tokens@.len() <= MAX_NEW_TOKENS
    }

    /// Starts from the prefill's best token.
    pub fn start(first: i64) -> (r: Generation)
        ensures
            r.wf(),
            r.tokens@ == seq![first],
    {
        Generation { tokens: vec![first] }
    }

    /// Whether another decoder step is to be run.
    pub fn wants_step(&self) -> (r: bool)
        requires
            self.wf(),
        ensures
            r == (self.tokens@.len() < MAX_NEW_TOKENS && !is_eos(self.tokens@.last())),
    {
        let last = self.tokens[self.tokens.len() - 1];
        self.tokens.len() < MAX_NEW_TOKENS && !(last == IM_END_ID || last == ENDOFTEXT_ID)
    }

    /// The token the next step embeds (the last one) and its position,
    /// after a prompt of `prompt_len` tokens.
    pub fn next_input(&self, prompt_len: i64) -> (r: (i64, i64))
        requires
            self.wf(),
            prompt_len + MAX_NEW_TOKENS <= i64::MAX,
            prompt_len >= 0,
        ensures
            r.0 == self.tokens@.last(),
            r.1 == prompt_len + self.tokens@.len() - 1,
    {
        let n = self.tokens.len();
        (self.tokens[n - 1], prompt_len + (n - 1) as i64)
    }

    /// Records a step's best token.
    pub fn push(&mut self, token: i64)
        requires
            old(self).wf(),
            old(self).tokens@.len() < MAX_NEW_TOKENS,
        ensures
            final(self).wf(),
            final(self).tokens@ == old(self).tokens@.push(token),
    {
        self.tokens.push(token);
    }

    /// The transcript's tokens: the generated ones without a final end
    /// token.
    pub fn finish(self) -> (r: Vec<i64>)
        requires
            self.wf(),
        ensures
            r@ == if is_eos(self.tokens@.last()) {
                self.tokens@.drop_last()
            } else {
                self.tokens@
            },
    {
        let mut t = self.tokens;
        let last = t[t.len() - 1];
        if last == IM_END_ID || last == ENDOFTEXT_ID {
            t.pop();
        }
        t
    }
}

/// Whether `i` is the first place where `p` occurs in `s`.
pub open spec fn first_match_at(s: Seq<char>, p: Seq<char>, i: int) -> bool {
    &&& matches_at(s, p, i)
    &&& forall|j: int| 0 <= j < i ==> !matches_at(s, p, j)
}

/// The marker after which the model writes the recognized text.
pub open spec fn asr_marker() -> Seq<char> {
    "<asr_text>"@
}

/// The transcript in the decoded text: what follows the first
/// `<asr_text>` marker (the language tag before it dropped), trimmed; the
/// whole text trimmed when there is no marker.
pub open spec fn spec_asr_text(text: Seq<char>) -> Seq<char> {
    if exists|i: int| first_match_at(text, asr_marker(), i) {
        let i = choose|i: int| first_match_at(text, asr_marker(), i);
        trim(text.subrange(i + asr_marker().len(), text.len() as int))
    } else {
        trim(text)
    }
}

proof fn lemma_first_match_unique(s: Seq<char>, p: Seq<char>, i: int, k: int)
    requires
        first_match_at(s, p, i),
        first_match_at(s, p, k),
    ensures
        i == k,
{
    if i < k {
        assert(!matches_at(s, p, i));
    } else if k < i {
        assert(!matches_at(s, p, k));
    }
}

/// Extracts the transcript from the decoded text.
pub fn asr_text(text: &str) -> (r: String)
    ensures
        r@ == spec_asr_text(text@),
{
    proof {
        reveal_strlit("<asr_text>");
    }
    let s = chars_of(text);
    let marker = chars_of("<asr_text>");
    assert(marker@.len() == 10);
    let mut i: usize = 0;
    while 10 <= s.len() - i
        invariant
            i <= s.len(),
            s@ == text@,
            marker@ == asr_marker(),
            marker@.len() == 10,
            forall|j: int| 0 <= j < i ==> !matches_at(s@, marker@, j),
        decreases s.len() - i,
    {
        if matches_at_vec(&s, &marker, i) {
            proof {
                assert(first_match_at(text@, asr_marker(), i as int));
                let w = choose|w: int| first_match_at(text@, asr_marker(), w);
                lemma_first_match_unique(text@, asr_marker(), i as int, w);
            }
            let rest = slice_vec(&s, i + 10, s.len());
            let t = trim_vec(&rest, &CharClass::Whitespace);
            return string_of(&t);
        }
        i = i + 1;
    }
    proof {
        if exists|w: int| first_match_at(s@, asr_marker(), w) {
            let w = choose|w: int| first_match_at(s@, asr_marker(), w);
            if w < i {
                assert(!matches_at(s@, marker@, w));
            }
        }
    }
    let t = trim_vec(&s, &CharClass::Whitespace);
    string_of(&t)
}

/// The length of a chunk after the encoder's convolutions.
pub open spec fn cnn_len(l: int) -> int {
    conv_len(conv_len(conv_len(l)))
}

/// The number of encoder tokens each chunk yields.
pub fn lens_after_cnn(chunk_lens: &[usize]) -> (r: Vec<usize>)
    requires
        forall|i: int| 0 <= i < chunk_lens@.len() ==> #[trigger] chunk_lens@[i] >= 1,
    ensures
        r@.len() == chunk_lens@.len(),
        forall|i: int| 0 <= i < r@.len() ==> #[trigger] r@[i] as int == cnn_len(chunk_lens@[i] as int),
{
    let mut r: Vec<usize> = Vec::new();
    let mut i: usize = 0;
    while i < chunk_lens.len()
        invariant
            i <= chunk_lens.len(),
            forall|j: int| 0 <= j < chunk_lens@.len() ==> #[trigger] chunk_lens@[j] >= 1,
            r@.len() == i,
            forall|j: int| 0 <= j < i ==> #[trigger] r@[j] as int == cnn_len(chunk_lens@[j] as int),
        decreases chunk_lens.len() - i,
    {
        r.push(feat_extract_output_lengths(chunk_lens[i]));
        i = i + 1;
    }
    r
}

/// The sum of the lengths.
pub open spec fn total(lens: Seq<usize>) -> int
    decreases lens.len(),
{
    if lens.len() == 0 {
        0
    } else {
        total(lens.drop_last()) + lens.last()
    }
}

/// Where chunk `i`'s output starts in the convolution output: chunks are
/// `tokens_per_chunk` rows of `dim` values apart.
pub open spec fn chunk_start(i: int, tokens_per_chunk: int, dim: int) -> int {
    i * tokens_per_chunk * dim
}

/// The convolution output without its padding: the first `lens[i]` rows of
/// each chunk, chunk after chunk.
pub open spec fn unpadded<T>(data: Seq<T>, lens: Seq<usize>, tokens_per_chunk: int, dim: int) -> Seq<T>
    decreases lens.len(),
{
    if lens.len() == 0 {
        seq![]
    } else {
        let i = lens.len() - 1;
        let start = chunk_start(i, tokens_per_chunk, dim);
        unpadded(data, lens.drop_last(), tokens_per_chunk, dim) + data.subrange(start, start + lens.last() * dim)
    }
}

/// Whether every chunk's rows lie inside the convolution output.
pub open spec fn chunks_fit(len: int, lens: Seq<usize>, tokens_per_chunk: int, dim: int) -> bool {
    forall|j: int|
        #![trigger lens[j]]
        0 <= j < lens.len() ==> j * tokens_per_chunk <= usize::MAX && chunk_start(j, tokens_per_chunk, dim)
            + lens[j] * dim <= len
}

/// Drops the padding rows of each chunk from the convolution output
/// (row-major, `dim` values per row).
pub fn unpad_conv_output<T: Copy>(data: &[T], lens: &[usize], tokens_per_chunk: usize, dim: usize) -> (r: Vec<T>)
    requires
        chunks_fit(data@.len() as int, lens@, tokens_per_chunk as int, dim as int),
    ensures
        r@ == unpadded(data@, lens@, tokens_per_chunk as int, dim as int),
        r@.len() == total(lens@) * dim,
{
    let mut out: Vec<T> = Vec::new();
    let mut i: usize = 0;
    let dl = data.len();
    while i < lens.len()
        invariant
            i <= lens.len(),
            dl == data@.len(),
            chunks_fit(data@.len() as int, lens@, tokens_per_chunk as int, dim as int),
            out@ == unpadded(data@, lens@.take(i as int), tokens_per_chunk as int, dim as int),
            out@.len() == total(lens@.take(i as int)) * dim,
        decreases lens.len() - i,
    {
        let ghost before = out@;
        let l = lens[i];
        proof {
            assert(i * tokens_per_chunk <= usize::MAX && chunk_start(i as int, tokens_per_chunk as int, dim as int)
                + lens@[i as int] * dim <= dl);
            assert(0 <= i * tokens_per_chunk * dim) by (nonlinear_arith);
            assert(0 <= l * dim) by (nonlinear_arith);
        }
        let row = i * tokens_per_chunk;
        assert(row * dim == chunk_start(i as int, tokens_per_chunk as int, dim as int));
        let start = row * dim;
        let n = l * dim;
        let mut k: usize = 0;
        while k < n
            invariant
                k <= n,
                start + n <= dl,
                dl == data@.len(),
                out@ == before + data@.subrange(start as int, start + k),
            decreases n - k,
        {
            out.push(data[start + k]);
            k = k + 1;
            assert(out@ =~= before + data@.subrange(start as int, start + k));
        }
        proof {
            assert(lens@.take(i + 1).drop_last() =~= lens@.take(i as int));
            assert(lens@.take(i + 1).last() == l);
            let t = total(lens@.take(i as int));
            assert((t + l) * dim == t * dim + l * dim) by (nonlinear_arith);
        }
        i = i + 1;
    }
    assert(lens@.take(lens.len() as int) =~= lens@);
    out
}

/// The longest chunk (0 when there is none).
pub open spec fn max_of(lens: Seq<usize>) -> int
    decreases lens.len(),
{
    if lens.len() == 0 {
        0
    } else {
        let m = max_of(lens.drop_last());
        if lens.last() > m {
            lens.last() as int
        } else {
            m
        }
    }
}

proof fn lemma_max_of_bounds(lens: Seq<usize>)
    ensures
        0 <= max_of(lens) <= usize::MAX,
        forall|i: int| 0 <= i < lens.len() ==> #[trigger] lens[i] <= max_of(lens),
    decreases lens.len(),
{
    if lens.len() > 0 {
        lemma_max_of_bounds(lens.drop_last());
        assert forall|i: int| 0 <= i < lens.len() implies #[trigger] lens[i] <= max_of(lens) by {
            if i < lens.len() - 1 {
                assert(lens.drop_last()[i] == lens[i]);
            }
        }
    }
}

/// The length of the longest chunk.
pub fn max_chunk_len(lens: &[usize]) -> (r: usize)
    ensures
        r as int == max_of(lens@),
        forall|i: int| 0 <= i < lens@.len() ==> #[trigger] lens@[i] <= r,
{
    let mut m: usize = 0;
    let mut i: usize = 0;
    while i < lens.len()
        invariant
            i <= lens.len(),
            m as int == max_of(lens@.take(i as int)),
        decreases lens.len() - i,
    {
        assert(lens@.take(i + 1).drop_last() =~= lens@.take(i as int));
        if lens[i] > m {
            m = lens[i];
        }
        i = i + 1;
    }
    assert(lens@.take(lens.len() as int) =~= lens@);
    proof {
        lemma_max_of_bounds(lens@);
    }
    m
}

/// One mel band of one chunk, padded: `cl` frames from frame `start` of
/// band `m`, then zeros up to `max_len` frames.
pub open spec fn padded_band<T>(mel: Seq<T>, mel_len: int, m: int, start: int, cl: int, max_len: int, zero: T) -> Seq<T> {
    mel.subrange(m * mel_len + start, m * mel_len + start + cl) + Seq::new((max_len - cl) as nat, |k: int| zero)
}

/// The first `bands` padded bands of one chunk.
pub open spec fn padded_chunk<T>(
    mel: Seq<T>,
    mel_len: int,
    start: int,
    cl: int,
    max_len: int,
    zero: T,
    bands: nat,
) -> Seq<T>
    decreases bands,
{
    if bands == 0 {
        seq![]
    } else {
        padded_chunk(mel, mel_len, start, cl, max_len, zero, (bands - 1) as nat) + padded_band(
            mel,
            mel_len,
            bands - 1,
            start,
            cl,
            max_len,
            zero,
        )
    }
}

/// The encoder's input: the chunks one after the other, each `n_mels`
/// bands of `max_len` frames (the chunk's frames, then zeros).
pub open spec fn padded_chunks<T>(
    mel: Seq<T>,
    mel_len: int,
    n_mels: nat,
    lens: Seq<usize>,
    max_len: int,
    zero: T,
) -> Seq<T>
    decreases lens.len(),
{
    if lens.len() == 0 {
        seq![]
    } else {
        padded_chunks(mel, mel_len, n_mels, lens.drop_last(), max_len, zero) + padded_chunk(
            mel,
            mel_len,
            total(lens.drop_last()),
            lens.last() as int,
            max_len,
            zero,
            n_mels,
        )
    }
}

proof fn lemma_total_take(lens: Seq<usize>, i: int)
    requires
        0 <= i < lens.len(),
    ensures
        total(lens.take(i)) + lens[i] <= total(lens),
        total(lens.take(i + 1)) == total(lens.take(i)) + lens[i],
    decreases lens.len(),
{
    assert(lens.take(i + 1).drop_last() =~= lens.take(i));
    if i < lens.len() - 1 {
        lemma_total_take(lens.drop_last(), i);
        assert(lens.drop_last().take(i) =~= lens.take(i));
        assert(lens.drop_last()[i] == lens[i]);
    } else {
        assert(lens.take(i) =~= lens.drop_last());
    }
}

/// Lays a mel spectrogram (`n_mels` bands of `mel_len` frames, band after
/// band) out as the padded chunks the encoder takes.
pub fn pad_mel_chunks<T: Copy>(
    mel: &[T],
    n_mels: usize,
    mel_len: usize,
    lens: &[usize],
    max_len: usize,
    zero: T,
) -> (r: Vec<T>)
    requires
        n_mels * mel_len <= mel@.len(),
        total(lens@) <= mel_len,
        forall|i: int| 0 <= i < lens@.len() ==> #[trigger] lens@[i] <= max_len,
    ensures
        r@ == padded_chunks(mel@, mel_len as int, n_mels as nat, lens@, max_len as int, zero),
{
    let ml = mel.len();
    let mut out: Vec<T> = Vec::new();
    let mut start: usize = 0;
    let mut i: usize = 0;
    while i < lens.len()
        invariant
            i <= lens.len(),
            ml == mel@.len(),
            n_mels * mel_len <= mel@.len(),
            total(lens@) <= mel_len,
            forall|j: int| 0 <= j < lens@.len() ==> #[trigger] lens@[j] <= max_len,
            start as int == total(lens@.take(i as int)),
            out@ == padded_chunks(mel@, mel_len as int, n_mels as nat, lens@.take(i as int), max_len as int, zero),
        decreases lens.len() - i,
    {
        let cl = lens[i];
        proof {
            lemma_total_take(lens@, i as int);
        }
        let ghost chunk_before = out@;
        let mut m: usize = 0;
        while m < n_mels
            invariant
                m <= n_mels,
                cl <= max_len,
                start + cl <= mel_len,
                ml == mel@.len(),
                n_mels * mel_len <= mel@.len(),
                out@ == chunk_before + padded_chunk(mel@, mel_len as int, start as int, cl as int, max_len as int, zero, m as nat),
            decreases n_mels - m,
        {
            proof {
                assert((m + 1) * mel_len <= n_mels * mel_len) by (nonlinear_arith)
                    requires
                        m < n_mels,
                ;
                assert((m + 1) * mel_len == m * mel_len + mel_len) by (nonlinear_arith);
            }
            let base = m * mel_len + start;
            let ghost band_before = out@;
            let mut t: usize = 0;
            while t < cl
                invariant
                    t <= cl,
                    ml == mel@.len(),
                    base + cl <= mel@.len(),
                    out@ == band_before + mel@.subrange(base as int, base + t),
                decreases cl - t,
            {
                out.push(mel[base + t]);
                t = t + 1;
                assert(out@ =~= band_before + mel@.subrange(base as int, base + t));
            }
            let ghost copied = out@;
            let mut p: usize = cl;
            while p < max_len
                invariant
                    cl <= p <= max_len,
                    out@ == copied + Seq::new((p - cl) as nat, |k: int| zero),
                decreases max_len - p,
            {
                out.push(zero);
                p = p + 1;
                assert(out@ =~= copied + Seq::new((p - cl) as nat, |k: int| zero));
            }
            assert(out@ =~= chunk_before + padded_chunk(mel@, mel_len as int, start as int, cl as int, max_len as int, zero, (m + 1) as nat));
            m = m + 1;
        }
        assert(lens@.take(i + 1).drop_last() =~= lens@.take(i as int));
        assert(lens@.take(i + 1).last() == cl);
        start = start + cl;
        i = i + 1;
    }
    assert(lens@.take(lens.len() as int) =~= lens@);
    out
}

/// Rows of the token embedding table.
pub const VOCAB_SIZE: usize = 151936;
/// Values per embedding.
pub const HIDDEN_SIZE: usize = 1024;

/// The size in bytes the embedding table must have: `VOCAB_SIZE` rows of
/// `HIDDEN_SIZE` little-endian `f32` values.
pub open spec fn embed_bytes_expected() -> nat {
    (VOCAB_SIZE * HIDDEN_SIZE * 4) as nat
}

/// Checks the size of `embed_tokens.bin`: an error naming the expected and
/// the found size when they differ.
pub fn check_embed_size(len: usize) -> (r: Result<(), ArcanaError>)
    ensures
        r is Ok <==> len == embed_bytes_expected(),
        r matches Err(e) ==> e matches ArcanaError::ModelLoad(m) && m@ == "embed_tokens.bin: ожидается "@
            + dec(embed_bytes_expected()) + " байт, получено "@ + dec(len as nat),
{
    let expected: usize = 151936 * 1024 * 4;
    if len == expected {
        return Ok(());
    }
    let mut m = chars_of("embed_tokens.bin: ожидается ");
    push_all(&mut m, &dec_text(expected as u64));
    push_str(&mut m, " байт, получено ");
    push_all(&mut m, &dec_text(len as u64));
    Err(ArcanaError::ModelLoad(string_of(&m)))
}

proof fn lemma_kth_placeholder(ids: Seq<i64>, k: nat)
    requires
        k < pad_count(ids),
    ensures
        exists|i: int| 0 <= i < ids.len() && ids[i] == AUDIO_PAD_ID && pad_count(#[trigger] ids.take(i)) == k,
    decreases ids.len(),
{
    let rest = ids.drop_last();
    let last = ids.len() - 1;
    if k < pad_count(rest) {
        lemma_kth_placeholder(rest, k);
        let i = choose|i: int| 0 <= i < rest.len() && rest[i] == AUDIO_PAD_ID && pad_count(#[trigger] rest.take(i)) == k;
        assert(rest.take(i) =~= ids.take(i));
        assert(ids[i] == rest[i]);
    } else {
        assert(ids.take(last) =~= rest);
        assert(ids[last] == AUDIO_PAD_ID);
    }
}

/// Whether audio feature `k` is the source of some prompt position.
pub open spec fn feature_placed(ids: Seq<i64>, n: nat, k: nat) -> bool {
    exists|i: int| 0 <= i < ids.len() && #[trigger] embed_sources(ids, n)[i] == EmbedSource::Audio(k as usize)
}

/// Every audio feature fills a placeholder of the prompt when there are
/// enough placeholders: feature `k` (for each `k < n`) is the source of
/// some position.
pub proof fn lemma_every_feature_placed(ids: Seq<i64>, n: nat)
    requires
        n <= pad_count(ids),
    ensures
        forall|k: nat| k < n ==> #[trigger] feature_placed(ids, n, k),
{
    assert forall|k: nat| k < n implies #[trigger] feature_placed(ids, n, k) by {
        lemma_kth_placeholder(ids, k);
        let i = choose|i: int| 0 <= i < ids.len() && ids[i] == AUDIO_PAD_ID && pad_count(#[trigger] ids.take(i)) == k;
        assert(embed_sources(ids, n)[i] == EmbedSource::Audio(k as usize));
    }
}

} // verus!
