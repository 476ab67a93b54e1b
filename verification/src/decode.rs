use vstd::prelude::*;

use crate::asr::{rnnt_tokens_to_text, spec_rnnt_tokens_to_text};
use crate::text::{
    chars_of, eq_str, lines, lines_vec, nonempty, nonempty_vec, string_of, sviews, vviews, words, words_vec,
};

verus! {

/// Whether `i` is the first position of the blank token `<blk>`.
pub open spec fn first_blank_at(vocab: Seq<Seq<char>>, i: int) -> bool {
    &&& 0 <= i < vocab.len()
    &&& vocab[i] == "<blk>"@
    &&& forall|j: int| 0 <= j < i ==> vocab[j] != "<blk>"@
}

/// The first position of the blank token in the vocabulary, if it has one.
pub open spec fn blank_position(vocab: Seq<Seq<char>>) -> Option<int> {
    if exists|i: int| first_blank_at(vocab, i) {
        Some(choose|i: int| first_blank_at(vocab, i))
    } else {
        None
    }
}

/// The blank id of the CTC decoder: the blank token's position, else the
/// last index.
pub open spec fn ctc_blank(vocab: Seq<Seq<char>>) -> int {
    match blank_position(vocab) {
        Some(i) => i,
        None => vocab.len() - 1,
    }
}

/// The blank id of the RNN-T decoder: the blank token's position, else the
/// last index (0 for an empty vocabulary).
pub open spec fn rnnt_blank(vocab: Seq<Seq<char>>) -> int {
    match blank_position(vocab) {
        Some(i) => i,
        None => if vocab.len() == 0 {
            0
        } else {
            vocab.len() - 1
        },
    }
}

proof fn lemma_first_blank_unique(vocab: Seq<Seq<char>>, i: int, k: int)
    requires
        first_blank_at(vocab, i),
        first_blank_at(vocab, k),
    ensures
        i == k,
{
    if i < k {
        assert(vocab[i] != "<blk>"@);
    } else if k < i {
        assert(vocab[k] != "<blk>"@);
    }
}

/// Finds the first position of the blank token.
pub fn find_blank(vocab: &[String]) -> (r: Option<usize>)
    ensures
        match r {
            Some(i) => blank_position(sviews(vocab@)) == Some(i as int),
            None => blank_position(sviews(vocab@)) == None::<int>,
        },
{
    let ghost v = sviews(vocab@);
    let mut i: usize = 0;
    while i < vocab.len()
        invariant
            i <= vocab.len(),
            v == sviews(vocab@),
            forall|j: int| 0 <= j < i ==> v[j] != "<blk>"@,
        decreases vocab.len() - i,
    {
        let t = chars_of(vocab[i].as_str());
        assert(v[i as int] == t@);
        if eq_str(&t, "<blk>") {
            proof {
                assert(first_blank_at(v, i as int));
                let w = choose|w: int| first_blank_at(v, w);
                lemma_first_blank_unique(v, i as int, w);
            }
            return Some(i);
        }
        i = i + 1;
    }
    proof {
        if exists|w: int| first_blank_at(v, w) {
            let w = choose|w: int| first_blank_at(v, w);
            assert(v[w] != "<blk>"@);
        }
    }
    None
}

/// The CTC decoder's blank id.
pub fn ctc_blank_id(vocab: &[String]) -> (r: usize)
    requires
        vocab@.len() > 0,
    ensures
        r as int == ctc_blank(sviews(vocab@)),
        (r as int) < vocab@.len(),
{
    match find_blank(vocab) {
        Some(i) => i,
        None => vocab.len() - 1,
    }
}

/// The RNN-T decoder's blank id.
pub fn rnnt_blank_id(vocab: &[String]) -> (r: usize)
    ensures
        r as int == rnnt_blank(sviews(vocab@)),
{
    match find_blank(vocab) {
        Some(i) => i,
        None => vocab.len().saturating_sub(1),
    }
}

/// The tokens that greedy CTC keeps from the per-frame best tokens: a
/// frame's token is kept when it is not blank and differs from the token of
/// the frame before (the first frame is compared with blank).
pub open spec fn ctc_collapse(frames: Seq<usize>, blank: int) -> Seq<usize>
    decreases frames.len(),
{
    if frames.len() == 0 {
        seq![]
    } else {
        let prev: int = if frames.len() == 1 {
            blank
        } else {
            frames[frames.len() - 2] as int
        };
        let r = ctc_collapse(frames.drop_last(), blank);
        let tok = frames.last() as int;
        if tok != blank && tok != prev {
            r.push(frames.last())
        } else {
            r
        }
    }
}

/// Greedy CTC never keeps the blank, and keeps at most one token per frame.
pub proof fn lemma_ctc_collapse_no_blank(frames: Seq<usize>, blank: int)
    ensures
        forall|i: int| 0 <= i < ctc_collapse(frames, blank).len() ==> #[trigger] ctc_collapse(frames, blank)[i] != blank,
        ctc_collapse(frames, blank).len() <= frames.len(),
    decreases frames.len(),
{
    if frames.len() > 0 {
        lemma_ctc_collapse_no_blank(frames.drop_last(), blank);
    }
}

/// Greedy CTC keeps every frame's token when no frame is blank and no two
/// neighbouring frames agree.
pub proof fn lemma_ctc_collapse_keeps_clean_frames(frames: Seq<usize>, blank: int)
    requires
        forall|i: int| 0 <= i < frames.len() ==> #[trigger] frames[i] as int != blank,
        forall|i: int| 1 <= i < frames.len() ==> #[trigger] frames[i] != frames[i - 1],
    ensures
        ctc_collapse(frames, blank) == frames,
    decreases frames.len(),
{
    if frames.len() > 0 {
        let t = frames.drop_last();
        assert forall|i: int| 1 <= i < t.len() implies #[trigger] t[i] != t[i - 1] by {
            assert(frames[i] != frames[i - 1]);
        }
        lemma_ctc_collapse_keeps_clean_frames(t, blank);
        assert(frames.last() as int != blank);
        if frames.len() > 1 {
            assert(frames[frames.len() - 1] != frames[frames.len() - 2]);
        }
        assert(t.push(frames.last()) =~= frames);
    }
}

/// Greedy CTC over the per-frame best tokens: blanks and repeats dropped.
pub fn ctc_collapse_frames(frames: &[usize], blank: usize) -> (r: Vec<usize>)
    ensures
        r@ == ctc_collapse(frames@, blank as int),
{
    let mut r: Vec<usize> = Vec::new();
    let mut prev: usize = blank;
    let mut i: usize = 0;
    while i < frames.len()
        invariant
            i <= frames.len(),
            r@ == ctc_collapse(frames@.take(i as int), blank as int),
            prev as int == (if i == 0 {
                blank as int
            } else {
                frames@[i - 1] as int
            }),
        decreases frames.len() - i,
    {
        let tok = frames[i];
        assert(frames@.take(i + 1).drop_last() =~= frames@.take(i as int));
        assert(frames@.take(i + 1).last() == tok);
        if i >= 1 {
            assert(frames@.take(i + 1)[i - 1] == frames@[i - 1]);
        }
        if tok != blank && tok != prev {
            r.push(tok);
        }
        prev = tok;
        i = i + 1;
    }
    assert(frames@.take(frames.len() as int) =~= frames@);
    r
}

/// The text greedy CTC decodes from the per-frame best tokens: the kept
/// tokens' SentencePiece pieces joined, `▁` read as a space, ends trimmed.
pub open spec fn spec_ctc_text(frames: Seq<usize>, vocab: Seq<Seq<char>>) -> Seq<char> {
    spec_rnnt_tokens_to_text(ctc_collapse(frames, ctc_blank(vocab)), vocab)
}

/// Decodes a CTC transcript from the best token of each frame.
pub fn ctc_decode_frames(frames: &[usize], vocab: &[String]) -> (r: String)
    requires
        vocab@.len() > 0,
    ensures
        r@ == spec_ctc_text(frames@, sviews(vocab@)),
{
    let blank = ctc_blank_id(vocab);
    let kept = ctc_collapse_frames(frames, blank);
    rnnt_tokens_to_text(kept.as_slice(), vocab)
}

/// The most tokens the RNN-T search emits for one encoder frame.
pub const MAX_TOKENS_PER_STEP: usize = 3;

/// The greedy RNN-T search between runs of the joint and decoder networks.
/// For each encoder frame the joint network is run and its best token
/// taken; a blank ends the frame, any other token is emitted and fed to
/// the decoder, up to `MAX_TOKENS_PER_STEP` tokens per frame.
#[derive(Debug, Clone)]
pub struct RnntSearch {
    /// The blank id.
    pub blank: usize,
    /// The tokens emitted so far.
    pub hyp: Vec<usize>,
    /// Tokens emitted for the current frame.
    pub emitted: usize,
    /// Whether the current frame is finished.
    pub frame_done: bool,
}

impl RnntSearch {
    /// Nothing emitted holds the blank, and a frame never gets more than
    /// `MAX_TOKENS_PER_STEP` tokens.
    pub open spec fn wf(&self) -> bool {
        &&& self.emitted <= MAX_TOKENS_PER_STEP
        &&& forall|i: int| 0 <= i < self.hyp@.len() ==> self.hyp@[i] != self.blank
    }

    /// A search that has emitted nothing and waits for its first frame.
    pub fn new(blank: usize) -> (r: RnntSearch)
        ensures
            r.wf(),
            r.blank == blank,
            r.hyp@ == Seq::<usize>::empty(),
            r.emitted == 0,
            r.frame_done,
    {
        RnntSearch { blank, hyp: Vec::new(), emitted: 0, frame_done: true }
    }

    /// Moves to the next encoder frame.
    pub fn start_frame(&mut self)
        requires
            old(self).wf(),
        ensures
            final(self).wf(),
            final(self).blank == old(self).blank,
            final(self).hyp@ == old(self).hyp@,
            final(self).emitted == 0,
            !final(self).frame_done,
    {
        self.emitted = 0;
        self.frame_done = false;
    }

    /// Whether the joint network is to be run again on the current frame.
    pub fn wants_joint(&self) -> (r: bool)
        ensures
            r == (!self.frame_done && self.emitted < MAX_TOKENS_PER_STEP),
    {
        !self.frame_done && self.emitted < MAX_TOKENS_PER_STEP
    }

    /// Takes the joint network's best token. Returns whether it was
    /// emitted, in which case the decoder is to be run on it.
    pub fn on_best_token(&mut self, k: usize) -> (r: bool)
        requires
            old(self).wf(),
            !old(self).frame_done,
            old(self).emitted < MAX_TOKENS_PER_STEP,
        ensures
            final(self).wf(),
            r == (k != old(self).blank),
            final(self).blank == old(self).blank,
            r ==> final(self).hyp@ == old(self).hyp@.push(k) && final(self).emitted == old(self).emitted
                + 1 && !final(self).frame_done,
            !r ==> final(self).hyp@ == old(self).hyp@ && final(self).emitted == old(self).emitted
                && final(self).frame_done,
    {
        if k == self.blank {
            self.frame_done = true;
            false
        } else {
            self.hyp.push(k);
            self.emitted = self.emitted + 1;
            true
        }
    }
}

/// The length of an encoder frame.
pub const ENC_DIM: usize = 768;

/// The layout of the encoder output by its shape: `[1, D, T]` (time last,
/// "D-major") or `[1, T, D]`, told apart by which axis has length
/// `ENC_DIM`; the number of frames and whether it is D-major. None for a
/// shape of another rank or with no such axis.
pub open spec fn encoder_layout(shape: Seq<i64>) -> Option<(int, bool)> {
    if shape.len() != 3 {
        None
    } else if shape[1] as usize == ENC_DIM {
        Some(((shape[2] as usize) as int, true))
    } else if shape[2] as usize == ENC_DIM {
        Some(((shape[1] as usize) as int, false))
    } else {
        None
    }
}

/// The number of frames taken: the valid length when given (at most the
/// total), else the total.
pub open spec fn frames_taken(total: int, t_valid: Option<usize>) -> int {
    match t_valid {
        Some(v) => if (v as int) < total {
            v as int
        } else {
            total
        },
        None => total,
    }
}

/// Where value `d` of frame `t` lies in the flat encoder output.
pub open spec fn frame_index(total: int, d_major: bool, t: int, d: int) -> int {
    if d_major {
        d * total + t
    } else {
        t * ENC_DIM + d
    }
}

/// Whether every value that the frames read lies inside the data.
pub open spec fn frames_fit(shape: Seq<i64>, len: int, t_valid: Option<usize>) -> bool {
    match encoder_layout(shape) {
        Some((total, d_major)) => {
            let t = frames_taken(total, t_valid);
            t == 0 || frame_index(total, d_major, t - 1, ENC_DIM - 1) < len
        },
        None => true,
    }
}

/// Splits the encoder output into frames of `ENC_DIM` values.
pub fn extract_encoder_frames<T: Copy>(shape: &[i64], data: &[T], t_valid: Option<usize>) -> (r: Vec<
    Vec<T>,
>)
    requires
        frames_fit(shape@, data@.len() as int, t_valid),
    ensures
        encoder_layout(shape@) is None ==> r@.len() == 0,
        encoder_layout(shape@) matches Some((total, d_major)) ==> {
            &&& r@.len() == frames_taken(total, t_valid)
            &&& forall|t: int|
                0 <= t < r@.len() ==> (#[trigger] r@[t])@.len() == ENC_DIM && forall|d: int|
                    0 <= d < ENC_DIM ==> r@[t]@[d] == data@[frame_index(total, d_major, t, d)]
        },
{
    if shape.len() != 3 {
        return Vec::new();
    }
    let d1 = shape[1] as usize;
    let d2 = shape[2] as usize;
    let (total, d_major) = if d1 == ENC_DIM {
        (d2, true)
    } else if d2 == ENC_DIM {
        (d1, false)
    } else {
        return Vec::new();
    };
    let t = match t_valid {
        Some(v) => if v < total {
            v
        } else {
            total
        },
        None => total,
    };
    let n = data.len();
    let mut frames: Vec<Vec<T>> = Vec::new();
    let mut ti: usize = 0;
    while ti < t
        invariant
            ti <= t,
            n == data@.len(),
            encoder_layout(shape@) == Some((total as int, d_major)),
            t as int == frames_taken(total as int, t_valid),
            t == 0 || frame_index(total as int, d_major, t - 1, ENC_DIM - 1) < data@.len(),
            frames@.len() == ti,
            forall|a: int|
                0 <= a < ti ==> (#[trigger] frames@[a])@.len() == ENC_DIM && forall|d: int|
                    0 <= d < ENC_DIM ==> frames@[a]@[d] == data@[frame_index(total as int, d_major, a, d)],
        decreases t - ti,
    {
        let mut frame: Vec<T> = Vec::new();
        let mut d: usize = 0;
        while d < ENC_DIM
            invariant
                ti < t,
                d <= ENC_DIM,
                n == data@.len(),
                t == 0 || frame_index(total as int, d_major, t - 1, ENC_DIM - 1) < data@.len(),
                frame@.len() == d,
                forall|e: int|
                    0 <= e < d ==> frame@[e] == data@[frame_index(total as int, d_major, ti as int, e)],
            decreases ENC_DIM - d,
        {
            proof {
                if d_major {
                    assert(d * total <= 767 * total) by (nonlinear_arith)
                        requires
                            d <= 767,
                    ;
                    assert(frame_index(total as int, d_major, t - 1, ENC_DIM - 1) == 767 * total + t - 1);
                } else {
                    assert(ti * 768 <= (t - 1) * 768) by (nonlinear_arith)
                        requires
                            ti <= t - 1,
                    ;
                    assert(frame_index(total as int, d_major, t - 1, ENC_DIM - 1) == (t - 1) * 768 + 767);
                }
            }
            let idx = if d_major {
                d * total + ti
            } else {
                ti * ENC_DIM + d
            };
            frame.push(data[idx]);
            d = d + 1;
        }
        frames.push(frame);
        ti = ti + 1;
    }
    frames
}

/// The token of a vocabulary line `token index`: its first word (empty
/// for a line of white space).
pub open spec fn line_token(line: Seq<char>) -> Seq<char> {
    if words(line).len() > 0 {
        words(line)[0]
    } else {
        Seq::empty()
    }
}

/// The tokens of a vocabulary file, one per non-empty line, in order.
pub open spec fn vocab_tokens(content: Seq<char>) -> Seq<Seq<char>> {
    nonempty(lines(content)).map_values(|l: Seq<char>| line_token(l))
}

/// Reads a vocabulary file (`token index` per line).
pub fn parse_vocab(content: &str) -> (r: Vec<String>)
    ensures
        sviews(r@) == vocab_tokens(content@),
{
    let text = chars_of(content);
    let ls = lines_vec(&text);
    let kept = nonempty_vec(&ls);
    let ghost ks = vviews(kept@);
    let mut r: Vec<String> = Vec::new();
    let mut i: usize = 0;
    while i < kept.len()
        invariant
            i <= kept.len(),
            ks == vviews(kept@),
            ks == nonempty(lines(content@)),
            sviews(r@) == ks.take(i as int).map_values(|l: Seq<char>| line_token(l)),
        decreases kept.len() - i,
    {
        let ws = words_vec(&kept[i]);
        assert(ks[i as int] == kept@[i as int]@);
        let tok = if ws.len() > 0 {
            assert(vviews(ws@)[0] == ws@[0]@);
            string_of(&ws[0])
        } else {
            String::new()
        };
        let ghost r0 = sviews(r@);
        r.push(tok);
        assert(sviews(r@) =~= r0.push(tok@));
        i = i + 1;
        assert(ks.take(i as int).map_values(|l: Seq<char>| line_token(l)) =~= ks.take(i - 1).map_values(
            |l: Seq<char>| line_token(l),
        ).push(line_token(ks[i - 1])));
    }
    assert(ks.take(kept.len() as int) =~= ks);
    r
}

} // verus!
