use vstd::prelude::*;

use crate::error::ArcanaError;
use crate::text::{
    chars_of, eq_str, free_of, in_class, join, join_vec, lemma_join_first, lemma_join_last,
    lemma_nonempty_id, lemma_nonempty_keeps, lemma_split_join, lemma_split_pieces_free,
    lemma_trim_end_at, lemma_trim_start_at, lowercase, lowercase_vec, nonempty, split_by,
    string_of, trim, trim_by, trim_vec, vviews, words, words_vec, CharClass, concat, ends_with, ends_with_vec,
    push_str, slice_vec, sviews, trim_end_by, trim_end_vec,
};

verus! {

/// The filler words removed from a transcript, in lowercase.
pub open spec fn is_filler(w: Seq<char>) -> bool {
    ||| w == "э"@
    ||| w == "э-э"@
    ||| w == "э-э-э"@
    ||| w == "э-ээ"@
    ||| w == "ээ"@
    ||| w == "эээ"@
    ||| w == "эм"@
    ||| w == "мм"@
    ||| w == "ммм"@
}

/// Whether a word of the transcript is a filler: compared whole, in
/// lowercase, once the punctuation and dashes at its edges are dropped.
pub open spec fn is_filler_word(w: Seq<char>) -> bool {
    is_filler(lowercase(trim_by(w, CharClass::PunctOrDash)))
}

/// The words that are not fillers, in order.
pub open spec fn kept_words(ws: Seq<Seq<char>>) -> Seq<Seq<char>>
    decreases ws.len(),
{
    if ws.len() == 0 {
        seq![]
    } else if is_filler_word(ws.last()) {
        kept_words(ws.drop_last())
    } else {
        kept_words(ws.drop_last()).push(ws.last())
    }
}

/// A transcript without its filler words: the other words joined by single
/// spaces.
pub open spec fn spec_remove_filler_words(text: Seq<char>) -> Seq<char> {
    trim(join(kept_words(words(text)), " "@))
}

fn filler(w: &Vec<char>) -> (r: bool)
    ensures
        r == is_filler(w@),
{
    eq_str(w, "э") || eq_str(w, "э-э") || eq_str(w, "э-э-э") || eq_str(w, "э-ээ") || eq_str(
        w,
        "ээ",
    ) || eq_str(w, "эээ") || eq_str(w, "эм") || eq_str(w, "мм") || eq_str(w, "ммм")
}

fn filler_word(w: &Vec<char>) -> (r: bool)
    ensures
        r == is_filler_word(w@),
{
    let clean = trim_vec(w, &CharClass::PunctOrDash);
    let lower = lowercase_vec(&clean);
    filler(&lower)
}

/// Removes the filler words ("э", "мм" and the like) from a transcript,
/// comparing whole words in lowercase so that ordinary words stay.
pub fn remove_filler_words(text: &str) -> (r: String)
    ensures
        r@ == spec_remove_filler_words(text@),
{
    let tv = chars_of(text);
    let ws = words_vec(&tv);
    let ghost all = vviews(ws@);
    let mut kept: Vec<Vec<char>> = Vec::new();
    let mut i: usize = 0;
    assert(all.take(0) =~= Seq::<Seq<char>>::empty());
    while i < ws.len()
        invariant
            i <= ws.len(),
            all == vviews(ws@),
            vviews(kept@) == kept_words(all.take(i as int)),
        decreases ws.len() - i,
    {
        assert(all.take(i + 1).drop_last() =~= all.take(i as int));
        assert(all.take(i + 1).last() == ws@[i as int]@);
        if !filler_word(&ws[i]) {
            let ghost k0 = vviews(kept@);
            let w = crate::text::copy_vec(&ws[i]);
            kept.push(w);
            assert(vviews(kept@) =~= k0.push(all[i as int]));
        }
        i = i + 1;
    }
    assert(all.take(ws.len() as int) =~= all);
    let sp = chars_of(" ");
    let joined = join_vec(&kept, &sp);
    let t = trim_vec(&joined, &CharClass::Whitespace);
    string_of(&t)
}

proof fn lemma_kept_keeps(ws: Seq<Seq<char>>)
    requires
        forall|i: int| 0 <= i < ws.len() ==> #[trigger] ws[i].len() > 0 && free_of(ws[i], CharClass::Whitespace),
    ensures
        forall|i: int| 0 <= i < kept_words(ws).len() ==> {
            &&& #[trigger] kept_words(ws)[i].len() > 0
            &&& free_of(kept_words(ws)[i], CharClass::Whitespace)
            &&& !is_filler_word(kept_words(ws)[i])
        },
    decreases ws.len(),
{
    if ws.len() > 0 {
        let t = ws.drop_last();
        assert forall|i: int| 0 <= i < t.len() implies #[trigger] t[i].len() > 0 && free_of(
            t[i],
            CharClass::Whitespace,
        ) by {
            assert(t[i] == ws[i]);
        }
        lemma_kept_keeps(t);
        let r = kept_words(t);
        let x = ws.last();
        assert(x.len() > 0 && free_of(x, CharClass::Whitespace));
        if !is_filler_word(x) {
            assert forall|i: int| 0 <= i < r.push(x).len() implies {
                &&& #[trigger] r.push(x)[i].len() > 0
                &&& free_of(r.push(x)[i], CharClass::Whitespace)
                &&& !is_filler_word(r.push(x)[i])
            } by {
                if i < r.len() {
                    assert(r.push(x)[i] == r[i]);
                }
            }
        }
    }
}

proof fn lemma_kept_id(ws: Seq<Seq<char>>)
    requires
        forall|i: int| 0 <= i < ws.len() ==> !is_filler_word(#[trigger] ws[i]),
    ensures
        kept_words(ws) == ws,
    decreases ws.len(),
{
    if ws.len() > 0 {
        let t = ws.drop_last();
        assert forall|i: int| 0 <= i < t.len() implies !is_filler_word(#[trigger] t[i]) by {
            assert(t[i] == ws[i]);
        }
        lemma_kept_id(t);
        assert(!is_filler_word(ws[ws.len() - 1]));
        assert(t.push(ws.last()) =~= ws);
    }
}

/// The kept words of a text, and what is known of them.
proof fn lemma_kept_of_text(text: Seq<char>)
    ensures
        forall|i: int| 0 <= i < kept_words(words(text)).len() ==> {
            &&& #[trigger] kept_words(words(text))[i].len() > 0
            &&& free_of(kept_words(words(text))[i], CharClass::Whitespace)
            &&& !is_filler_word(kept_words(words(text))[i])
        },
{
    let ps = split_by(text, CharClass::Whitespace);
    lemma_split_pieces_free(text, CharClass::Whitespace);
    let p = |x: Seq<char>| free_of(x, CharClass::Whitespace);
    assert forall|i: int| 0 <= i < ps.len() implies p(#[trigger] ps[i]) by {}
    lemma_nonempty_keeps(ps, p);
    let ws = nonempty(ps);
    assert forall|i: int| 0 <= i < ws.len() implies #[trigger] ws[i].len() > 0 && free_of(
        ws[i],
        CharClass::Whitespace,
    ) by {
        assert(p(ws[i]));
    }
    lemma_kept_keeps(ws);
}

/// Words joined by single spaces have no blanks at their ends and split
/// back into the same words.
proof fn lemma_joined_words(k: Seq<Seq<char>>)
    requires
        forall|i: int| 0 <= i < k.len() ==> #[trigger] k[i].len() > 0 && free_of(k[i], CharClass::Whitespace),
    ensures
        trim(join(k, " "@)) == join(k, " "@),
        words(join(k, " "@)) == k,
{
    reveal_strlit(" ");
    let j = join(k, " "@);
    assert(" "@ == seq![' ']);
    if k.len() == 0 {
        assert(j == Seq::<char>::empty());
        lemma_trim_start_at(j, CharClass::Whitespace, 0);
        lemma_trim_end_at(j, CharClass::Whitespace, 0);
        assert(j.subrange(0, 0) =~= j);
        assert(split_by(j, CharClass::Whitespace) == seq![Seq::<char>::empty()]);
        assert(seq![Seq::<char>::empty()].drop_last() =~= Seq::<Seq<char>>::empty());
        assert(nonempty(Seq::<Seq<char>>::empty()) == Seq::<Seq<char>>::empty());
        assert(nonempty(seq![Seq::<char>::empty()]) =~= Seq::<Seq<char>>::empty());
    } else {
        assert(k[0].len() > 0 && free_of(k[0], CharClass::Whitespace));
        lemma_join_first(k, " "@);
        assert(!in_class(CharClass::Whitespace, k[0][0]));
        lemma_trim_start_at(j, CharClass::Whitespace, 0);
        assert(j.subrange(0, j.len() as int) =~= j);
        assert(k[k.len() - 1].len() > 0 && free_of(k[k.len() - 1], CharClass::Whitespace));
        lemma_join_last(k, " "@);
        let l = k.last();
        assert(!in_class(CharClass::Whitespace, l[l.len() - 1]));
        lemma_trim_end_at(j, CharClass::Whitespace, j.len() as int);
        assert(in_class(CharClass::Whitespace, ' '));
        assert forall|i: int| 0 <= i < k.len() implies free_of(#[trigger] k[i], CharClass::Whitespace) by {}
        lemma_split_join(k, ' ', CharClass::Whitespace);
        assert forall|i: int| 0 <= i < k.len() implies #[trigger] k[i].len() > 0 by {}
        lemma_nonempty_id(k);
    }
}

/// Removing the fillers twice removes nothing more: the result has no
/// filler word left and its other words stay as they are.
pub proof fn lemma_remove_fillers_idempotent(text: Seq<char>)
    ensures
        spec_remove_filler_words(spec_remove_filler_words(text)) == spec_remove_filler_words(text),
{
    let k = kept_words(words(text));
    lemma_kept_of_text(text);
    assert forall|i: int| 0 <= i < k.len() implies #[trigger] k[i].len() > 0 && free_of(
        k[i],
        CharClass::Whitespace,
    ) by {}
    lemma_joined_words(k);
    assert forall|i: int| 0 <= i < k.len() implies !is_filler_word(#[trigger] k[i]) by {}
    lemma_kept_id(k);
}

/// A speech-recognition engine, implemented by each engine backend.
pub trait Transcriber: Send + Sync {
    /// Recognises mono 16-bit audio.
    fn transcribe(&self, samples: &[i16], sample_rate: u32) -> Result<String, ArcanaError>;

    /// Whether the engine takes audio while recording (partial results).
    fn supports_streaming(&self) -> bool;

    /// Takes audio while recording (streaming engines only); an engine that
    /// does not stream accepts and ignores it.
    fn accept_waveform(&self, _samples: &[i16]) -> (r: Result<(), ArcanaError>)
        default_ensures
            r is Ok,
    {
        Ok(())
    }

    /// The partial result so far (streaming engines only); empty for an
    /// engine that does not stream.
    fn partial_result(&self) -> (r: String)
        default_ensures
            r@ == Seq::<char>::empty(),
    {
        String::new()
    }

    /// Forgets the state of the previous recording.
    fn reset(&self) {
    }

    /// Whether a running recognition can be interrupted; not unless the
    /// engine says so.
    fn supports_cancel(&self) -> (r: bool)
        default_ensures
            !r,
    {
        false
    }

    /// Asks a running recognition to stop.
    fn cancel(&self) {
    }
}

/// The pieces of a sequence of texts, joined.
pub fn concat_strings(parts: &Vec<String>) -> (r: Vec<char>)
    ensures
        r@ == concat(sviews(parts@)),
{
    let mut out: Vec<char> = Vec::new();
    let mut i: usize = 0;
    while i < parts.len()
        invariant
            i <= parts.len(),
            out@ == concat(sviews(parts@).take(i as int)),
        decreases parts.len() - i,
    {
        assert(sviews(parts@).take(i + 1).drop_last() =~= sviews(parts@).take(i as int));
        assert(sviews(parts@).take(i + 1).last() == parts@[i as int]@);
        push_str(&mut out, parts[i].as_str());
        i = i + 1;
    }
    assert(sviews(parts@).take(parts@.len() as int) =~= sviews(parts@));
    out
}

/// The closing phrases Whisper makes up over trailing silence, in the
/// order they are looked for.
pub open spec fn hallucinations() -> Seq<Seq<char>> {
    seq![
        "Продолжение следует..."@,
        "Продолжение следует."@,
        "Продолжение следует"@,
        "Спасибо за просмотр."@,
        "Спасибо за просмотр!"@,
        "Субтитры сделал DimaTorzworworworworworwor"@,
    ]
}

/// The first of the phrases that ends the text.
pub open spec fn first_ending(t: Seq<char>, hs: Seq<Seq<char>>) -> Option<Seq<char>>
    decreases hs.len(),
{
    if hs.len() == 0 {
        None
    } else if ends_with(t, hs[0]) {
        Some(hs[0])
    } else {
        first_ending(t, hs.drop_first())
    }
}

/// Whisper's transcript from its segments: the segments joined and trimmed;
/// when it ends with one of the made-up closing phrases, the first such
/// phrase is cut off together with the white space before it.
pub open spec fn spec_whisper_text(segments: Seq<Seq<char>>) -> Seq<char> {
    let t = trim(concat(segments));
    match first_ending(t, hallucinations()) {
        Some(h) => trim_end_by(t.subrange(0, t.len() - h.len()), CharClass::Whitespace),
        None => t,
    }
}

fn cut_ending(t: &Vec<char>, h: &str) -> (r: Option<Vec<char>>)
    ensures
        ends_with(t@, h@) ==> (r matches Some(v) && v@ == trim_end_by(
            t@.subrange(0, t@.len() - h@.len()),
            CharClass::Whitespace,
        )),
        !ends_with(t@, h@) ==> r is None,
{
    let hv = chars_of(h);
    if ends_with_vec(t, &hv) {
        let head = slice_vec(t, 0, t.len() - hv.len());
        Some(trim_end_vec(&head, &CharClass::Whitespace))
    } else {
        None
    }
}

/// Builds Whisper's transcript from its segments.
pub fn whisper_text(segments: &Vec<String>) -> (r: String)
    ensures
        r@ == spec_whisper_text(sviews(segments@)),
{
    let joined = concat_strings(segments);
    let t = trim_vec(&joined, &CharClass::Whitespace);
    proof {
        reveal_with_fuel(first_ending, 7);
    }
    let found = if let Some(v) = cut_ending(&t, "Продолжение следует...") {
        Some(v)
    } else if let Some(v) = cut_ending(&t, "Продолжение следует.") {
        Some(v)
    } else if let Some(v) = cut_ending(&t, "Продолжение следует") {
        Some(v)
    } else if let Some(v) = cut_ending(&t, "Спасибо за просмотр.") {
        Some(v)
    } else if let Some(v) = cut_ending(&t, "Спасибо за просмотр!") {
        Some(v)
    } else if let Some(v) = cut_ending(&t, "Субтитры сделал DimaTorzworworworworworwor") {
        Some(v)
    } else {
        None
    };
    match found {
        Some(v) => string_of(&v),
        None => string_of(&t),
    }
}

/// The error of a failed Whisper run: a cancellation when the user asked
/// to stop, else the recognizer's failure.
pub fn whisper_failure(cancel_requested: bool, message: &str) -> (r: ArcanaError)
    ensures
        cancel_requested ==> r is Cancelled,
        !cancel_requested ==> (r matches ArcanaError::Recognizer(m) && m@ == "Ошибка транскрибации Whisper: "@
            + message@),
{
    if cancel_requested {
        ArcanaError::Cancelled
    } else {
        let mut m = chars_of("Ошибка транскрибации Whisper: ");
        push_str(&mut m, message);
        ArcanaError::Recognizer(string_of(&m))
    }
}

} // verus!
