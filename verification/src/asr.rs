use vstd::prelude::*;

use crate::text::{
    CharClass, chars_of, eq_str, push_all, replace_char, replace_char_vec, string_of, trim,
    trim_vec,
};

verus! {

/// One stride-2 convolution: `(l - 1) / 2 + 1`.
pub open spec fn conv_len(l: int) -> int {
    (l - 1) / 2 + 1
}

/// The length of the encoder's output after three stride-2 convolutions.
pub fn feat_extract_output_lengths(input_length: usize) -> (r: usize)
    requires
        input_length >= 1,
    ensures
        r == conv_len(conv_len(conv_len(input_length as int))),
{
    let mut l = input_length;
    let mut i: u32 = 0;
    while i < 3
        invariant
            i <= 3,
            l >= 1,
            l as int == (if i == 0 {
                input_length as int
            } else if i == 1 {
                conv_len(input_length as int)
            } else if i == 2 {
                conv_len(conv_len(input_length as int))
            } else {
                conv_len(conv_len(conv_len(input_length as int)))
            }),
        decreases 3 - i,
    {
        l = (l - 1) / 2 + 1;
        i = i + 1;
    }
    l
}

/// Whether the token is a marker rather than text.
pub open spec fn is_marker(t: Seq<char>) -> bool {
    t == "<blk>"@ || t == "<unk>"@
}

/// The text pieces of the decoded tokens, in order: ids outside the
/// vocabulary and marker tokens are skipped.
pub open spec fn token_text(ids: Seq<usize>, vocab: Seq<Seq<char>>) -> Seq<char>
    decreases ids.len(),
{
    if ids.len() == 0 {
        Seq::empty()
    } else {
        let prev = token_text(ids.drop_last(), vocab);
        let id = ids.last() as int;
        if id < vocab.len() && !is_marker(vocab[id]) {
            prev + vocab[id]
        } else {
            prev
        }
    }
}

/// The text of a token sequence: the SentencePiece pieces joined, the word
/// marker `▁` read as a space, the ends trimmed.
pub open spec fn spec_rnnt_tokens_to_text(ids: Seq<usize>, vocab: Seq<Seq<char>>) -> Seq<char> {
    trim(replace_char(token_text(ids, vocab), '\u{2581}', ' '))
}

/// Builds the text from decoded subword tokens (SentencePiece: `▁` is a
/// space).
pub fn rnnt_tokens_to_text(token_ids: &[usize], vocab: &[String]) -> (r: String)
    ensures
        r@ == spec_rnnt_tokens_to_text(token_ids@, crate::text::sviews(vocab@)),
{
    let ghost vs = crate::text::sviews(vocab@);
    let mut text: Vec<char> = Vec::new();
    let mut i: usize = 0;
    while i < token_ids.len()
        invariant
            i <= token_ids.len(),
            vs == crate::text::sviews(vocab@),
            text@ == token_text(token_ids@.take(i as int), vs),
        decreases token_ids.len() - i,
    {
        let id = token_ids[i];
        assert(token_ids@.take(i + 1).drop_last() =~= token_ids@.take(i as int));
        assert(token_ids@.take(i + 1).last() == id);
        if id < vocab.len() {
            let tok = chars_of(vocab[id].as_str());
            assert(vs[id as int] == tok@);
            if !(eq_str(&tok, "<blk>") || eq_str(&tok, "<unk>")) {
                push_all(&mut text, &tok);
            }
        }
        i = i + 1;
    }
    assert(token_ids@.take(token_ids@.len() as int) =~= token_ids@);
    let spaced = replace_char_vec(&text, '\u{2581}', ' ');
    let t = trim_vec(&spaced, &CharClass::Whitespace);
    string_of(&t)
}

} // verus!
