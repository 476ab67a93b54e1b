use arcanaglyph::error::ArcanaError;
use arcanaglyph::qwen::{
    asr_text, check_embed_size, build_prompt_ids, chunk_lengths, fuse_sources, lens_after_cnn, max_chunk_len, pad_mel_chunks, unpad_conv_output, EmbedSource, Generation, AUDIO_END_ID, AUDIO_PAD_ID,
    AUDIO_START_ID, ENDOFTEXT_ID, IM_END_ID, IM_START_ID, MAX_NEW_TOKENS, NEWLINE_ID,
};

#[test]
fn prompt_wraps_audio_placeholders_in_chat_turns() {
    let ids = build_prompt_ids(&[10], &[20, 21], &[30], 2);
    assert_eq!(
        ids,
        vec![
            IM_START_ID, 10, NEWLINE_ID, IM_END_ID, NEWLINE_ID, IM_START_ID, 20, 21, NEWLINE_ID, AUDIO_START_ID,
            AUDIO_PAD_ID, AUDIO_PAD_ID, AUDIO_END_ID, IM_END_ID, NEWLINE_ID, IM_START_ID, 30, NEWLINE_ID,
        ]
    );
    assert_eq!(build_prompt_ids(&[], &[], &[], 0).len(), 12);
}

#[test]
fn mel_chunks_of_one_hundred_frames() {
    assert_eq!(chunk_lengths(250), vec![100, 100, 50]);
    assert_eq!(chunk_lengths(200), vec![100, 100]);
    assert_eq!(chunk_lengths(1), vec![1]);
    assert!(chunk_lengths(0).is_empty());
}

#[test]
fn placeholders_take_audio_rows_while_they_last() {
    let ids = [7, AUDIO_PAD_ID, AUDIO_PAD_ID, 8, AUDIO_PAD_ID];
    assert_eq!(
        fuse_sources(&ids, 2),
        vec![
            EmbedSource::Token(7),
            EmbedSource::Audio(0),
            EmbedSource::Audio(1),
            EmbedSource::Token(8),
            EmbedSource::Token(AUDIO_PAD_ID),
        ]
    );
}

#[test]
fn generation_stops_at_end_token_and_drops_it() {
    let mut g = Generation::start(5);
    assert!(g.wants_step());
    assert_eq!(g.next_input(18), (5, 18));
    g.push(6);
    assert_eq!(g.next_input(18), (6, 19));
    g.push(IM_END_ID);
    assert!(!g.wants_step());
    assert_eq!(g.finish(), vec![5, 6]);
    let g = Generation::start(ENDOFTEXT_ID);
    assert!(!g.wants_step());
    assert!(g.finish().is_empty());
}

#[test]
fn generation_is_capped() {
    let mut g = Generation::start(1);
    let mut steps = 0;
    while g.wants_step() {
        g.push(1);
        steps += 1;
    }
    assert_eq!(steps, MAX_NEW_TOKENS - 1);
    assert_eq!(g.finish().len(), MAX_NEW_TOKENS);
}

#[test]
fn transcript_follows_the_marker() {
    assert_eq!(asr_text("language Russian<asr_text> привет мир "), "привет мир");
    assert_eq!(asr_text("  просто текст\n"), "просто текст");
    assert_eq!(asr_text("a<asr_text>b<asr_text>c"), "b<asr_text>c");
    assert_eq!(asr_text("<asr_text>"), "");
}

#[test]
fn chunk_token_counts_after_convolutions() {
    assert_eq!(lens_after_cnn(&[100, 100, 50]), vec![13, 13, 7]);
    assert_eq!(lens_after_cnn(&[1]), vec![1]);
}

#[test]
fn conv_output_loses_its_padding_rows() {
    // Two chunks of 3 rows of 2 values; the first keeps 2 rows, the second 1.
    let data: Vec<u8> = (0..12).collect();
    assert_eq!(unpad_conv_output(&data, &[2, 1], 3, 2), vec![0, 1, 2, 3, 6, 7]);
    assert!(unpad_conv_output(&data, &[], 3, 2).is_empty());
}

#[test]
fn mel_chunks_are_padded_to_the_longest() {
    // Two bands of five frames: band 0 = 0..5, band 1 = 10..15; chunks of 3 and 2 frames.
    let mel: Vec<i32> = vec![0, 1, 2, 3, 4, 10, 11, 12, 13, 14];
    let lens = [3usize, 2];
    let max = max_chunk_len(&lens);
    assert_eq!(max, 3);
    assert_eq!(
        pad_mel_chunks(&mel, 2, 5, &lens, max, -1),
        vec![0, 1, 2, 10, 11, 12, 3, 4, -1, 13, 14, -1]
    );
    assert_eq!(max_chunk_len(&[]), 0);
}

#[test]
fn embedding_table_size_is_checked() {
    assert!(check_embed_size(151936 * 1024 * 4).is_ok());
    match check_embed_size(10) {
        Err(ArcanaError::ModelLoad(m)) => assert_eq!(m, "embed_tokens.bin: ожидается 622329856 байт, получено 10"),
        other => panic!("unexpected {:?}", other),
    }
}

#[test]
fn prompt_placeholders_take_every_feature_once() {
    let ids = build_prompt_ids(&[9125], &[872], &[77091], 4);
    let sources = fuse_sources(&ids, 4);
    let audio: Vec<usize> = sources
        .iter()
        .filter_map(|s| match s {
            EmbedSource::Audio(k) => Some(*k),
            EmbedSource::Token(_) => None,
        })
        .collect();
    assert_eq!(audio, vec![0, 1, 2, 3]);
}
