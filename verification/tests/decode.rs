use arcanaglyph::decode::{
    ctc_blank_id, ctc_collapse_frames, ctc_decode_frames, extract_encoder_frames, find_blank, parse_vocab, rnnt_blank_id,
    RnntSearch,
    ENC_DIM, MAX_TOKENS_PER_STEP,
};

fn vocab(words: &[&str]) -> Vec<String> {
    words.iter().map(|w| w.to_string()).collect()
}

#[test]
fn ctc_decode_collapses_repeats_and_blanks() {
    let v = vocab(&["\u{2581}при", "вет", "\u{2581}мир", "<blk>"]);
    // Best tokens per frame: 0, 0 (repeat), 3 (blank), 1, 3 (blank), 2.
    assert_eq!(ctc_collapse_frames(&[0, 0, 3, 1, 3, 2], 3), vec![0, 1, 2]);
    assert_eq!(ctc_decode_frames(&[0, 0, 3, 1, 3, 2], &v), "привет мир");
}

#[test]
fn ctc_decode_all_blank_is_empty() {
    let v = vocab(&["а", "<blk>"]);
    assert_eq!(ctc_decode_frames(&[1, 1], &v), "");
}

#[test]
fn ctc_repeat_after_blank_is_kept() {
    assert_eq!(ctc_collapse_frames(&[2, 9, 2, 2, 5], 9), vec![2, 2, 5]);
    assert_eq!(ctc_collapse_frames(&[], 0), Vec::<usize>::new());
}

#[test]
fn blank_ids_prefer_the_blank_token() {
    let v = vocab(&["a", "<blk>", "b", "<blk>"]);
    assert_eq!(find_blank(&v), Some(1));
    assert_eq!(ctc_blank_id(&v), 1);
    let v = vocab(&["a", "b", "c"]);
    assert_eq!(find_blank(&v), None);
    assert_eq!(ctc_blank_id(&v), 2);
    assert_eq!(rnnt_blank_id(&v), 2);
    assert_eq!(rnnt_blank_id(&[]), 0);
}

#[test]
fn rnnt_search_caps_tokens_per_frame() {
    let mut s = RnntSearch::new(9);
    assert!(!s.wants_joint());
    s.start_frame();
    let mut fed = 0;
    while s.wants_joint() {
        assert!(s.on_best_token(4));
        fed += 1;
    }
    assert_eq!(fed, MAX_TOKENS_PER_STEP);
    s.start_frame();
    assert!(s.wants_joint());
    assert!(!s.on_best_token(9));
    assert!(!s.wants_joint());
    assert_eq!(s.hyp, vec![4, 4, 4]);
}

#[test]
fn extract_frames_d_major_layout() {
    let data = vec![0.0f32; 6];
    assert!(extract_encoder_frames(&[1, 2, 3], &data, None).is_empty());
    assert!(extract_encoder_frames(&[1, 768], &data, Some(1)).is_empty());
}

#[test]
fn extract_frames_both_layouts() {
    let t = 3usize;
    let data: Vec<u32> = (0..(ENC_DIM * t) as u32).collect();
    let d_major = extract_encoder_frames(&[1, ENC_DIM as i64, t as i64], &data, None);
    assert_eq!(d_major.len(), 3);
    assert_eq!(d_major[1][0], 1);
    assert_eq!(d_major[1][2], (2 * t + 1) as u32);
    let t_major = extract_encoder_frames(&[1, t as i64, ENC_DIM as i64], &data, Some(2));
    assert_eq!(t_major.len(), 2);
    assert_eq!(t_major[1][0], ENC_DIM as u32);
    assert_eq!(t_major[1].len(), ENC_DIM);
}

#[test]
fn vocabulary_lines_give_their_first_word() {
    let content = "\u{2581}при 0\nвет 1\n\n<blk> 2\r\n   \n";
    assert_eq!(parse_vocab(content), vec!["\u{2581}при", "вет", "<blk>", ""]);
    assert!(parse_vocab("").is_empty());
}

#[test]
fn clean_frames_pass_through_ctc() {
    assert_eq!(ctc_collapse_frames(&[1, 2, 1, 3], 0), vec![1, 2, 1, 3]);
    assert!(ctc_collapse_frames(&[0, 0, 0], 0).is_empty());
}

/// Best token of each frame of row-major logits (ties keep the last).
fn best_tokens(logits: &[f32], t_out: usize, vocab_size: usize, blank: usize) -> Vec<usize> {
    (0..t_out)
        .map(|t| {
            logits[t * vocab_size..(t + 1) * vocab_size]
                .iter()
                .enumerate()
                .max_by(|a, b| a.1.partial_cmp(b.1).unwrap_or(std::cmp::Ordering::Equal))
                .map(|(i, _)| i)
                .unwrap_or(blank)
        })
        .collect()
}

#[test]
fn test_ctc_greedy_decode_basic() {
    let v = vocab(&["\u{2581}при", "вет", "\u{2581}мир", "<blk>"]);
    let logits: Vec<f32> = vec![
        10.0, 0.0, 0.0, 0.0,
        10.0, 0.0, 0.0, 0.0,
        0.0, 0.0, 0.0, 10.0,
        0.0, 10.0, 0.0, 0.0,
        0.0, 0.0, 0.0, 10.0,
        0.0, 0.0, 10.0, 0.0,
    ];
    let frames = best_tokens(&logits, 6, 4, ctc_blank_id(&v));
    assert_eq!(ctc_decode_frames(&frames, &v), "привет мир");
}

#[test]
fn test_ctc_greedy_decode_empty() {
    let v = vocab(&["а", "<blk>"]);
    let logits: Vec<f32> = vec![0.0, 10.0, 0.0, 10.0];
    let frames = best_tokens(&logits, 2, 2, ctc_blank_id(&v));
    assert_eq!(ctc_decode_frames(&frames, &v), "");
}
