use arcanaglyph::spectral::{StftConfig, reflect_pad, stft_frame_count};

#[test]
fn test_reflect_pad_basic() {
    let out = reflect_pad(&[1.0f32, 2.0, 3.0, 4.0], 2);
    assert_eq!(out, vec![3.0, 2.0, 1.0, 2.0, 3.0, 4.0, 3.0, 2.0]);
}

#[test]
fn test_reflect_pad_short_no_panic() {
    let out = reflect_pad(&[7.0f32], 2);
    assert_eq!(out.len(), 1 + 2 * 2);
}

#[test]
fn stft_frame_counts() {
    let cfg = StftConfig { n_fft: 400, hop_length: 160, win_length: 400, center: false };
    assert_eq!(stft_frame_count(16000, &cfg), 98);
    assert_eq!(stft_frame_count(399, &cfg), 0);
    let centered = StftConfig { center: true, ..cfg };
    assert_eq!(stft_frame_count(16000, &centered), 101);
    assert_eq!(stft_frame_count(0, &centered), 1);
}
