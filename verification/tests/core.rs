use arcanaglyph::asr::{feat_extract_output_lengths, rnnt_tokens_to_text};
use arcanaglyph::audio::{wpctl_description, StopReason, compute_rms_level, pcm_from_le_bytes, pcm_to_le_bytes, should_stop_on_silence};
use arcanaglyph::engine::{build_history_entry, classify_delivery, mic_error_message, ttl_from_minutes};
use arcanaglyph::error::ArcanaError;
use arcanaglyph::preprocess::trim_silence;
use arcanaglyph::transcript::{remove_filler_words, whisper_failure, whisper_text};
use std::time::Duration;

fn nanos(secs: u64) -> u128 {
    Duration::from_secs(secs).as_nanos()
}

#[test]
fn test_compute_rms_level() {
    assert_eq!(compute_rms_level(&[0; 160]), (0, false));
    let (level, voiced) = compute_rms_level(&[3000; 160]);
    assert_eq!(level, 100);
    assert!(voiced);
    assert_eq!(compute_rms_level(&[]), (0, false));
}

#[test]
fn rms_level_is_capped_and_thresholded() {
    // rms 1500 is half scale.
    assert_eq!(compute_rms_level(&[1500; 100]), (50, true));
    // rms 10 is not yet a live signal, 11 is.
    assert_eq!(compute_rms_level(&[10; 100]).1, false);
    assert_eq!(compute_rms_level(&[11; 100]).1, true);
    // Above full scale stays at 100.
    assert_eq!(compute_rms_level(&[i16::MIN; 10]).0, 100);
}

#[test]
fn test_should_stop_on_silence() {
    let s = nanos;
    assert!(matches!(
        should_stop_on_silence(true, true, s(3), s(2), s(1), s(10)),
        Some(StopReason::Vad)
    ));
    assert!(matches!(
        should_stop_on_silence(false, true, s(5), s(2), s(11), s(10)),
        Some(StopReason::Timeout)
    ));
    assert!(should_stop_on_silence(true, false, s(9), s(2), s(1), s(10)).is_none());
}

#[test]
fn pcm_roundtrip_and_layout() {
    let samples: Vec<i16> = vec![0, 1, -1, i16::MAX, i16::MIN, 258];
    let bytes = pcm_to_le_bytes(&samples);
    assert_eq!(&bytes[..6], &[0, 0, 1, 0, 0xff, 0xff]);
    assert_eq!(bytes.len(), 12);
    assert_eq!(pcm_from_le_bytes(&bytes), samples);
    // A trailing odd byte is dropped.
    assert_eq!(pcm_from_le_bytes(&[1, 0, 7]), vec![1i16]);
}

#[test]
fn test_trim_silence_short_audio_untouched() {
    let samples = vec![0i16; 100];
    assert_eq!(trim_silence(&samples, 16000).len(), 100);
}

#[test]
fn test_trim_silence_all_silence_returns_full() {
    let samples = vec![0i16; 16000];
    assert_eq!(trim_silence(&samples, 16000).len(), 16000);
}

#[test]
fn test_trim_silence_trims_edges_with_padding() {
    let mut samples = vec![0i16; 16000];
    for s in samples.iter_mut().take(11200).skip(4800) {
        *s = 1000;
    }
    let trimmed = trim_silence(&samples, 16000);
    assert_eq!(trimmed.len(), 12800);
    assert!(trimmed.len() < samples.len());
}

#[test]
fn trim_silence_keeps_the_exact_window() {
    let mut samples = vec![0i16; 16000];
    for s in samples.iter_mut().take(11200).skip(4800) {
        *s = 1000;
    }
    let trimmed = trim_silence(&samples, 16000);
    assert_eq!(trimmed, &samples[1600..14400]);
}

#[test]
fn engine_test_ttl_from_minutes() {
    assert!(ttl_from_minutes(0).is_none());
    assert_eq!(ttl_from_minutes(5).map(Duration::from_secs), Some(Duration::from_secs(300)));
}

#[test]
fn lru_test_ttl_from_minutes() {
    assert!(ttl_from_minutes(0).is_none());
    assert_eq!(ttl_from_minutes(5).map(Duration::from_secs), Some(Duration::from_secs(300)));
}

#[test]
fn engine_test_classify_delivery() {
    let d = classify_delivery(true, false);
    assert!(d.should_type && !d.should_focus);
    let d = classify_delivery(true, true);
    assert!(!d.should_type && d.should_focus);
    let d = classify_delivery(false, false);
    assert!(!d.should_type && !d.should_focus);
}

#[test]
fn record_session_test_classify_delivery() {
    let d = classify_delivery(true, false);
    assert!(d.should_type && !d.should_focus);
    let d = classify_delivery(true, true);
    assert!(!d.should_type && d.should_focus);
    let d = classify_delivery(false, false);
    assert!(!d.should_type && !d.should_focus);
}

#[test]
fn engine_test_build_history_entry() {
    assert_eq!(build_history_entry("э привет", true), "привет");
    assert_eq!(build_history_entry("э привет", false), "э привет");
}

#[test]
fn record_session_test_build_history_entry() {
    assert_eq!(build_history_entry("э привет", true), "привет");
    assert_eq!(build_history_entry("э привет", false), "э привет");
}

#[test]
fn test_mic_error_message() {
    assert!(mic_error_message(Ok(Ok(()))).is_none());
    assert!(mic_error_message(Ok(Err(ArcanaError::AudioDevice("нет".into())))).is_some());
}

#[test]
fn mic_error_message_is_the_error_text() {
    assert_eq!(
        mic_error_message(Ok(Err(ArcanaError::AudioDevice("нет".into())))).as_deref(),
        Some("Ошибка аудиоустройства: нет")
    );
}

#[test]
fn test_remove_fillers_basic() {
    assert_eq!(remove_filler_words("э привет э-э как дела"), "привет как дела");
}

#[test]
fn test_remove_fillers_case_insensitive() {
    assert_eq!(remove_filler_words("Э привет Ээ мир"), "привет мир");
}

#[test]
fn test_remove_fillers_preserves_normal_words() {
    assert_eq!(remove_filler_words("это эхо нужно"), "это эхо нужно");
}

#[test]
fn test_remove_fillers_with_punctuation() {
    assert_eq!(remove_filler_words("э, привет мм, мир"), "привет мир");
}

#[test]
fn test_remove_fillers_empty_result() {
    assert_eq!(remove_filler_words("э э-э мм"), "");
}

#[test]
fn test_remove_fillers_extended() {
    assert_eq!(remove_filler_words("э-э-э привет э-ээ мир"), "привет мир");
    assert_eq!(remove_filler_words("Э-Э-Э тест Э-ЭЭ"), "тест");
}

#[test]
fn remove_fillers_collapses_whitespace() {
    assert_eq!(remove_filler_words("  раз\t\nдва  "), "раз два");
    assert_eq!(remove_filler_words(""), "");
}

#[test]
fn test_feat_output_lengths() {
    assert_eq!(feat_extract_output_lengths(100), 13);
    assert_eq!(feat_extract_output_lengths(50), 7);
}

#[test]
fn feat_output_lengths_small_inputs() {
    assert_eq!(feat_extract_output_lengths(1), 1);
    assert_eq!(feat_extract_output_lengths(8), 1);
    assert_eq!(feat_extract_output_lengths(9), 2);
}

#[test]
fn tokens_to_text_joins_sentencepiece() {
    let vocab: Vec<String> = vec![
        "\u{2581}при".to_string(),
        "вет".to_string(),
        "\u{2581}мир".to_string(),
        "<unk>".to_string(),
    ];
    assert_eq!(rnnt_tokens_to_text(&[0, 1, 2], &vocab), "привет мир");
    assert_eq!(rnnt_tokens_to_text(&[0, 3, 99], &vocab), "при");
}

#[test]
fn wpctl_description_takes_first_named_source() {
    let out = "id 54, type PipeWire:Interface:Node\n    node.name = \"alsa_input\"\n  * node.description = \"Built-in Audio Аналоговый стерео\"\n    node.description = \"Other\"\n";
    assert_eq!(wpctl_description(out), Some("Built-in Audio Аналоговый стерео".to_string()));
    assert_eq!(wpctl_description("\tnode.description=\"Mic\"\r\n"), Some("Mic".to_string()));
    assert_eq!(wpctl_description("  node.description = \"\"\n node.description = \"B\""), Some("B".to_string()));
    assert_eq!(wpctl_description("node.name = \"x\"\n"), None);
    assert_eq!(wpctl_description(""), None);
}

#[test]
fn whisper_text_joins_segments_and_drops_closing_phrase() {
    let segs = vec![" Привет,".to_string(), " мир. Продолжение следует...".to_string()];
    assert_eq!(whisper_text(&segs), "Привет, мир.");
    let segs = vec![" Спасибо за просмотр!".to_string()];
    assert_eq!(whisper_text(&segs), "");
    let segs = vec!["  текст  ".to_string()];
    assert_eq!(whisper_text(&segs), "текст");
    // Only the first matching phrase is cut.
    let segs = vec!["а Продолжение следует. Продолжение следует.".to_string()];
    assert_eq!(whisper_text(&segs), "а Продолжение следует.");
    assert_eq!(whisper_text(&vec![]), "");
}

#[test]
fn whisper_failure_tells_cancel_from_error() {
    assert!(matches!(whisper_failure(true, "x"), ArcanaError::Cancelled));
    match whisper_failure(false, "code -6") {
        ArcanaError::Recognizer(m) => assert_eq!(m, "Ошибка транскрибации Whisper: code -6"),
        other => panic!("unexpected {:?}", other),
    }
}
