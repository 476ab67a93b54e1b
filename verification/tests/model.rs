use arcanaglyph::engine::{PoolEntry, evict_candidates, lru_eviction_candidates, trigger_debounced, TRIGGER_DEBOUNCE_NANOS};
use arcanaglyph::error::{ApiError, ApiErrorKind, ArcanaError};
use arcanaglyph::platform::TargetOs;
use arcanaglyph::event::{EmitPayload, EngineEvent, TrayCurrentState, TrayState, WidgetAction, engine_event_to_emit, tray_reaction};
use arcanaglyph::history::{HistoryEntry, Recording, Transcription, audio_data, export_entries, retention_cutoff};
use arcanaglyph::widget::{format_gvariant_strings, parse_gvariant_strings, toggle_extension, ext_versions_match};

fn entry(name: &str, idle_secs: u64, in_use: bool) -> PoolEntry {
    PoolEntry { name: name.to_string(), idle_nanos: idle_secs as u128 * 1_000_000_000, in_use }
}

#[test]
fn lru_candidates_skip_active_recent_and_busy() {
    let pool = vec![entry("whisper", 600, false), entry("gigaam", 1, false)];
    let ttl = 300u128 * 1_000_000_000;
    assert_eq!(lru_eviction_candidates(&pool, "gigaam", ttl), vec!["whisper".to_string()]);
    let pool = vec![entry("whisper", 600, true)];
    assert!(lru_eviction_candidates(&pool, "gigaam", ttl).is_empty());
    let pool = vec![entry("whisper", 600, false)];
    assert!(lru_eviction_candidates(&pool, "whisper", ttl).is_empty());
}

#[test]
fn eviction_rechecks_active_and_busy() {
    let mut pool = vec![entry("a", 600, false), entry("b", 600, false), entry("c", 600, true)];
    let cands = vec!["a".to_string(), "b".to_string(), "c".to_string()];
    evict_candidates(&mut pool, &cands, "b");
    let names: Vec<&str> = pool.iter().map(|e| e.name.as_str()).collect();
    assert_eq!(names, vec!["b", "c"]);
}

#[test]
fn double_trigger_is_swallowed_within_window() {
    let mut last = None;
    assert!(!trigger_debounced(&mut last, 1_000));
    assert!(trigger_debounced(&mut last, 1_000 + TRIGGER_DEBOUNCE_NANOS - 1));
    assert_eq!(last, Some(1_000));
    assert!(!trigger_debounced(&mut last, 1_000 + TRIGGER_DEBOUNCE_NANOS));
    assert_eq!(last, Some(1_000 + TRIGGER_DEBOUNCE_NANOS));
    // A clock that runs backwards counts as no time passed.
    assert!(trigger_debounced(&mut last, 5));
}

#[test]
fn api_error_from_arcana_variants() {
    let e = ApiError::from_arcana(&ArcanaError::ModelLoad("write failed: No space left on device".into()));
    assert_eq!(e.kind, ApiErrorKind::DiskSpace);
    let e = ApiError::from_arcana(&ArcanaError::ModelLoad("expected 10 tensors, got 3".into()));
    assert_eq!(e.kind, ApiErrorKind::ModelLoad);
    assert!(e.hint.unwrap().starts_with("Файл модели повреждён"));
    let e = ApiError::from_arcana(&ArcanaError::Database("x".into()));
    assert_eq!((e.kind, e.message.as_str(), e.hint), (ApiErrorKind::Internal, "x", None));
    let e = ApiError::from_arcana(&ArcanaError::EngineNotAvailable("vosk".into()));
    assert_eq!(e.message, "Движок 'vosk' не включён в эту сборку");
    let e = ApiError::from_arcana(&ArcanaError::Cancelled);
    assert_eq!(e.kind, ApiErrorKind::Cancelled);
    assert!(e.hint.is_none());
}

#[test]
fn api_error_from_message_reads_prefixes() {
    let e = ApiError::from_message("Ошибка сети: timeout");
    assert_eq!(e.kind, ApiErrorKind::Network);
    assert_eq!(e.message, "timeout");
    let e = ApiError::from_message("Микрофон не найден");
    assert_eq!(e.kind, ApiErrorKind::AudioDevice);
    assert_eq!(e.message, "Микрофон не найден");
    let e = ApiError::from_message("Транскрибация отменена");
    assert_eq!(e.kind, ApiErrorKind::Cancelled);
    let e = ApiError::from_message("boom");
    assert_eq!((e.kind, e.hint), (ApiErrorKind::Internal, None));
}

#[test]
fn error_text_round_trips_through_from_message() {
    let err = ArcanaError::AudioStream("занято".into());
    let e = ApiError::from_message(&err.to_string());
    assert_eq!(e.kind, ApiErrorKind::AudioStream);
    assert_eq!(e.message, "занято");
}

#[test]
fn test_engine_event_to_emit_names_and_payloads() {
    assert_eq!(engine_event_to_emit(&EngineEvent::RecordingStarted).unwrap().0, "engine://recording-started");
    assert_eq!(engine_event_to_emit(&EngineEvent::ModelLoaded).unwrap().0, "engine://model-loaded");
    let (name, payload) = engine_event_to_emit(&EngineEvent::TranscriptionResult("привет".into())).unwrap();
    assert_eq!(name, "engine://transcription-result");
    assert!(matches!(payload, EmitPayload::Text(t) if t == "привет"));
    let (name, payload) = engine_event_to_emit(&EngineEvent::ModelLoading("gigaam".into())).unwrap();
    assert_eq!(name, "engine://model-loading");
    assert!(matches!(payload, EmitPayload::Model(m) if m == "gigaam"));
}

#[test]
fn test_engine_event_to_emit_error_is_typed_and_focus_is_none() {
    let (name, payload) = engine_event_to_emit(&EngineEvent::Error("Ошибка сети: timeout".into())).unwrap();
    assert_eq!(name, "engine://error");
    match payload {
        EmitPayload::Error(e) => {
            assert_eq!(e.kind, ApiErrorKind::Network);
            assert_eq!(e.message, "timeout");
        }
        _ => panic!("typed error expected"),
    }
    assert!(engine_event_to_emit(&EngineEvent::RequestFocus).is_none());
}

#[test]
fn tray_reacts_to_recording_events() {
    let r = tray_reaction(&EngineEvent::RecordingPaused).unwrap();
    assert_eq!((r.text, r.state, r.widget), ("Продолжить запись", TrayState::Paused, WidgetAction::Keep));
    let r = tray_reaction(&EngineEvent::RecordingStarted).unwrap();
    assert_eq!(r.state, TrayState::Recording);
    assert!(tray_reaction(&EngineEvent::ModelLoaded).is_none());
    let mut cur = TrayCurrentState(TrayState::Idle);
    assert!(!cur.update(TrayState::Idle));
    assert!(cur.update(TrayState::Recording));
    assert_eq!(cur.0, TrayState::Recording);
}

#[test]
fn gvariant_parse_and_format() {
    assert!(parse_gvariant_strings("@as []").is_empty());
    assert!(parse_gvariant_strings("[]").is_empty());
    assert_eq!(parse_gvariant_strings("['a@b', 'c']"), vec!["a@b".to_string(), "c".to_string()]);
    assert_eq!(format_gvariant_strings(&["a".to_string(), "b".to_string()]), "['a', 'b']");
    assert_eq!(format_gvariant_strings(&[]), "[]");
    let l = vec!["x@y".to_string(), "z".to_string()];
    assert_eq!(parse_gvariant_strings(&format_gvariant_strings(&l)), l);
}

#[test]
fn extension_toggle_is_idempotent() {
    let l = vec!["a".to_string()];
    assert_eq!(toggle_extension(&l, "u", true), Some(vec!["a".to_string(), "u".to_string()]));
    assert_eq!(toggle_extension(&l, "a", true), None);
    assert_eq!(toggle_extension(&l, "a", false), Some(vec![]));
    assert_eq!(toggle_extension(&l, "u", false), None);
    assert!(ext_versions_match(Some(3), Some(3)));
    assert!(!ext_versions_match(Some(3), None));
}

fn sample_entries() -> Vec<HistoryEntry> {
    vec![HistoryEntry {
        recording: Recording { id: 1, audio_path: "/tmp/e.raw".into(), timestamp: 0, duration_secs: 7 },
        transcriptions: vec![Transcription {
            id: 1,
            recording_id: 1,
            text: "образец \"текста\"".into(),
            model_name: "gigaam-v3".into(),
            transcriber_type: "gigaam".into(),
            created_at: 0,
        }],
        audio_exists: true,
    }]
}

#[test]
fn export_txt_and_csv() {
    let entries = sample_entries();
    let txt = export_entries(&entries, "txt");
    assert_eq!(txt, "[1970-01-01 00:00:00] (7с)\n  [gigaam-v3] образец \"текста\"\n\n");
    let csv = export_entries(&entries, "csv");
    assert!(csv.starts_with('\u{FEFF}'));
    assert!(csv.contains("Дата;Длительность"));
    assert!(csv.ends_with("1970-01-01 00:00:00;7;gigaam-v3;gigaam;\"образец \"\"текста\"\"\"\n"));
}

#[test]
fn retention_cutoff_by_hours() {
    assert_eq!(retention_cutoff(10_000, 0), None);
    assert_eq!(retention_cutoff(10_000, 1), Some(6_400));
}

#[test]
fn audio_data_is_base64_of_raw_bytes() {
    let d = audio_data(&[1, 2, 3, 4], 16000);
    assert_eq!(d.data, "AQIDBA==");
    assert_eq!(d.sample_rate, 16000);
}

#[test]
fn engine_test_lru_eviction_candidates_basic() {
    // whisper idle for ten minutes, gigaam for one second; active = gigaam, ttl = five minutes.
    let pool = vec![entry("whisper", 600, false), entry("gigaam", 1, false)];
    let cands = lru_eviction_candidates(&pool, "gigaam", 300u128 * 1_000_000_000);
    assert_eq!(cands, vec!["whisper".to_string()]);
}

#[test]
fn engine_test_lru_eviction_skips_externally_referenced() {
    // A second holder of whisper means an inference runs on it.
    let pool = vec![entry("whisper", 600, true)];
    let cands = lru_eviction_candidates(&pool, "gigaam", 300u128 * 1_000_000_000);
    assert!(cands.is_empty());
}

#[test]
fn lru_test_lru_eviction_candidates_basic() {
    let pool = vec![entry("whisper", 600, false), entry("gigaam", 1, false)];
    let cands = lru_eviction_candidates(&pool, "gigaam", 300u128 * 1_000_000_000);
    assert_eq!(cands, vec!["whisper".to_string()]);
}

#[test]
fn lru_test_lru_eviction_skips_externally_referenced() {
    let pool = vec![entry("whisper", 600, true)];
    let cands = lru_eviction_candidates(&pool, "gigaam", 300u128 * 1_000_000_000);
    assert!(cands.is_empty());
}

#[test]
fn audio_data_pads_the_last_group() {
    assert_eq!(audio_data(b"Man", 1).data, "TWFu");
    assert_eq!(audio_data(b"Ma", 1).data, "TWE=");
    assert_eq!(audio_data(b"M", 1).data, "TQ==");
    assert_eq!(audio_data(&[0xFB, 0xFF], 1).data, "+/8=");
    assert_eq!(audio_data(&[], 1).data, "");
}

#[test]
fn microphone_hint_depends_on_the_system() {
    let e = ArcanaError::AudioDevice("нет звука".into());
    let win = ApiError::from_arcana_on(&e, TargetOs::Windows);
    assert_eq!(
        win.hint.as_deref(),
        Some("Проверьте устройство записи: Параметры Windows → Система → Звук → Ввод; и разрешите доступ к микрофону (Конфиденциальность → Микрофон).")
    );
    let mac = ApiError::from_arcana_on(&e, TargetOs::MacOs);
    assert_eq!(
        mac.hint.as_deref(),
        Some("Проверьте микрофон: Системные настройки → Звук → Вход; и разрешите доступ к микрофону в разделе Конфиденциальность.")
    );
    let linux = ApiError::from_arcana_on(&e, TargetOs::Linux);
    assert_eq!(linux.hint.as_deref(), Some("Проверьте микрофон в pavucontrol → Input Devices."));
    assert_eq!(ApiError::from_arcana(&e).hint, linux.hint);
    let m = ApiError::from_message_on("Ошибка аудиоустройства: нет звука", TargetOs::MacOs);
    assert_eq!((m.kind, m.message.as_str()), (ApiErrorKind::AudioDevice, "нет звука"));
    assert_eq!(m.hint, mac.hint);
}
