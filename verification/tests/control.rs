use arcanaglyph::config::TranscriberType;
use arcanaglyph::audio::{AudioCommand, RecordResult, StopReason};
use arcanaglyph::control::{trigger_event, EngineControl, PauseAction, TriggerAction};
use arcanaglyph::engine::TRIGGER_DEBOUNCE_NANOS;
use arcanaglyph::error::ArcanaError;
use arcanaglyph::event::EngineEvent;
use arcanaglyph::hotkeys::{builtin_conflict_label, custom_conflict_label, foreign_keybinding_paths};
use arcanaglyph::migrations::{MigrationStep, migration_plan};
use arcanaglyph::models::{DownloadProgress, check_downloaded_size, download_file_name, partial_path};
use arcanaglyph::recorder::{CommandOutcome, LoopSettings, Partial, RecordLoop, Received};
use arcanaglyph::retranscribe::{
    check_engine_in_build, check_not_transcribed, check_nonempty_result, retranscribe_model, retranscribe_on_audio,
    retranscribe_on_existing, retranscribe_on_history, retranscribe_on_saved, retranscribe_on_text, retranscribe_start,
    RetranscribeAction,
};
use arcanaglyph::session::{error_plan, session_end_plan, success_plan, task_failure_plan};
use arcanaglyph::history::{HistoryEntry, Recording, Transcription};

const SEC: u128 = 1_000_000_000;

#[test]
fn getters_reflect_initial_state() {
    let c = EngineControl::new("gigaam-v3", TranscriberType::GigaAm, 0);
    assert_eq!(c.loaded_models(), vec!["gigaam-v3".to_string()]);
    assert_eq!(c.active, "gigaam-v3");
    assert!(!c.busy && !c.paused);
}

#[test]
fn update_config_switches_to_already_loaded_model() {
    let mut c = EngineControl::new("gigaam", TranscriberType::GigaAm, 0);
    c.add_model("whisper", 5);
    assert!(c.update_config("whisper", TranscriberType::Whisper, 10));
    assert_eq!(c.active, "whisper");
    assert_eq!(c.active_transcriber_type(), TranscriberType::Whisper);
    assert!(!c.config_changed);
}

#[test]
fn update_config_defers_load_when_model_not_in_pool() {
    let mut c = EngineControl::new("gigaam", TranscriberType::GigaAm, 0);
    assert!(!c.update_config("vosk", TranscriberType::Vosk, 10));
    assert_eq!(c.active, "gigaam");
    assert_eq!(c.active_transcriber_type(), TranscriberType::Vosk);
    assert!(c.config_changed);
    // The next trigger takes the flag and asks for a reload.
    match c.trigger(SEC) {
        TriggerAction::Start { transcriber, need_reload } => {
            assert_eq!(transcriber, "gigaam");
            assert!(need_reload);
        }
        other => panic!("unexpected {:?}", other),
    }
    assert!(!c.config_changed);
}

#[test]
fn trigger_starts_then_stops_and_debounces() {
    let mut c = EngineControl::new("gigaam", TranscriberType::GigaAm, 0);
    assert!(matches!(c.trigger(SEC), TriggerAction::Start { .. }));
    c.begin_recording();
    assert!(matches!(c.trigger(SEC + TRIGGER_DEBOUNCE_NANOS - 1), TriggerAction::Debounced));
    assert_eq!(c.trigger(2 * SEC), TriggerAction::Stop);
    // Processing: a further trigger is ignored.
    assert_eq!(c.trigger(3 * SEC), TriggerAction::Busy);
    c.finish_session();
    assert!(matches!(c.trigger(4 * SEC), TriggerAction::Start { .. }));
}

#[test]
fn trigger_without_models_reports_error() {
    let mut c = EngineControl::new("gigaam", TranscriberType::GigaAm, 0);
    c.unload("gigaam");
    assert!(c.loaded_models().is_empty());
    assert_eq!(c.trigger(SEC), TriggerAction::NoModel);
}

#[test]
fn pause_toggles_only_while_recording() {
    let mut c = EngineControl::new("gigaam", TranscriberType::GigaAm, 0);
    assert_eq!(c.pause(), PauseAction::Ignored);
    c.begin_recording();
    assert_eq!(c.pause(), PauseAction::Toggled(true));
    assert_eq!(c.pause(), PauseAction::Toggled(false));
    assert!(!c.paused);
}

#[test]
fn lazy_load_registers_and_activates() {
    let mut c = EngineControl::new("gigaam", TranscriberType::GigaAm, 0);
    assert!(!c.use_pooled("whisper"));
    c.register_loaded("whisper", 7);
    assert_eq!(c.active, "whisper");
    assert_eq!(c.loaded_models(), vec!["gigaam".to_string(), "whisper".to_string()]);
    c.register_loaded("whisper", 8);
    assert_eq!(c.loaded_models().len(), 2);
}

#[test]
fn unload_keeps_pool_and_last_use_together() {
    let mut c = EngineControl::new("gigaam", TranscriberType::GigaAm, 0);
    c.add_model("whisper", 1);
    assert!(c.is_loaded("whisper"));
    c.unload("whisper");
    assert!(!c.is_loaded("whisper"));
    assert!(c.is_loaded("gigaam"));
    assert_eq!(c.loaded_models(), vec!["gigaam".to_string()]);
    assert!(c.last_used.iter().all(|(n, _)| n != "whisper"));
}

#[test]
fn session_success_plan_types_when_hidden() {
    let rec = RecordResult { text: "э привет".into(), audio_path: "/tmp/a.raw".into(), duration_secs: 3 };
    let p = success_plan(&rec, true, true, false);
    assert_eq!(p.save.as_deref(), Some("привет"));
    assert_eq!(p.type_text.as_deref(), Some("привет"));
    assert_eq!(p.events.len(), 2);
    let p = success_plan(&rec, true, true, true);
    assert!(p.type_text.is_none());
    assert!(matches!(p.events[1], EngineEvent::RequestFocus));
    let empty = RecordResult { text: "э".into(), audio_path: String::new(), duration_secs: 1 };
    let p = success_plan(&empty, true, true, false);
    assert!(p.save.is_none());
    assert!(matches!(&p.events[0], EngineEvent::Error(m) if m.starts_with("Микрофон не захватил речь")));
}

#[test]
fn session_error_plans() {
    let p = error_plan(&ArcanaError::Cancelled, false);
    assert_eq!(p.events.len(), 1);
    let p = error_plan(&ArcanaError::AudioDevice("тишина".into()), false);
    assert_eq!(p.type_text.as_deref(), Some("[Ошибка микрофона] Ошибка аудиоустройства: тишина"));
    let p = error_plan(&ArcanaError::Recognizer("x".into()), true);
    assert!(matches!(&p.events[0], EngineEvent::Error(m) if m == "Ошибка транскрибации: Ошибка распознавателя: x"));
}

#[test]
fn record_loop_commands_and_auto_stop() {
    let mut s = RecordLoop::start(0);
    assert_eq!(s.on_command(Received::Command(AudioCommand::TogglePause), SEC, false), CommandOutcome::Pause);
    assert!(s.paused);
    assert_eq!(s.on_command(Received::Command(AudioCommand::TogglePause), 5 * SEC, false), CommandOutcome::Resume);
    assert_eq!(s.last_growth, 5 * SEC);
    assert_eq!(s.on_command(Received::Disconnected, 6 * SEC, false), CommandOutcome::Stop);
    let settings = LoopSettings { vad_enabled: true, vad_timeout: 2 * SEC, silence_timeout: 10 * SEC, streaming: false, debug: false };
    let t = s.on_tick(settings, 6 * SEC, 50, None);
    assert!(t.stop.is_none());
    assert!(s.speech_detected);
    let t = s.on_tick(settings, 8 * SEC, 0, None);
    assert_eq!(t.stop, Some(StopReason::Vad));
}

#[test]
fn record_loop_streaming_partials() {
    let mut s = RecordLoop::start(0);
    let settings = LoopSettings { vad_enabled: false, vad_timeout: SEC, silence_timeout: 10 * SEC, streaming: true, debug: true };
    let t = s.on_tick(settings, SEC, 0, Some(Partial { chars: 3, bytes: 6 }));
    assert_eq!(t.print_from, Some(0));
    assert_eq!(s.last_growth, SEC);
    let t = s.on_tick(settings, 2 * SEC, 0, Some(Partial { chars: 3, bytes: 6 }));
    assert_eq!(t.print_from, None);
    let t = s.on_tick(settings, 12 * SEC, 0, None);
    assert_eq!(t.stop, Some(StopReason::Timeout));
}

#[test]
fn retranscribe_checks() {
    assert!(check_engine_in_build("gigaam").is_ok());
    assert_eq!(
        check_engine_in_build("vosk").unwrap_err(),
        "Движок 'vosk' недоступен в этой сборке — пересоберите с соответствующей cargo feature"
    );
    assert_eq!(retranscribe_model("gigaam", None).unwrap(), ("gigaam".to_string(), "gigaam".to_string()));
    assert_eq!(retranscribe_model("whisper", Some("ggml-tiny.bin")).unwrap().0, "ggml-tiny.bin");
    assert_eq!(retranscribe_model("gigaam-rnnt", None).unwrap_err(), "Неизвестный тип транскрайбера");
    let t = Transcription { id: 1, recording_id: 1, text: "x".into(), model_name: "m1".into(), transcriber_type: "gigaam".into(), created_at: 0 };
    assert!(check_not_transcribed(&vec![t.clone()], "m2").is_ok());
    assert_eq!(check_not_transcribed(&vec![t], "m1").unwrap_err(), "Запись уже распознана моделью m1");
    assert!(check_nonempty_result("").is_err());
}

#[test]
fn migration_plans() {
    assert_eq!(migration_plan(2, 2, true).unwrap(), vec![]);
    assert_eq!(migration_plan(0, 2, false).unwrap(), vec![MigrationStep::Apply(1), MigrationStep::Apply(2)]);
    assert_eq!(migration_plan(0, 2, true).unwrap(), vec![MigrationStep::MarkApplied(1), MigrationStep::Apply(2)]);
    assert_eq!(migration_plan(1, 2, true).unwrap(), vec![MigrationStep::Apply(2)]);
    assert_eq!(
        migration_plan(5, 2, false).unwrap_err(),
        "БД версии 5 новее приложения (2). Обновите приложение."
    );
}

#[test]
fn download_progress_reports_changes_only() {
    let mut p = DownloadProgress::new(200);
    assert_eq!(p.on_chunk(1), None);
    assert_eq!(p.on_chunk(1), Some(1));
    assert_eq!(p.on_chunk(198), Some(100));
    let mut unknown = DownloadProgress::new(0);
    assert_eq!(unknown.on_chunk(10), None);
    assert_eq!(download_file_name("https://h/x/model.onnx"), "model.onnx");
    assert_eq!(download_file_name("plain"), "plain");
    assert_eq!(partial_path("/m/a.bin"), "/m/a.bin.partial");
    assert!(check_downloaded_size(10, "a", Some(5)).is_ok());
    assert_eq!(
        check_downloaded_size(3, "a.bin", Some(5)).unwrap_err(),
        "Скачано 3 байт для a.bin, ожидалось не меньше 5 (источник вернул обрезанный ответ)"
    );
}

#[test]
fn conflict_scan_helpers() {
    let paths = foreign_keybinding_paths(" ['/x/arcanaglyph-trigger/', '/y/custom0/'] \n");
    assert_eq!(paths, vec!["/y/custom0/".to_string()]);
    assert!(foreign_keybinding_paths("@as []").is_empty());
    assert_eq!(builtin_conflict_label("close", "org.gnome.desktop.wm.keybindings"), "close (org.gnome.desktop.wm.keybindings)");
    assert_eq!(custom_conflict_label("Term"), "Term (custom keybinding)");
}

#[test]
fn idle_seconds_per_loaded_model() {
    let mut c = EngineControl::new("gigaam", TranscriberType::GigaAm, 1_000_000_000);
    c.add_model("whisper", 5_500_000_000);
    let idle = c.loaded_models_idle_seconds(65_000_000_000);
    assert_eq!(idle, vec![("gigaam".to_string(), 64), ("whisper".to_string(), 59)]);
    // A use stamped after `now` counts as no idle time.
    assert_eq!(c.loaded_models_idle_seconds(0), vec![("gigaam".to_string(), 0), ("whisper".to_string(), 0)]);
}

#[test]
fn trigger_without_model_sends_the_no_model_error() {
    match trigger_event(&TriggerAction::NoModel) {
        Some(EngineEvent::Error(m)) => assert_eq!(m, "Модель ещё не загружена, подождите завершения загрузки"),
        other => panic!("unexpected {:?}", other),
    }
    assert!(trigger_event(&TriggerAction::Busy).is_none());
    assert!(trigger_event(&TriggerAction::Debounced).is_none());
}

#[test]
fn task_failure_is_reported_then_processing_ends() {
    let plan = task_failure_plan("JoinError::Panic(Id(7), \"boom\", ..)");
    assert!(plan.save.is_none() && plan.type_text.is_none());
    assert_eq!(plan.events.len(), 2);
    match &plan.events[0] {
        EngineEvent::Error(m) => assert_eq!(m, "Ошибка записи: JoinError::Panic(Id(7), \"boom\", ..)"),
        other => panic!("unexpected {:?}", other),
    }
    assert!(matches!(plan.events[1], EngineEvent::FinishedProcessing));
}

#[test]
fn session_end_plan_follows_the_task_result() {
    let rec = RecordResult { text: "привет".to_string(), audio_path: "/a.raw".to_string(), duration_secs: 1 };
    let plan = session_end_plan(Ok(Ok(rec)), false, true, false);
    assert_eq!(plan.save.as_deref(), Some("привет"));
    let plan = session_end_plan(Ok(Err(ArcanaError::Cancelled)), false, true, false);
    assert_eq!(plan.events.len(), 1);
}

#[test]
fn tick_tracks_partial_growth_and_printing() {
    let s = LoopSettings { vad_enabled: false, vad_timeout: 0, silence_timeout: 100 * SEC, streaming: true, debug: true };
    let mut l = RecordLoop::start(0);
    let out = l.on_tick(s, SEC, 0, Some(Partial { chars: 3, bytes: 6 }));
    assert_eq!(out.print_from, Some(0));
    assert_eq!((l.max_partial_len, l.segment_printed, l.has_output), (6, 3, true));
    let out = l.on_tick(s, 2 * SEC, 0, Some(Partial { chars: 3, bytes: 6 }));
    assert_eq!(out.print_from, None);
    assert_eq!(l.last_growth, SEC);
}

fn entry(id: i64, audio: bool) -> HistoryEntry {
    HistoryEntry {
        recording: Recording { id, audio_path: format!("/rec/{}.raw", id), timestamp: 0, duration_secs: 1 },
        transcriptions: vec![],
        audio_exists: audio,
    }
}

#[test]
fn retranscription_runs_its_steps_in_order() {
    assert!(matches!(retranscribe_start("gigaam"), RetranscribeAction::QueryHistory));
    match retranscribe_on_history(Ok(vec![entry(1, true), entry(2, true)]), 2) {
        RetranscribeAction::ReadAudio { path } => assert_eq!(path, "/rec/2.raw"),
        other => panic!("{:?}", other),
    }
    let audio = vec![1u8, 0, 0xff, 0xff, 7];
    let (model_name, engine, samples) =
        match retranscribe_on_audio("gigaam", Ok(Some("gigaam-v3".to_string())), Ok(audio)) {
            RetranscribeAction::ListTranscriptions { model_name, engine, samples } => (model_name, engine, samples),
            other => panic!("{:?}", other),
        };
    assert_eq!(model_name, "gigaam-v3");
    assert_eq!(engine, "gigaam");
    assert_eq!(samples, vec![1i16, -1]);
    let other = Transcription { id: 1, recording_id: 2, text: "a".into(), model_name: "vosk-small".into(), transcriber_type: "vosk".into(), created_at: 0 };
    match retranscribe_on_existing(Ok(vec![other]), model_name, engine, samples) {
        RetranscribeAction::Transcribe { model_name, engine, samples } => {
            assert_eq!((model_name.as_str(), engine.as_str(), samples.len()), ("gigaam-v3", "gigaam", 2));
        }
        other => panic!("{:?}", other),
    }
    match retranscribe_on_text(Ok("привет".to_string()), "gigaam-v3".into(), "gigaam".into()) {
        RetranscribeAction::Save { text, model_name, engine } => {
            assert_eq!((text.as_str(), model_name.as_str(), engine.as_str()), ("привет", "gigaam-v3", "gigaam"));
        }
        other => panic!("{:?}", other),
    }
    match retranscribe_on_saved(Ok(()), "привет".into(), "gigaam-v3".into()) {
        RetranscribeAction::Finish { text, model_name } => assert_eq!((text.as_str(), model_name.as_str()), ("привет", "gigaam-v3")),
        other => panic!("{:?}", other),
    }
}

fn failure(a: RetranscribeAction) -> String {
    match a {
        RetranscribeAction::Fail(m) => m,
        other => panic!("{:?}", other),
    }
}

#[test]
fn retranscription_stops_at_each_error() {
    assert_eq!(
        failure(retranscribe_start("whisper")),
        "Движок 'whisper' недоступен в этой сборке — пересоберите с соответствующей cargo feature"
    );
    assert_eq!(failure(retranscribe_on_history(Err("db locked".into()), 1)), "db locked");
    assert_eq!(failure(retranscribe_on_history(Ok(vec![entry(1, true)]), 5)), "Запись не найдена");
    assert_eq!(
        failure(retranscribe_on_history(Ok(vec![entry(1, false)]), 1)),
        "Аудиофайл удалён — повторная транскрибация невозможна"
    );
    assert_eq!(failure(retranscribe_on_audio("gigaam", Err("bad config".into()), Ok(vec![]))), "bad config");
    assert_eq!(
        failure(retranscribe_on_audio("gigaam", Ok(None), Err("No such file".into()))),
        "Не удалось прочитать аудио: No such file"
    );
    assert_eq!(failure(retranscribe_on_audio("gigaam-rnnt", Ok(None), Ok(vec![]))), "Неизвестный тип транскрайбера");
    match retranscribe_on_audio("whisper", Ok(None), Ok(vec![])) {
        RetranscribeAction::ListTranscriptions { model_name, .. } => assert_eq!(model_name, "whisper"),
        other => panic!("{:?}", other),
    }
    let same = Transcription { id: 1, recording_id: 1, text: "a".into(), model_name: "m".into(), transcriber_type: "gigaam".into(), created_at: 0 };
    assert_eq!(failure(retranscribe_on_existing(Ok(vec![same]), "m".into(), "gigaam".into(), vec![])), "Запись уже распознана моделью m");
    assert_eq!(failure(retranscribe_on_existing(Err("io".into()), "m".into(), "gigaam".into(), vec![])), "io");
    assert_eq!(failure(retranscribe_on_text(Ok(String::new()), "m".into(), "gigaam".into())), "Распознавание вернуло пустой результат");
    assert_eq!(failure(retranscribe_on_text(Err("model load".into()), "m".into(), "gigaam".into())), "model load");
    assert_eq!(failure(retranscribe_on_saved(Err("disk full".into()), "t".into(), "m".into())), "disk full");
}
