use arcanaglyph::config::TranscriberType;
use arcanaglyph::models::{active_model_plan, model_download_plan, DownloadStep, model_install_path, model_main_file, model_extra_files, extra_files_present, model_installed_from, path_join};
use arcanaglyph::platform::{
    bundled_ort_for, sets_ort_dylib_path, windows_ort_candidates, windows_ort_choice, CpuArch, TargetOs, WindowsOrtChoice,
    IpcCommand, OrtDylibChoice, PasteMethod, bundled_ort_path, desktop_is_gnome, hid_access_label, ipc_command,
    ort_dylib_choice, paste_key_events, paste_method, terminal_args,
};
use arcanaglyph::startup::{resolve_startup_engine, resolve_startup_engine_in, BuildEngines};
use arcanaglyph::updater::update_check_due;
use std::path::PathBuf;

const DAY: i64 = 86400;

#[test]
fn test_resolve_startup_engine_keeps_compiled_engine_when_avx_ok() {
    let (engine, fallback) = resolve_startup_engine(TranscriberType::GigaAm, true, true);
    assert_eq!(engine, TranscriberType::GigaAm);
    assert!(fallback.is_none());
}

#[test]
fn test_resolve_startup_engine_skips_avx_switch_when_ort_not_avx_bound() {
    let (engine, fallback) = resolve_startup_engine(TranscriberType::GigaAm, false, false);
    assert_eq!(engine, TranscriberType::GigaAm);
    assert!(fallback.is_none());
}

#[test]
fn resolve_startup_engine_replaces_missing_engine() {
    let (engine, fallback) = resolve_startup_engine(TranscriberType::Vosk, true, true);
    assert_eq!(engine, TranscriberType::GigaAm);
    assert_eq!(fallback, Some(("vosk".to_string(), "gigaam".to_string())));
    // Without AVX and no non-ONNX engine in the build, the engine stays.
    let (engine, fallback) = resolve_startup_engine(TranscriberType::GigaAm, false, true);
    assert_eq!(engine, TranscriberType::GigaAm);
    assert!(fallback.is_none());
}

#[test]
fn compiled_engines_and_names() {
    assert_eq!(TranscriberType::compiled_engines(), vec![TranscriberType::GigaAm]);
    assert!(TranscriberType::GigaAm.is_compiled_in());
    assert!(!TranscriberType::Whisper.is_compiled_in());
    assert_eq!(TranscriberType::Qwen3Asr.as_str(), "qwen3asr");
    assert_eq!(TranscriberType::default(), TranscriberType::GigaAm);
}

#[test]
fn test_model_main_file_picks_engine_specific_path() {
    let base = PathBuf::from("/models/x");
    let b = "/models/x";
    assert_eq!(model_main_file("whisper", b).map(PathBuf::from), Some(base.clone()));
    assert_eq!(
        model_main_file("gigaam", b).map(PathBuf::from),
        Some(base.join("v3_e2e_ctc.int8.onnx"))
    );
    assert_eq!(
        model_main_file("gigaam-rnnt", b).map(PathBuf::from),
        Some(base.join("v3_e2e_rnnt_encoder.int8.onnx"))
    );
    assert_eq!(model_main_file("qwen3asr", b).map(PathBuf::from), Some(base.join("tokenizer.json")));
    assert_eq!(model_main_file("vosk", b), None);
    assert_eq!(model_main_file("totally-unknown", b), None);
}

#[test]
fn test_model_install_path_whisper_is_file_others_dir() {
    let main_dest = "/models/ggml-large-v3-turbo.bin";
    let dest_dir = "/models/whisper-dir";
    assert_eq!(model_install_path("whisper", main_dest, dest_dir), main_dest);
    for t in ["vosk", "gigaam", "gigaam-rnnt", "qwen3asr", "totally-unknown"] {
        assert_eq!(model_install_path(t, main_dest, dest_dir), dest_dir);
    }
}

#[test]
fn path_join_matches_std_on_unix() {
    for (b, n) in [("/a/b", "c"), ("/a/b/", "c"), ("", "c"), ("/a", "/abs"), ("rel", "x/y")] {
        assert_eq!(PathBuf::from(path_join(b, n)), PathBuf::from(b).join(n));
    }
}

#[test]
fn model_installed_checks_main_file_size_and_extras() {
    let extra = model_extra_files("gigaam");
    assert_eq!(extra.files, vec!["v3_e2e_ctc_vocab.txt"]);
    assert!(!extra_files_present(&extra, &vec![false]));
    assert!(extra_files_present(&extra, &vec![true]));
    let vosk = model_extra_files("vosk");
    assert!(extra_files_present(&vosk, &vec![false, true, false]));
    assert!(!extra_files_present(&vosk, &vec![false, false, false]));
    assert!(extra_files_present(&model_extra_files("whisper"), &vec![]));
    assert!(model_installed_from(true, true, true, Some(2000), Some(1000), true));
    assert!(!model_installed_from(true, true, true, Some(500), Some(1000), true));
    assert!(!model_installed_from(false, false, false, None, None, true));
    assert!(model_installed_from(true, false, false, None, Some(1000), true));
}

#[test]
fn test_force_bypasses_throttle() {
    let now = 100 * DAY;
    assert!(update_check_due(Some(now - 60), now, true));
}

#[test]
fn test_no_state_checks_immediately() {
    assert!(update_check_due(None, 100 * DAY, false));
}

#[test]
fn test_throttled_within_23h() {
    let now = 100 * DAY;
    assert!(!update_check_due(Some(now - 22 * 3600), now, false));
}

#[test]
fn test_due_after_23h() {
    let now = 100 * DAY;
    assert!(update_check_due(Some(now - 23 * 3600), now, false));
}

#[test]
fn hid_access_label_maps_known_statuses() {
    assert_eq!(hid_access_label(0), "granted");
    assert!(hid_access_label(1).starts_with("denied"));
    assert!(hid_access_label(2).starts_with("unknown"));
    assert!(hid_access_label(99).starts_with("unknown"));
}

#[test]
fn terminal_args_per_terminal() {
    assert_eq!(terminal_args("gnome-terminal", "echo"), ["--", "bash", "-c", "echo"]);
    assert_eq!(terminal_args("tilix", "x"), ["--", "bash", "-c", "x"]);
    assert_eq!(terminal_args("konsole", "x"), ["--noclose", "-e", "bash", "-c", "x"]);
    assert_eq!(terminal_args("xterm", "x"), ["-e", "bash", "-c", "x"]);
}

#[test]
fn ort_dylib_priority() {
    assert_eq!(ort_dylib_choice(true, true, true), OrtDylibChoice::FromEnv);
    assert_eq!(ort_dylib_choice(false, true, true), OrtDylibChoice::SelfBuilt);
    assert_eq!(ort_dylib_choice(false, false, true), OrtDylibChoice::Bundled);
    assert_eq!(ort_dylib_choice(false, false, false), OrtDylibChoice::SystemLoader);
    assert!(bundled_ort_path(false).ends_with("noavx.so"));
}

#[test]
fn gnome_desktop_detection() {
    assert!(desktop_is_gnome("UBUNTU:GNOME"));
    assert!(desktop_is_gnome("UNITY"));
    assert!(!desktop_is_gnome("KDE"));
}

#[test]
fn paste_method_by_session() {
    assert_eq!(paste_method("", true, "wayland"), PasteMethod::Nothing);
    assert_eq!(paste_method("x", true, "wayland"), PasteMethod::WaylandPortal);
    assert_eq!(paste_method("x", true, "x11"), PasteMethod::X11Clipboard);
    assert_eq!(paste_method("x", false, "wayland"), PasteMethod::TypeKeys);
    assert_eq!(paste_key_events(), vec![(42, true), (110, true), (110, false), (42, false)]);
}

#[test]
fn ipc_packets() {
    assert_eq!(ipc_command("pause\n"), Some(IpcCommand::Pause));
    assert_eq!(ipc_command("trigger"), Some(IpcCommand::Trigger));
    assert_eq!(ipc_command("hello"), None);
}

#[test]
fn ort_library_by_os_and_arch() {
    assert!(sets_ort_dylib_path(TargetOs::Linux));
    assert!(sets_ort_dylib_path(TargetOs::Windows));
    assert!(!sets_ort_dylib_path(TargetOs::Other));
    assert!(!sets_ort_dylib_path(TargetOs::MacOs));
    assert_eq!(bundled_ort_for(CpuArch::X86_64 { avx: true }), "/usr/lib/arcanaglyph/libonnxruntime-avx2.so");
    assert_eq!(bundled_ort_for(CpuArch::X86_64 { avx: false }), "/usr/lib/arcanaglyph/libonnxruntime-noavx.so");
    assert_eq!(bundled_ort_for(CpuArch::Other), "/usr/lib/arcanaglyph/libonnxruntime.so");
    let c = windows_ort_candidates();
    assert_eq!(c, vec![vec!["onnxruntime.dll"], vec!["libs", "onnxruntime.dll"], vec!["resources", "libs", "onnxruntime.dll"]]);
    assert_eq!(windows_ort_choice(true, true, &vec![true, true, true]), WindowsOrtChoice::FromEnv);
    assert_eq!(windows_ort_choice(false, false, &vec![true, true, true]), WindowsOrtChoice::NoExeDir);
    assert_eq!(windows_ort_choice(false, true, &vec![false, true, true]), WindowsOrtChoice::Candidate(1));
    assert_eq!(windows_ort_choice(false, true, &vec![false, false, false]), WindowsOrtChoice::SystemPath);
}

#[test]
fn startup_fallback_prefers_whisper_over_vosk() {
    let build = BuildEngines { vosk: true, whisper: true, gigaam: true, qwen3asr: false };
    let (engine, fallback) = resolve_startup_engine_in(TranscriberType::GigaAm, false, true, build);
    assert_eq!(engine, TranscriberType::Whisper);
    assert_eq!(fallback, Some(("gigaam".to_string(), "whisper".to_string())));
}

#[test]
fn startup_fallback_uses_vosk_without_whisper() {
    let build = BuildEngines { vosk: true, whisper: false, gigaam: false, qwen3asr: true };
    let (engine, fallback) = resolve_startup_engine_in(TranscriberType::Qwen3Asr, false, true, build);
    assert_eq!(engine, TranscriberType::Vosk);
    assert_eq!(fallback, Some(("qwen3asr".to_string(), "vosk".to_string())));
}

#[test]
fn startup_keeps_onnx_engine_without_alternative() {
    let build = BuildEngines { vosk: false, whisper: false, gigaam: true, qwen3asr: true };
    let (engine, fallback) = resolve_startup_engine_in(TranscriberType::GigaAm, false, true, build);
    assert_eq!(engine, TranscriberType::GigaAm);
    assert_eq!(fallback, None);
}

#[test]
fn startup_missing_engine_becomes_first_carried() {
    let build = BuildEngines { vosk: false, whisper: true, gigaam: true, qwen3asr: false };
    let (engine, fallback) = resolve_startup_engine_in(TranscriberType::Vosk, true, true, build);
    assert_eq!(engine, TranscriberType::Whisper);
    assert_eq!(fallback, Some(("vosk".to_string(), "whisper".to_string())));
}

fn show(steps: &[DownloadStep]) -> Vec<String> {
    steps
        .iter()
        .map(|s| match s {
            DownloadStep::Remove { path } => format!("rm {}", path),
            DownloadStep::Fetch { url, dest, index, total, min_size } => {
                format!("get {} -> {} {}/{} {:?}", url, dest, index, total, min_size)
            }
            DownloadStep::Unzip { archive, dir } => format!("unzip {} -> {}", archive, dir),
        })
        .collect()
}

#[test]
fn download_plan_fetches_main_then_extras() {
    let extras = vec![("https://h/vocab.txt".to_string(), "v3_e2e_ctc_vocab.txt".to_string())];
    let plan = model_download_plan(false, "https://h/model.onnx", "/m/g/model.onnx", "/m/g", &extras, Some(100), None);
    assert_eq!(
        show(&plan),
        vec![
            "get https://h/model.onnx -> /m/g/model.onnx 0/2 Some(100)".to_string(),
            "get https://h/vocab.txt -> /m/g/v3_e2e_ctc_vocab.txt 1/2 None".to_string(),
        ]
    );
    assert!(model_download_plan(true, "https://h/model.onnx", "/m/g/model.onnx", "/m/g", &extras, Some(100), None).is_empty());
}

#[test]
fn download_plan_unzips_and_skips_complete_archive() {
    let none: Vec<(String, String)> = vec![];
    let plan = model_download_plan(false, "https://h/vosk.zip", "/m/v/vosk.zip", "/m/v", &none, Some(10), Some(10));
    assert_eq!(show(&plan), vec!["unzip /m/v/vosk.zip -> /m/v".to_string()]);
    let plan = model_download_plan(false, "https://h/vosk.zip", "/m/v/vosk.zip", "/m/v", &none, Some(10), Some(9));
    assert_eq!(
        show(&plan),
        vec!["get https://h/vosk.zip -> /m/v/vosk.zip 0/1 Some(10)".to_string(), "unzip /m/v/vosk.zip -> /m/v".to_string()]
    );
}

#[test]
fn active_model_plan_removes_damaged_file_first() {
    let none: Vec<(String, String)> = vec![];
    let plan = active_model_plan("whisper", false, Some("https://h/ggml.bin"), "/m/ggml.bin", "/m", &none, Some(500), Some(12)).unwrap();
    assert_eq!(
        show(&plan),
        vec!["rm /m/ggml.bin".to_string(), "get https://h/ggml.bin -> /m/ggml.bin 0/1 Some(500)".to_string()]
    );
    assert!(active_model_plan("whisper", true, None, "/m/ggml.bin", "/m", &none, None, None).unwrap().is_empty());
    assert_eq!(
        active_model_plan("gigaam-rnnt", false, None, "/m/x", "/m", &none, None, None).unwrap_err(),
        "В реестре нет модели для движка 'gigaam-rnnt'"
    );
}
