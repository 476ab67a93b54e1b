use arcanaglyph::config::{widget_anchor, Column, ModelPaths, Row, TranscriberType};
use arcanaglyph::models::{
    apply_model_config_path, clear_model_config_path_if_matches, main_download_dest, main_file_damaged, main_file_is_zip,
    path_join, resolve_model_file_path, zip_already_downloaded,
};
use arcanaglyph::paths::{parts_of, path_extension, path_file_name, paths_equal};

fn defaults() -> ModelPaths {
    ModelPaths {
        transcriber: TranscriberType::GigaAm,
        model_path: "/data/models/vosk-model-ru-0.42".to_string(),
        whisper_model_path: "/data/models/ggml-large-v3-turbo.bin".to_string(),
        gigaam_model_path: "/data/models/gigaam-v3-e2e-ctc".to_string(),
        gigaam_rnnt_model_path: "/data/models/gigaam-v3-e2e-rnnt".to_string(),
        qwen3asr_model_path: "/data/models/qwen3-asr-0.6b".to_string(),
        models_base_dir: "/data/models".to_string(),
    }
}

#[test]
fn test_apply_model_config_path_sets_right_field() {
    let p = "/models/downloaded".to_string();

    let mut config = defaults();
    assert!(apply_model_config_path(&mut config, "vosk", p.clone()));
    assert_eq!(config.model_path, p);

    let mut config = defaults();
    assert!(apply_model_config_path(&mut config, "whisper", p.clone()));
    assert_eq!(config.whisper_model_path, p);

    let mut config = defaults();
    assert!(apply_model_config_path(&mut config, "gigaam", p.clone()));
    assert_eq!(config.gigaam_model_path, p);

    let mut config = defaults();
    assert!(apply_model_config_path(&mut config, "gigaam-rnnt", p.clone()));
    assert_eq!(config.gigaam_rnnt_model_path, p);

    let mut config = defaults();
    assert!(apply_model_config_path(&mut config, "qwen3asr", p.clone()));
    assert_eq!(config.qwen3asr_model_path, p);
}

#[test]
fn test_apply_model_config_path_unknown_returns_false_and_no_mutation() {
    let mut config = defaults();
    let before = config.model_path.clone();
    assert!(!apply_model_config_path(&mut config, "totally-unknown", "/x".to_string()));
    assert_eq!(config.model_path, before);
}

#[test]
fn test_clear_model_config_path_if_matches() {
    let p = "/models/gigaam-v3";
    let mut config = ModelPaths { gigaam_model_path: p.to_string(), ..defaults() };
    assert!(clear_model_config_path_if_matches(&mut config, "gigaam", p));
    assert_eq!(config.gigaam_model_path, "");

    let other = "/models/gigaam-other";
    let mut config = ModelPaths { gigaam_model_path: other.to_string(), ..defaults() };
    assert!(!clear_model_config_path_if_matches(&mut config, "gigaam", p));
    assert_eq!(config.gigaam_model_path, other);

    let mut config = defaults();
    assert!(!clear_model_config_path_if_matches(&mut config, "totally-unknown", p));
}

#[test]
fn test_resolve_model_file_path_whisper_always_base_dir() {
    let config = ModelPaths {
        models_base_dir: "/base".to_string(),
        whisper_model_path: "/somewhere/ggml-tiny.bin".to_string(),
        ..defaults()
    };
    assert_eq!(
        resolve_model_file_path("whisper", "ggml-large-v3-turbo.bin", &config),
        "/base/ggml-large-v3-turbo.bin"
    );
}

#[test]
fn test_resolve_model_file_path_uses_config_or_fallback() {
    let config = ModelPaths {
        models_base_dir: "/base".to_string(),
        gigaam_model_path: "/custom/gigaam".to_string(),
        gigaam_rnnt_model_path: String::new(),
        ..defaults()
    };
    assert_eq!(resolve_model_file_path("gigaam", "gigaam-v3-e2e-ctc", &config), "/custom/gigaam");
    assert_eq!(
        resolve_model_file_path("gigaam-rnnt", "gigaam-v3-e2e-rnnt", &config),
        "/base/gigaam-v3-e2e-rnnt"
    );
}

#[test]
fn resolve_unknown_engine_reads_vosk_path() {
    let config = ModelPaths { model_path: "/v".to_string(), ..defaults() };
    assert_eq!(resolve_model_file_path("something", "f", &config), "/v");
    let config = ModelPaths { model_path: String::new(), models_base_dir: "/b/".to_string(), ..defaults() };
    assert_eq!(resolve_model_file_path("vosk", "vosk-model", &config), "/b/vosk-model");
}

#[test]
fn clear_compares_paths_not_text() {
    let mut config = ModelPaths { whisper_model_path: "/m//ggml-tiny.bin".to_string(), ..defaults() };
    assert!(clear_model_config_path_if_matches(&mut config, "whisper", "/m/./ggml-tiny.bin/"));
    assert_eq!(config.whisper_model_path, "");
    assert_eq!(config.gigaam_model_path, defaults().gigaam_model_path);
}

#[test]
fn path_equality_follows_components() {
    assert!(paths_equal("/a/b", "/a//b/"));
    assert!(paths_equal("a/./b", "a/b"));
    assert!(!paths_equal("./a", "a"));
    assert!(!paths_equal("/a", "a"));
    assert!(!paths_equal("a/../b", "b"));
    assert!(paths_equal("", ""));
    assert!(!paths_equal("", "/"));
    let parts: Vec<String> = parts_of("/x//y/./..").iter().map(|p| p.iter().collect()).collect();
    assert_eq!(parts, vec!["x", "y", ".."]);
}

#[test]
fn file_name_is_last_named_component() {
    assert_eq!(path_file_name("/models/ggml-tiny.bin"), Some("ggml-tiny.bin".to_string()));
    assert_eq!(path_file_name("foo.txt/."), Some("foo.txt".to_string()));
    assert_eq!(path_file_name("foo.txt/.//"), Some("foo.txt".to_string()));
    assert_eq!(path_file_name("foo.txt/.."), None);
    assert_eq!(path_file_name("/"), None);
    assert_eq!(path_file_name(""), None);
    assert_eq!(path_file_name("."), None);
}

#[test]
fn model_name_from_path_or_engine() {
    let config = defaults();
    assert_eq!(config.transcriber_model_name(), "gigaam-v3-e2e-ctc");
    assert_eq!(config.transcriber_type_str(), "gigaam");
    let config = ModelPaths { transcriber: TranscriberType::Whisper, ..defaults() };
    assert_eq!(config.transcriber_model_name(), "ggml-large-v3-turbo.bin");
    let config = ModelPaths { transcriber: TranscriberType::Qwen3Asr, qwen3asr_model_path: String::new(), ..defaults() };
    assert_eq!(config.transcriber_model_name(), "qwen3asr");
    let config = ModelPaths { transcriber: TranscriberType::Vosk, model_path: "/".to_string(), ..defaults() };
    assert_eq!(config.transcriber_model_name(), "vosk");
}

#[test]
fn extension_follows_last_dot_of_file_name() {
    assert_eq!(path_extension("/m/vosk-model-ru-0.42.zip"), Some("zip".to_string()));
    assert_eq!(path_extension("/m/archive.tar.gz"), Some("gz".to_string()));
    assert_eq!(path_extension("/m/.zip"), None);
    assert_eq!(path_extension("/m/model"), None);
    assert_eq!(path_extension("/m/a."), Some(String::new()));
    assert_eq!(path_extension("/m/x.zip/.."), None);
}

#[test]
fn download_plan_for_main_file() {
    assert_eq!(main_download_dest("whisper", "/m/ggml-tiny.bin", "https://h/x/ggml-tiny.bin"), "/m/ggml-tiny.bin");
    assert_eq!(
        main_download_dest("vosk", "/m/vosk-model-ru-0.42", "https://alphacephei.com/vosk/models/vosk-model-ru-0.42.zip"),
        "/m/vosk-model-ru-0.42/vosk-model-ru-0.42.zip"
    );
    assert!(main_file_is_zip("/m/vosk-model-ru-0.42/vosk-model-ru-0.42.zip"));
    assert!(!main_file_is_zip("/m/gigaam/v3_e2e_ctc.int8.onnx"));
    assert!(zip_already_downloaded("/m/v/v.zip", Some(100), Some(100)));
    assert!(!zip_already_downloaded("/m/v/v.zip", Some(100), Some(99)));
    assert!(!zip_already_downloaded("/m/v/v.zip", None, Some(1000)));
    assert!(!zip_already_downloaded("/m/v/v.onnx", Some(1), Some(1000)));
    assert!(main_file_damaged(Some(100), Some(5)));
    assert!(!main_file_damaged(Some(100), Some(100)));
    assert!(!main_file_damaged(None, Some(5)));
    assert!(!main_file_damaged(Some(100), None));
}

#[test]
fn widget_anchor_reads_position_setting() {
    assert_eq!(widget_anchor("top-left"), (Column::Left, Row::Top));
    assert_eq!(widget_anchor("middle-right"), (Column::Right, Row::Middle));
    assert_eq!(widget_anchor("bottom-center"), (Column::Center, Row::Bottom));
    assert_eq!(widget_anchor("nonsense"), (Column::Center, Row::Bottom));
    assert_eq!(widget_anchor("bottom-right"), (Column::Right, Row::Bottom));
}

#[test]
fn file_name_of_joined_name_is_the_name() {
    for base in ["", "/", "/models", "/models/", "rel/dir", "/a/.."] {
        assert_eq!(path_file_name(&path_join(base, "ggml-tiny.bin")), Some("ggml-tiny.bin".to_string()));
    }
}

#[test]
fn clearing_after_recording_a_download_empties_the_field() {
    let mut config = defaults();
    assert!(apply_model_config_path(&mut config, "qwen3asr", "/m/qwen3-asr-0.6b".to_string()));
    assert!(clear_model_config_path_if_matches(&mut config, "qwen3asr", "/m/qwen3-asr-0.6b"));
    assert_eq!(config.qwen3asr_model_path, "");
    assert_eq!(config.model_path, defaults().model_path);
}
