use arcanaglyph::error::ArcanaError;
use arcanaglyph::updater::{
    ReleaseAsset, ReleaseBody, ReleaseFetch, release_from_reply, UpdateInfo, UpdateState, apply_release_fetch, cached_pending_update, clear_applying,
    dismiss, installable_asset_url, is_newer, next_backoff, parse_release_tag, release_from_body,
    release_has_installable_asset, set_applying, applying_version, unix_secs, install_command, no_terminal_message,
};

const INSTALLABLE_ASSET_EXT: &str = ".deb";

fn asset(name: &str, state: &str, url: Option<&str>) -> ReleaseAsset {
    ReleaseAsset {
        name: Some(name.to_string()),
        state: Some(state.to_string()),
        browser_download_url: url.map(|u| u.to_string()),
    }
}

#[test]
fn parse_clean_tag() {
    assert_eq!(parse_release_tag("v1.7.0"), Some((1, 7, 0)));
    assert_eq!(parse_release_tag("1.7.0"), Some((1, 7, 0)));
    assert_eq!(parse_release_tag("v1.6.10"), Some((1, 6, 10)));
    assert_eq!(parse_release_tag("v0.0.1"), Some((0, 0, 1)));
}

#[test]
fn parse_skip_pre_release() {
    assert_eq!(parse_release_tag("v1.7.0-rc1"), None);
    assert_eq!(parse_release_tag("v1.7.0-beta.1"), None);
}

#[test]
fn parse_skip_build_metadata() {
    assert_eq!(parse_release_tag("v1.7.0+build.5"), None);
}

#[test]
fn parse_invalid() {
    assert_eq!(parse_release_tag(""), None);
    assert_eq!(parse_release_tag("v1.7"), None);
    assert_eq!(parse_release_tag("not-a-version"), None);
    assert_eq!(parse_release_tag("v1.a.b"), None);
}

#[test]
fn newer_basic() {
    assert!(is_newer("1.7.0", "1.6.9"));
    assert!(is_newer("2.0.0", "1.99.99"));
}

#[test]
fn newer_minor_double_digit() {
    assert!(is_newer("1.6.10", "1.6.9"));
}

#[test]
fn newer_same_or_older() {
    assert!(!is_newer("1.6.9", "1.6.9"));
    assert!(!is_newer("1.6.8", "1.6.9"));
}

#[test]
fn newer_invalid_returns_false() {
    assert!(!is_newer("rc-foo", "1.6.9"));
    assert!(!is_newer("1.6.9", "rc-foo"));
    assert!(!is_newer("v1.7.0-rc1", "1.6.9"));
}

#[test]
fn cached_pending_skips_when_applying() {
    let info = UpdateInfo {
        latest_version: "9.9.9".into(),
        release_url: "https://example.com".into(),
        published_at: "2026-05-10T00:00:00Z".into(),
    };
    let state_idle = UpdateState {
        latest_known: Some(info.latest_version.clone()),
        latest_release_url: Some(info.release_url.clone()),
        latest_published_at: Some(info.published_at.clone()),
        ..Default::default()
    };
    assert!(state_idle.applying_version.is_none(), "baseline: applying_version empty");
    let state_applying = UpdateState {
        applying_version: Some(info.latest_version.clone()),
        ..state_idle.clone()
    };
    let blocked = state_applying.applying_version.as_deref() == Some(info.latest_version.as_str());
    assert!(blocked);
    assert!(cached_pending_update(state_idle, "1.0.0").is_some());
    assert!(cached_pending_update(state_applying, "1.0.0").is_none());
}

#[test]
fn deb_available_when_uploaded() {
    let assets = vec![
        asset("ArcanaGlyph_1.7.8_amd64.deb", "uploaded", None),
        asset("ArcanaGlyph_1.7.8_amd64.AppImage", "uploaded", None),
        asset("SHA256SUMS.txt", "uploaded", None),
    ];
    assert!(release_has_installable_asset(Some(&assets), INSTALLABLE_ASSET_EXT));
}

#[test]
fn asset_url_returns_uploaded_installer_for_platform() {
    let assets = vec![
        asset("ArcanaGlyph_1.7.8_amd64.deb", "uploaded", Some("https://example.com/app.deb")),
        asset("ArcanaGlyph_1.7.8_x64-setup.exe", "uploaded", Some("https://example.com/app.exe")),
    ];
    let url = installable_asset_url(Some(&assets), INSTALLABLE_ASSET_EXT).expect("asset for the platform");
    if INSTALLABLE_ASSET_EXT == ".deb" {
        assert_eq!(url, "https://example.com/app.deb");
    } else {
        assert_eq!(url, "https://example.com/app.exe");
    }
}

#[test]
fn asset_url_none_when_not_uploaded() {
    let assets = vec![asset(
        &format!("ArcanaGlyph_1.7.8_amd64{INSTALLABLE_ASSET_EXT}"),
        "starting",
        Some("https://example.com/app"),
    )];
    assert!(installable_asset_url(Some(&assets), INSTALLABLE_ASSET_EXT).is_none());
}

#[test]
fn asset_url_none_when_no_matching_ext() {
    let foreign = if INSTALLABLE_ASSET_EXT == ".deb" { ".exe" } else { ".deb" };
    let name = format!("ArcanaGlyph_1.7.8_pkg{foreign}");
    let assets = vec![asset(&name, "uploaded", Some("https://example.com/other"))];
    assert!(installable_asset_url(Some(&assets), INSTALLABLE_ASSET_EXT).is_none());
}

#[test]
fn deb_unavailable_when_assets_empty() {
    let assets: Vec<ReleaseAsset> = vec![];
    assert!(!release_has_installable_asset(Some(&assets), INSTALLABLE_ASSET_EXT));
}

#[test]
fn deb_unavailable_when_still_uploading() {
    let assets = vec![asset("ArcanaGlyph_1.7.8_amd64.deb", "starting", None)];
    assert!(!release_has_installable_asset(Some(&assets), INSTALLABLE_ASSET_EXT));
}

#[test]
fn deb_unavailable_when_only_appimage() {
    let assets = vec![
        asset("ArcanaGlyph_1.7.8_amd64.AppImage", "uploaded", None),
        asset("SHA256SUMS.txt", "uploaded", None),
    ];
    assert!(!release_has_installable_asset(Some(&assets), INSTALLABLE_ASSET_EXT));
}

#[test]
fn deb_unavailable_when_no_assets_field() {
    assert!(!release_has_installable_asset(None, INSTALLABLE_ASSET_EXT));
}

#[test]
fn release_from_body_classifies_tag_and_assets() {
    let assets = vec![asset("a.deb", "uploaded", None)];
    match release_from_body("v1.8.0", "https://r".into(), "2026".into(), Some(&assets), Some("e1".into()), ".deb") {
        ReleaseFetch::Available { info, etag } => {
            assert_eq!(info.latest_version, "1.8.0");
            assert_eq!(info.release_url, "https://r");
            assert_eq!(etag.as_deref(), Some("e1"));
        }
        other => panic!("expected Available, got {:?}", other),
    }
    assert!(matches!(
        release_from_body("v1.8.0-rc1", "u".into(), "p".into(), Some(&assets), None, ".deb"),
        ReleaseFetch::Unavailable { etag: None }
    ));
    assert!(matches!(
        release_from_body("v1.8.0", "u".into(), "p".into(), None, Some("e".into()), ".deb"),
        ReleaseFetch::Unavailable { etag: Some(_) }
    ));
}

#[test]
fn apply_release_fetch_offers_newer_and_keeps_etag() {
    let info = UpdateInfo { latest_version: "2.0.0".into(), release_url: "u".into(), published_at: "p".into() };
    let (state, offer) = apply_release_fetch(
        UpdateState::default(),
        ReleaseFetch::Available { info, etag: Some("tag".into()) },
        1000,
        "1.0.0",
    );
    assert_eq!(state.last_check_at, Some(1000));
    assert_eq!(state.latest_known.as_deref(), Some("2.0.0"));
    assert_eq!(state.etag.as_deref(), Some("tag"));
    assert_eq!(offer.unwrap().latest_version, "2.0.0");

    let (state2, offer2) = apply_release_fetch(state, ReleaseFetch::Unavailable { etag: Some("t2".into()) }, 2000, "1.0.0");
    assert!(offer2.is_none());
    assert_eq!(state2.latest_known.as_deref(), Some("2.0.0"));
    assert_eq!(state2.etag.as_deref(), Some("t2"));

    let (_, offer3) = apply_release_fetch(state2, ReleaseFetch::NotModified, 3000, "1.0.0");
    assert!(offer3.is_none());
}

#[test]
fn dismissed_version_is_not_offered() {
    let mut state = UpdateState {
        latest_known: Some("2.0.0".into()),
        ..Default::default()
    };
    assert!(cached_pending_update(state.clone(), "1.0.0").is_some());
    dismiss(&mut state, "2.0.0");
    assert!(cached_pending_update(state.clone(), "1.0.0").is_none());
}

#[test]
fn applying_marker_set_and_cleared() {
    let mut state = UpdateState::default();
    set_applying(&mut state, "3.1.0");
    assert_eq!(applying_version(&state).as_deref(), Some("3.1.0"));
    clear_applying(&mut state);
    assert_eq!(applying_version(&state), None);
}

#[test]
fn backoff_doubles_up_to_a_week_and_resets() {
    assert_eq!(next_backoff(86400, true), 172800);
    assert_eq!(next_backoff(400000, true), 604800);
    assert_eq!(next_backoff(604800, false), 86400);
}

#[test]
fn unix_secs_reads_clock() {
    assert_eq!(unix_secs(Some(1_700_000_000)), 1_700_000_000);
    assert_eq!(unix_secs(None), 0);
}

#[test]
fn install_command_wraps_the_script() {
    let expected = format!(
        "echo '=== Обновление ArcanaGlyph ==='; \
         echo 'Сейчас будет скачан и установлен новый пакет.'; \
         echo '1. Дождитесь окончания скачивания (проценты дойдут до 100%).'; \
         echo '2. Затем потребуется ВВОД ПАРОЛЯ (sudo) — введите пароль пользователя'; \
         echo '   и нажмите Enter (символы при вводе не отображаются).'; \
         echo '3. После установки появится строка «Press Enter to close» — нажмите Enter.'; \
         echo '4. Вернитесь в приложение и нажмите «Перезапустить».'; \
         echo '==============================='; echo; \
         bash {} ; ec=$?; if [ \"$ec\" = 0 ]; then : > '{}'; fi; \
         echo; echo \"Exit: $ec\"; echo 'Press Enter to close'; read",
        "/tmp/arcanaglyph-update-1.sh", "/tmp/arcanaglyph-update-ready"
    );
    assert_eq!(install_command("/tmp/arcanaglyph-update-1.sh", "/tmp/arcanaglyph-update-ready"), expected);
    assert_eq!(
        no_terminal_message(),
        "Терминал не найден. Запустите вручную:\n  curl -fsSL https://github.com/py-art/arcanaglyph/raw/main/install.sh | bash"
    );
}

#[test]
fn formatted_versions_parse_back() {
    for (a, b, c) in [(0u32, 0u32, 0u32), (1, 7, 0), (10, 200, 3000), (u32::MAX, 9, u32::MAX)] {
        assert_eq!(parse_release_tag(&format!("v{}.{}.{}", a, b, c)), Some((a, b, c)));
        assert_eq!(parse_release_tag(&format!("{}.{}.{}", a, b, c)), Some((a, b, c)));
    }
}

fn body(tag: &str, assets: Option<Vec<ReleaseAsset>>) -> ReleaseBody {
    ReleaseBody {
        tag_name: tag.to_string(),
        html_url: "https://h/r".to_string(),
        published_at: "2026-01-01".to_string(),
        assets,
    }
}

#[test]
fn release_reply_by_status_and_body() {
    assert!(matches!(release_from_reply(304, None, Err("x".to_string()), ".deb"), Ok(ReleaseFetch::NotModified)));
    match release_from_reply(403, None, Err(String::new()), ".deb") {
        Err(ArcanaError::Internal(m)) => assert_eq!(m, "GitHub API status 403"),
        other => panic!("unexpected {:?}", other),
    }
    match release_from_reply(200, None, Err("expected value at line 1".to_string()), ".deb") {
        Err(ArcanaError::Internal(m)) => assert_eq!(m, "GitHub API parse: expected value at line 1"),
        other => panic!("unexpected {:?}", other),
    }
    let deb = ReleaseAsset {
        name: Some("arcanaglyph_1.8.0_amd64.deb".to_string()),
        state: Some("uploaded".to_string()),
        browser_download_url: Some("https://h/a.deb".to_string()),
    };
    match release_from_reply(200, Some("\"e\"".to_string()), Ok(body("v1.8.0", Some(vec![deb]))), ".deb") {
        Ok(ReleaseFetch::Available { info, etag }) => {
            assert_eq!(info.latest_version, "1.8.0");
            assert_eq!(etag.as_deref(), Some("\"e\""));
        }
        other => panic!("unexpected {:?}", other),
    }
    assert!(matches!(
        release_from_reply(200, None, Ok(body("v1.8.0-rc1", None)), ".deb"),
        Ok(ReleaseFetch::Unavailable { etag: None })
    ));
}
