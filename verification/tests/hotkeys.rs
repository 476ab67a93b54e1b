use arcanaglyph::hotkeys::{
    binding_is_empty, build_setxkbmap_args, builtin_conflict_name, command_is_legacy, cyrillic_binding,
    latin_to_cyrillic_keysym, parse_gsettings_paths, parse_setxkbmap_query, register_hotkey_pair,
    tauri_hotkey_to_gsettings, unquote_gsettings_value, append_keybinding_paths,
};

#[test]
fn test_tauri_hotkey_to_gsettings() {
    assert_eq!(tauri_hotkey_to_gsettings(""), "");
    assert_eq!(tauri_hotkey_to_gsettings("Control+`"), "<Control>grave");
    assert_eq!(
        tauri_hotkey_to_gsettings("Super+Alt+Control+Space"),
        "<Super><Alt><Control>space"
    );
    assert_eq!(tauri_hotkey_to_gsettings("Shift+A"), "<Shift>a");
    assert_eq!(tauri_hotkey_to_gsettings("F1"), "f1");
}

#[test]
fn test_command_is_legacy() {
    assert!(command_is_legacy("'/home/u/.config/arcanaglyph/scripts/ag-trigger'"));
    assert!(command_is_legacy("'/home/u/.config/arcanaglyph/scripts/ag-pause'"));
    assert!(!command_is_legacy("'/usr/lib/arcanaglyph/arcanaglyph-noavx --trigger'"));
    assert!(!command_is_legacy("'/usr/bin/arcanaglyph --pause'"));
    assert!(!command_is_legacy("''"));
    assert!(!command_is_legacy(""));
    assert!(!command_is_legacy("   "));
}

#[test]
fn test_latin_to_cyrillic_keysym() {
    assert_eq!(latin_to_cyrillic_keysym("q"), Some("Cyrillic_shorti"));
    assert_eq!(latin_to_cyrillic_keysym("a"), Some("Cyrillic_ef"));
    assert_eq!(latin_to_cyrillic_keysym("m"), Some("Cyrillic_softsign"));
    assert_eq!(latin_to_cyrillic_keysym("grave"), Some("Cyrillic_io"));
    assert_eq!(latin_to_cyrillic_keysym("1"), None);
    assert_eq!(latin_to_cyrillic_keysym("space"), None);
}

#[test]
fn test_cyrillic_binding() {
    assert_eq!(
        cyrillic_binding("<Control>grave").as_deref(),
        Some("<Control>Cyrillic_io")
    );
    assert_eq!(
        cyrillic_binding("<Super><Alt>q").as_deref(),
        Some("<Super><Alt>Cyrillic_shorti")
    );
    assert_eq!(cyrillic_binding("<Control>space"), None);
    assert_eq!(cyrillic_binding("f1"), None);
}

#[test]
fn test_parse_gsettings_paths() {
    assert!(parse_gsettings_paths("@as []").is_empty());
    assert!(parse_gsettings_paths("").is_empty());
    assert_eq!(parse_gsettings_paths("['/a/b/']"), vec!["/a/b/".to_string()]);
    assert_eq!(
        parse_gsettings_paths("['/a/', '/b/', '/c/']"),
        vec!["/a/".to_string(), "/b/".to_string(), "/c/".to_string()]
    );
}

#[test]
fn test_binding_is_empty() {
    assert!(binding_is_empty(""));
    assert!(binding_is_empty("''"));
    assert!(binding_is_empty("No such schema"));
    assert!(!binding_is_empty("'<Control>grave'"));
}

#[test]
fn test_parse_setxkbmap_query() {
    let out = "rules:      evdev\nmodel:      pc105\nlayout:     us,ru\nvariant:    ,\n";
    let (layout, variant) = parse_setxkbmap_query(out);
    assert_eq!(layout, "us,ru");
    assert_eq!(variant, ",");
}

#[test]
fn test_build_setxkbmap_args() {
    assert_eq!(build_setxkbmap_args("us,ru", ""), ["-layout", "us,ru"]);
    assert_eq!(
        build_setxkbmap_args("us,ru", "colemak"),
        ["-layout", "us,ru", "-variant", "colemak"]
    );
}

#[test]
fn test_unquote_gsettings_value() {
    assert_eq!(unquote_gsettings_value("  '<Control>grave'  "), "<Control>grave");
    assert_eq!(unquote_gsettings_value(" foo "), "foo");
    assert_eq!(unquote_gsettings_value(""), "");
}

#[test]
fn test_builtin_conflict_name() {
    let text = "org.gnome.desktop.wm.keybindings switch-windows ['<Control>grave']\n\
                org.gnome.desktop.wm.keybindings close ['<Alt>F4']";
    assert_eq!(
        builtin_conflict_name(text, "<Control>grave").as_deref(),
        Some("switch-windows")
    );
    assert_eq!(builtin_conflict_name(text, "<Super>p"), None);
    assert_eq!(
        builtin_conflict_name("<Control>grave", "<Control>grave").as_deref(),
        Some("???")
    );
}

#[test]
fn append_keybinding_paths_adds_both_slots_once() {
    let mut paths = vec!["/other/".to_string()];
    append_keybinding_paths(&mut paths, "Control+`", "/lat/", "/cyr/");
    assert_eq!(paths, vec!["/other/".to_string(), "/lat/".to_string(), "/cyr/".to_string()]);
    append_keybinding_paths(&mut paths, "Control+`", "/lat/", "/cyr/");
    assert_eq!(paths.len(), 3);
}

#[test]
fn register_hotkey_pair_writes_latin_and_cyrillic_slots() {
    let writes = register_hotkey_pair("Control+`", "/lat/", "/cyr/", "Trigger", "Trigger RU", "/usr/bin/arcanaglyph --trigger");
    assert!(!writes.is_empty());
    assert!(writes.iter().any(|w| w.path == "/lat/" && w.key == "binding" && w.value == "'<Control>grave'"));
    assert!(writes.iter().any(|w| w.path == "/cyr/" && w.key == "binding" && w.value == "'<Control>Cyrillic_io'"));
}
