use arcanaglyph::proxy::{parse_gnome_proxy, parse_macos_scutil, parse_windows_proxy, prefix_http, proxy_url_from, unquote};

#[test]
fn gnome_manual_prefers_https() {
    let url = parse_gnome_proxy("'manual'", "'127.0.0.1'", "2080", "'10.0.0.1'", "3128");
    assert_eq!(url.as_deref(), Some("http://127.0.0.1:2080"));
}

#[test]
fn gnome_manual_falls_back_to_http() {
    let url = parse_gnome_proxy("'manual'", "''", "0", "'10.0.0.1'", "3128");
    assert_eq!(url.as_deref(), Some("http://10.0.0.1:3128"));
}

#[test]
fn gnome_none_and_auto_are_ignored() {
    assert_eq!(parse_gnome_proxy("'none'", "'127.0.0.1'", "2080", "", ""), None);
    assert_eq!(parse_gnome_proxy("'auto'", "'127.0.0.1'", "2080", "", ""), None);
}

#[test]
fn gnome_manual_but_empty_is_none() {
    assert_eq!(parse_gnome_proxy("'manual'", "''", "0", "''", "0"), None);
}

#[test]
fn windows_disabled_is_none() {
    assert_eq!(parse_windows_proxy(0, "127.0.0.1:2080"), None);
}

#[test]
fn windows_simple_host_port() {
    assert_eq!(
        parse_windows_proxy(1, "127.0.0.1:2080").as_deref(),
        Some("http://127.0.0.1:2080")
    );
}

#[test]
fn windows_per_scheme_prefers_https() {
    let url = parse_windows_proxy(1, "http=10.0.0.1:3128;https=127.0.0.1:2080");
    assert_eq!(url.as_deref(), Some("http://127.0.0.1:2080"));
}

#[test]
fn windows_per_scheme_http_only() {
    let url = parse_windows_proxy(1, "ftp=1.1.1.1:21;http=10.0.0.1:3128");
    assert_eq!(url.as_deref(), Some("http://10.0.0.1:3128"));
}

#[test]
fn windows_empty_is_none() {
    assert_eq!(parse_windows_proxy(1, "   "), None);
}

#[test]
fn macos_https_enabled() {
    let out = "<dictionary> {\n  HTTPSEnable : 1\n  HTTPSProxy : 127.0.0.1\n  HTTPSPort : 2080\n}";
    assert_eq!(parse_macos_scutil(out).as_deref(), Some("http://127.0.0.1:2080"));
}

#[test]
fn macos_https_disabled_is_none() {
    let out = "<dictionary> {\n  HTTPSEnable : 0\n  HTTPSProxy : 127.0.0.1\n  HTTPSPort : 2080\n}";
    assert_eq!(parse_macos_scutil(out), None);
}

#[test]
fn macos_missing_keys_is_none() {
    assert_eq!(parse_macos_scutil("<dictionary> {\n}"), None);
}

#[test]
fn proxy_url_from_trims_and_rejects_port_zero() {
    assert_eq!(proxy_url_from(" host ", " 8080 ").as_deref(), Some("http://host:8080"));
    assert_eq!(proxy_url_from("host", "0"), None);
    assert_eq!(proxy_url_from("", "8080"), None);
}

#[test]
fn prefix_http_keeps_existing_scheme() {
    assert_eq!(prefix_http(" https://h:1 ").as_deref(), Some("https://h:1"));
    assert_eq!(prefix_http("h:1").as_deref(), Some("http://h:1"));
    assert_eq!(prefix_http("  "), None);
}

#[test]
fn unquote_strips_quotes_and_blanks() {
    assert_eq!(unquote("  ' x '  "), "x");
}
