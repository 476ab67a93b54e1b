//! System proxy settings: turning what GNOME (`gsettings`), Windows
//! (WinINET registry) and macOS (`scutil --proxy`) report into a proxy URL.
use vstd::prelude::*;
use crate::text::{
    CharClass, chars_of, contains, contains_vec, eq_str, lines, lines_vec, push_all, push_str,
    split_by, split_once, split_once_vec, split_vec, starts_with, starts_with_vec, string_of,
    strip_prefix, strip_prefix_vec, trim, trim_by, trim_vec, vviews,
};

verus! {

/// A gsettings value without surrounding blanks and single quotes.
pub open spec fn spec_unquote(s: Seq<char>) -> Seq<char> {
    trim(trim_by(trim(s), CharClass::Is('\'')))
}

/// Strips blanks, then single quotes, then blanks again.
pub fn unquote(s: &str) -> (r: String)
    ensures
        r@ == spec_unquote(s@),
{
    let v = chars_of(s);
    let a = trim_vec(&v, &CharClass::Whitespace);
    let b = trim_vec(&a, &CharClass::Is('\''));
    let c = trim_vec(&b, &CharClass::Whitespace);
    string_of(&c)
}

/// `http://host:port` from a host and a port; none when either is blank or
/// the port is `0`.
pub open spec fn spec_proxy_url_from(host: Seq<char>, port: Seq<char>) -> Option<Seq<char>> {
    let h = trim(host);
    let p = trim(port);
    if h.len() == 0 || p.len() == 0 || p == "0"@ {
        None
    } else {
        Some("http://"@ + h + ":"@ + p)
    }
}

pub fn proxy_url_from(host: &str, port: &str) -> (r: Option<String>)
    ensures
        match r {
            Some(x) => spec_proxy_url_from(host@, port@) == Some(x@),
            None => spec_proxy_url_from(host@, port@) is None,
        },
{
    let hv = chars_of(host);
    let pv = chars_of(port);
    let h = trim_vec(&hv, &CharClass::Whitespace);
    let p = trim_vec(&pv, &CharClass::Whitespace);
    if h.len() == 0 || p.len() == 0 || eq_str(&p, "0") {
        return None;
    }
    let mut out = chars_of("http://");
    push_all(&mut out, &h);
    push_str(&mut out, ":");
    push_all(&mut out, &p);
    Some(string_of(&out))
}

/// The GNOME proxy: only in `manual` mode; the HTTPS host first, then the
/// HTTP one.
pub open spec fn spec_parse_gnome_proxy(
    mode: Seq<char>,
    https_host: Seq<char>,
    https_port: Seq<char>,
    http_host: Seq<char>,
    http_port: Seq<char>,
) -> Option<Seq<char>> {
    if spec_unquote(mode) != "manual"@ {
        None
    } else {
        match spec_proxy_url_from(spec_unquote(https_host), https_port) {
            Some(u) => Some(u),
            None => spec_proxy_url_from(spec_unquote(http_host), http_port),
        }
    }
}

/// Builds the proxy URL from the `org.gnome.system.proxy` values as
/// `gsettings get` prints them.
pub fn parse_gnome_proxy(
    mode: &str,
    https_host: &str,
    https_port: &str,
    http_host: &str,
    http_port: &str,
) -> (r: Option<String>)
    ensures
        match r {
            Some(x) => spec_parse_gnome_proxy(mode@, https_host@, https_port@, http_host@, http_port@)
                == Some(x@),
            None => spec_parse_gnome_proxy(
                mode@,
                https_host@,
                https_port@,
                http_host@,
                http_port@,
            ) is None,
        },
{
    let m = unquote(mode);
    let mv = chars_of(m.as_str());
    if !eq_str(&mv, "manual") {
        return None;
    }
    let hs = unquote(https_host);
    match proxy_url_from(hs.as_str(), https_port) {
        Some(u) => Some(u),
        None => {
            let h = unquote(http_host);
            proxy_url_from(h.as_str(), http_port)
        },
    }
}

/// `host:port` with an `http://` scheme unless it already has `http://` or
/// `https://`; none when blank.
pub open spec fn spec_prefix_http(host_port: Seq<char>) -> Option<Seq<char>> {
    let hp = trim(host_port);
    if hp.len() == 0 {
        None
    } else if starts_with(hp, "http://"@) || starts_with(hp, "https://"@) {
        Some(hp)
    } else {
        Some("http://"@ + hp)
    }
}

pub fn prefix_http(host_port: &str) -> (r: Option<String>)
    ensures
        match r {
            Some(x) => spec_prefix_http(host_port@) == Some(x@),
            None => spec_prefix_http(host_port@) is None,
        },
{
    let v = chars_of(host_port);
    let hp = trim_vec(&v, &CharClass::Whitespace);
    if hp.len() == 0 {
        return None;
    }
    let p1 = chars_of("http://");
    let p2 = chars_of("https://");
    if starts_with_vec(&hp, &p1) || starts_with_vec(&hp, &p2) {
        Some(string_of(&hp))
    } else {
        let mut out = chars_of("http://");
        push_all(&mut out, &hp);
        Some(string_of(&out))
    }
}

/// In a per-scheme list `a=h:p;b=h:p`, the trimmed value of the first
/// entry that starts with `scheme` once trimmed.
pub open spec fn scheme_entry(parts: Seq<Seq<char>>, scheme: Seq<char>) -> Option<Seq<char>>
    decreases parts.len(),
{
    if parts.len() == 0 {
        None
    } else {
        match strip_prefix(trim(parts[0]), scheme) {
            Some(hp) => Some(trim(hp)),
            None => scheme_entry(parts.drop_first(), scheme),
        }
    }
}

fn scheme_entry_vec(parts: &Vec<Vec<char>>, scheme: &str) -> (r: Option<Vec<char>>)
    ensures
        match r {
            Some(x) => scheme_entry(vviews(parts@), scheme@) == Some(x@),
            None => scheme_entry(vviews(parts@), scheme@) is None,
        },
{
    let sv = chars_of(scheme);
    let ghost pv = vviews(parts@);
    let mut i: usize = 0;
    assert(pv.subrange(0, pv.len() as int) =~= pv);
    while i < parts.len()
        invariant
            i <= parts.len(),
            pv == vviews(parts@),
            sv@ == scheme@,
            scheme_entry(pv, scheme@) == scheme_entry(pv.subrange(i as int, pv.len() as int), scheme@),
        decreases parts.len() - i,
    {
        assert(pv.subrange(i as int, pv.len() as int)[0] == parts@[i as int]@);
        let t = trim_vec(&parts[i], &CharClass::Whitespace);
        match strip_prefix_vec(&t, &sv) {
            Some(hp) => {
                return Some(trim_vec(&hp, &CharClass::Whitespace));
            },
            None => {},
        }
        assert(pv.subrange(i as int, pv.len() as int).drop_first() =~= pv.subrange(
            i + 1,
            pv.len() as int,
        ));
        i = i + 1;
    }
    None
}

/// The WinINET proxy: only when enabled (`1`); a per-scheme list prefers
/// `https=` over `http=`, a plain `host:port` is taken as is.
pub open spec fn spec_parse_windows_proxy(enable: u32, server: Seq<char>) -> Option<Seq<char>> {
    let s = trim(server);
    if enable != 1 || s.len() == 0 {
        None
    } else if contains(s, "="@) {
        let parts = split_by(s, CharClass::Is(';'));
        match scheme_entry(parts, "https="@) {
            Some(hp) => spec_prefix_http(hp),
            None => match scheme_entry(parts, "http="@) {
                Some(hp) => spec_prefix_http(hp),
                None => None,
            },
        }
    } else {
        spec_prefix_http(s)
    }
}

/// Builds the proxy URL from the registry values `ProxyEnable` and
/// `ProxyServer`.
pub fn parse_windows_proxy(enable: u32, server: &str) -> (r: Option<String>)
    ensures
        match r {
            Some(x) => spec_parse_windows_proxy(enable, server@) == Some(x@),
            None => spec_parse_windows_proxy(enable, server@) is None,
        },
{
    if enable != 1 {
        return None;
    }
    let v = chars_of(server);
    let s = trim_vec(&v, &CharClass::Whitespace);
    if s.len() == 0 {
        return None;
    }
    let eq = chars_of("=");
    let ss = string_of(&s);
    if contains_vec(&s, &eq) {
        let parts = split_vec(&s, &CharClass::Is(';'));
        let hp = match scheme_entry_vec(&parts, "https=") {
            Some(x) => x,
            None => match scheme_entry_vec(&parts, "http=") {
                Some(x) => x,
                None => {
                    return None;
                },
            },
        };
        let hs = string_of(&hp);
        prefix_http(hs.as_str())
    } else {
        prefix_http(ss.as_str())
    }
}

/// The value of a key in `scutil --proxy` output: lines `KEY : VALUE`
/// split at their first colon, both sides trimmed; a later line overrides
/// an earlier one.
pub open spec fn scutil_get(ls: Seq<Seq<char>>, key: Seq<char>) -> Option<Seq<char>>
    decreases ls.len(),
{
    if ls.len() == 0 {
        None
    } else {
        match split_once(ls.last(), ':') {
            Some(kv) => if trim(kv.0) == key {
                Some(trim(kv.1))
            } else {
                scutil_get(ls.drop_last(), key)
            },
            None => scutil_get(ls.drop_last(), key),
        }
    }
}

fn scutil_get_vec(ls: &Vec<Vec<char>>, key: &str) -> (r: Option<Vec<char>>)
    ensures
        match r {
            Some(x) => scutil_get(vviews(ls@), key@) == Some(x@),
            None => scutil_get(vviews(ls@), key@) is None,
        },
{
    let kv = chars_of(key);
    let ghost lv = vviews(ls@);
    let mut i: usize = ls.len();
    assert(lv.take(lv.len() as int) =~= lv);
    while i > 0
        invariant
            i <= ls.len(),
            lv == vviews(ls@),
            kv@ == key@,
            scutil_get(lv, key@) == scutil_get(lv.take(i as int), key@),
        decreases i,
    {
        let line = &ls[i - 1];
        assert(lv.take(i as int).last() == line@);
        assert(lv.take(i as int).drop_last() =~= lv.take(i - 1));
        match split_once_vec(line, ':') {
            Some(p) => {
                let k = trim_vec(&p.0, &CharClass::Whitespace);
                if crate::text::eq_vec(&k, &kv) {
                    return Some(trim_vec(&p.1, &CharClass::Whitespace));
                }
            },
            None => {},
        }
        i = i - 1;
    }
    None
}

/// The macOS proxy: the HTTPS proxy, when `HTTPSEnable` is `1` and both
/// `HTTPSProxy` and `HTTPSPort` are present.
pub open spec fn spec_parse_macos_scutil(output: Seq<char>) -> Option<Seq<char>> {
    let ls = lines(output);
    if scutil_get(ls, "HTTPSEnable"@) != Some("1"@) {
        None
    } else {
        match (scutil_get(ls, "HTTPSProxy"@), scutil_get(ls, "HTTPSPort"@)) {
            (Some(h), Some(p)) => spec_proxy_url_from(h, p),
            _ => None,
        }
    }
}

/// Builds the proxy URL from the output of `scutil --proxy`.
pub fn parse_macos_scutil(output: &str) -> (r: Option<String>)
    ensures
        match r {
            Some(x) => spec_parse_macos_scutil(output@) == Some(x@),
            None => spec_parse_macos_scutil(output@) is None,
        },
{
    let v = chars_of(output);
    let ls = lines_vec(&v);
    match scutil_get_vec(&ls, "HTTPSEnable") {
        Some(e) => {
            if !eq_str(&e, "1") {
                return None;
            }
        },
        None => {
            return None;
        },
    }
    let h = match scutil_get_vec(&ls, "HTTPSProxy") {
        Some(h) => h,
        None => {
            return None;
        },
    };
    let p = match scutil_get_vec(&ls, "HTTPSPort") {
        Some(p) => p,
        None => {
            return None;
        },
    };
    let hs = string_of(&h);
    let ps = string_of(&p);
    proxy_url_from(hs.as_str(), ps.as_str())
}

} // verus!
