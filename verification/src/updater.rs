//! Update checks against the project's release feed: release tags,
//! version order, the persisted checker state and what the banner shows.
use vstd::prelude::*;
use crate::error::ArcanaError;
use crate::history::{dec, digit};
use crate::text::{
    all_digits, digits_value, free_of, in_class, is_digit, lemma_split_append_free, lemma_split_push_sep,
    matches_at, starts_with, CharClass, chars_of, contains, contains_vec, ends_with, ends_with_vec, eq_str, parse_u32,
    parse_u32_vec, push_str, split_by, split_vec, string_of, strip_prefix, strip_prefix_vec, vviews,
};

verus! {

/// A release tag without its optional leading `v`.
pub open spec fn tag_core(tag: Seq<char>) -> Seq<char> {
    match strip_prefix(tag, "v"@) {
        Some(rest) => rest,
        None => tag,
    }
}

/// `MAJOR.MINOR.PATCH` of a release tag (`v1.7.0` or `1.7.0`); none for a
/// pre-release (`-`) or build (`+`) suffix, or any other shape.
pub open spec fn spec_parse_release_tag(tag: Seq<char>) -> Option<(u32, u32, u32)> {
    let s = tag_core(tag);
    let parts = split_by(s, CharClass::Is('.'));
    if contains(s, "-"@) || contains(s, "+"@) || parts.len() != 3 {
        None
    } else {
        match (parse_u32(parts[0]), parse_u32(parts[1]), parse_u32(parts[2])) {
            (Some(a), Some(b), Some(c)) => Some((a, b, c)),
            _ => None,
        }
    }
}

/// Parses a release tag into `(major, minor, patch)`.
pub fn parse_release_tag(tag: &str) -> (r: Option<(u32, u32, u32)>)
    ensures
        r == spec_parse_release_tag(tag@),
{
    let t = chars_of(tag);
    let v = chars_of("v");
    let s = match strip_prefix_vec(&t, &v) {
        Some(rest) => rest,
        None => t,
    };
    let minus = chars_of("-");
    let plus = chars_of("+");
    if contains_vec(&s, &minus) || contains_vec(&s, &plus) {
        return None;
    }
    let parts = split_vec(&s, &CharClass::Is('.'));
    if parts.len() != 3 {
        return None;
    }
    assert(vviews(parts@)[0] == parts@[0]@);
    assert(vviews(parts@)[1] == parts@[1]@);
    assert(vviews(parts@)[2] == parts@[2]@);
    let a = parse_u32_vec(&parts[0]);
    let b = parse_u32_vec(&parts[1]);
    let c = parse_u32_vec(&parts[2]);
    match (a, b, c) {
        (Some(a), Some(b), Some(c)) => Some((a, b, c)),
        _ => None,
    }
}

/// Lexicographic order on version triples.
pub open spec fn version_gt(l: (u32, u32, u32), c: (u32, u32, u32)) -> bool {
    l.0 > c.0 || (l.0 == c.0 && (l.1 > c.1 || (l.1 == c.1 && l.2 > c.2)))
}

pub open spec fn spec_is_newer(latest: Seq<char>, current: Seq<char>) -> bool {
    match (spec_parse_release_tag(latest), spec_parse_release_tag(current)) {
        (Some(l), Some(c)) => version_gt(l, c),
        _ => false,
    }
}

/// Whether `latest` is a strictly newer release than `current`; false when
/// either is not a plain release tag.
pub fn is_newer(latest: &str, current: &str) -> (r: bool)
    ensures
        r == spec_is_newer(latest@, current@),
{
    match (parse_release_tag(latest), parse_release_tag(current)) {
        (Some(l), Some(c)) => l.0 > c.0 || (l.0 == c.0 && (l.1 > c.1 || (l.1 == c.1 && l.2 > c.2))),
        _ => false,
    }
}

/// The tag text of a version, `MAJOR.MINOR.PATCH` in decimal.
pub open spec fn version_text(a: u32, b: u32, c: u32) -> Seq<char> {
    dec(a as nat).push('.') + dec(b as nat).push('.') + dec(c as nat)
}

proof fn lemma_dec_digits(n: nat)
    ensures
        dec(n).len() > 0,
        all_digits(dec(n)),
        digits_value(dec(n)) == n,
    decreases n,
{
    if n < 10 {
        let d = dec(n);
        assert(d.drop_last() =~= Seq::<char>::empty());
        assert(digits_value(d.drop_last()) == 0);
        assert(digit(n as int) as nat == n + 48);
        assert(d.last() == digit(n as int));
        assert(('0' as nat) == 48);
        assert(digits_value(d) == n);
    } else {
        lemma_dec_digits(n / 10);
        let d = dec(n);
        assert(d.drop_last() =~= dec(n / 10));
        assert(digit((n % 10) as int) as nat == n % 10 + 48);
        assert(d.last() == digit((n % 10) as int));
        assert(digits_value(d) == digits_value(dec(n / 10)) * 10 + n % 10);
        assert((n / 10) * 10 + n % 10 == n);
        assert forall|i: int| 0 <= i < d.len() implies is_digit(#[trigger] d[i]) by {
            if i < d.len() - 1 {
                assert(d[i] == dec(n / 10)[i]);
            }
        }
    }
}

proof fn lemma_parse_dec(n: u32)
    ensures
        parse_u32(dec(n as nat)) == Some(n),
        free_of(dec(n as nat), CharClass::Is('.')),
        !contains(dec(n as nat), "-"@),
        !contains(dec(n as nat), "+"@),
{
    lemma_dec_digits(n as nat);
    let d = dec(n as nat);
    assert(d[0] != '+');
    assert forall|j: int| 0 <= j < d.len() implies !in_class(CharClass::Is('.'), #[trigger] d[j]) by {
        assert(is_digit(d[j]));
    }
    reveal_strlit("-");
    reveal_strlit("+");
    assert forall|i: int| !matches_at(d, "-"@, i) by {
        if matches_at(d, "-"@, i) {
            assert(d.subrange(i, i + 1)[0] == d[i]);
            assert(is_digit(d[i]));
        }
    }
    assert forall|i: int| !matches_at(d, "+"@, i) by {
        if matches_at(d, "+"@, i) {
            assert(d.subrange(i, i + 1)[0] == d[i]);
            assert(is_digit(d[i]));
        }
    }
}

/// A version written as three decimal numbers, with or without a leading
/// `v`, parses back to those numbers; and whatever parses has no `-` or
/// `+` and exactly three dot-separated parts.
pub proof fn lemma_version_roundtrip(a: u32, b: u32, c: u32, tag: Seq<char>)
    ensures
        spec_parse_release_tag(version_text(a, b, c)) == Some((a, b, c)),
        spec_parse_release_tag("v"@ + version_text(a, b, c)) == Some((a, b, c)),
        spec_parse_release_tag(tag) is Some ==> !contains(tag_core(tag), "-"@) && !contains(tag_core(tag), "+"@)
            && split_by(tag_core(tag), CharClass::Is('.')).len() == 3,
{
    reveal_strlit("v");
    reveal_strlit("-");
    reveal_strlit("+");
    let k = CharClass::Is('.');
    lemma_parse_dec(a);
    lemma_parse_dec(b);
    lemma_parse_dec(c);
    let da = dec(a as nat);
    let db = dec(b as nat);
    let dc = dec(c as nat);
    let s = version_text(a, b, c);
    // The three pieces between the dots.
    lemma_split_append_free(Seq::<char>::empty(), da, k);
    assert(Seq::<char>::empty() + da =~= da);
    assert(split_by(Seq::<char>::empty(), k) =~= seq![Seq::<char>::empty()]);
    assert(split_by(da, k) =~= seq![da]);
    lemma_split_push_sep(da, '.', k);
    let s1 = da.push('.');
    lemma_split_append_free(s1, db, k);
    let s2 = s1 + db;
    assert(split_by(s2, k) =~= seq![da, db]);
    lemma_split_push_sep(s2, '.', k);
    let s3 = s2.push('.');
    lemma_split_append_free(s3, dc, k);
    assert(s3 + dc =~= s);
    assert(split_by(s, k) =~= seq![da, db, dc]);
    // No sign characters anywhere.
    lemma_dec_digits(a as nat);
    lemma_dec_digits(b as nat);
    lemma_dec_digits(c as nat);
    assert forall|i: int| 0 <= i < s.len() implies #[trigger] s[i] != '-' && s[i] != '+' by {
        if i < da.len() {
            assert(s[i] == da[i]);
            assert(is_digit(da[i]));
        } else if i == da.len() {
            assert(s[i] == '.');
        } else if i < da.len() + 1 + db.len() {
            let j = i - da.len() - 1;
            assert(s[i] == db[j]);
            assert(is_digit(db[j]));
        } else if i == da.len() + 1 + db.len() {
            assert(s[i] == '.');
        } else {
            let j = i - da.len() - 2 - db.len();
            assert(s[i] == dc[j]);
            assert(is_digit(dc[j]));
        }
    }
    assert("-"@.len() == 1 && "-"@[0] == '-' && "+"@.len() == 1 && "+"@[0] == '+');
    assert forall|i: int| !matches_at(s, "-"@, i) && !matches_at(s, "+"@, i) by {
        if matches_at(s, "-"@, i) || matches_at(s, "+"@, i) {
            assert(s.subrange(i, i + 1)[0] == s[i]);
        }
    }
    // Without a prefix the text starts with a digit, not `v`.
    assert(s[0] == da[0]);
    assert(is_digit(da[0]));
    assert(!starts_with(s, "v"@)) by {
        if starts_with(s, "v"@) {
            assert(s.subrange(0, 1)[0] == s[0]);
        }
    }
    assert(tag_core(s) == s);
    let vs = "v"@ + s;
    assert(starts_with(vs, "v"@)) by {
        assert(vs.subrange(0, 1) =~= "v"@);
    }
    assert(vs.subrange(1, vs.len() as int) =~= s);
    assert(tag_core(vs) == s);
}

/// A release is never newer than itself.
pub proof fn lemma_is_newer_irreflexive(v: Seq<char>)
    ensures
        !spec_is_newer(v, v),
{
}

/// Newer-than is asymmetric.
pub proof fn lemma_is_newer_asymmetric(a: Seq<char>, b: Seq<char>)
    ensures
        spec_is_newer(a, b) ==> !spec_is_newer(b, a),
{
}

/// Newer-than is transitive.
pub proof fn lemma_is_newer_transitive(a: Seq<char>, b: Seq<char>, c: Seq<char>)
    ensures
        spec_is_newer(a, b) && spec_is_newer(b, c) ==> spec_is_newer(a, c),
{
}

/// Seconds since the Unix epoch by the system clock
/// (`SystemTime::now().duration_since(UNIX_EPOCH)`), none when the clock is
/// set before the epoch. Nothing is claimed of the value: it is the time.
#[verifier::external_body]
fn system_clock_secs() -> Option<u64> {
    match std::time::SystemTime::now().duration_since(std::time::UNIX_EPOCH) {
        Ok(d) => Some(d.as_secs()),
        Err(_) => None,
    }
}

/// The Unix time read from a clock reading: its seconds as `i64`, or zero
/// when the clock stood before the epoch.
pub fn unix_secs(since_epoch: Option<u64>) -> (r: i64)
    ensures
        r == match since_epoch {
            Some(s) => s as i64,
            None => 0i64,
        },
{
    match since_epoch {
        Some(s) => s as i64,
        None => 0,
    }
}

/// The current Unix time in seconds (zero when the clock is set before
/// the epoch).
pub fn unix_now() -> i64 {
    unix_secs(system_clock_secs())
}

/// Seconds between periodic update checks: 23 hours.
pub const CHECK_INTERVAL_SECS: i64 = 82800;

pub open spec fn spec_update_check_due(last_check_at: Option<i64>, now: i64, force: bool) -> bool {
    force || match last_check_at {
        Some(t) => now - t >= CHECK_INTERVAL_SECS,
        None => true,
    }
}

/// Whether a network update check is due: always when forced (the first
/// run after start) or never checked, else once 23 hours have passed.
pub fn update_check_due(last_check_at: Option<i64>, now: i64, force: bool) -> (r: bool)
    requires
        !force ==> match last_check_at {
            Some(t) => i64::MIN <= now - t <= i64::MAX,
            None => true,
        },
    ensures
        r == spec_update_check_due(last_check_at, now, force),
{
    force || match last_check_at {
        Some(t) => now - t >= CHECK_INTERVAL_SECS,
        None => true,
    }
}

/// Seconds to wait between checks after a success: one day.
pub const CHECK_PERIOD_SECS: u64 = 86400;

/// Longest wait between checks after repeated failures: seven days.
pub const MAX_BACKOFF_SECS: u64 = 604800;

pub open spec fn spec_next_backoff(backoff_secs: u64, check_failed: bool) -> u64 {
    if !check_failed {
        CHECK_PERIOD_SECS
    } else if backoff_secs * 2 < MAX_BACKOFF_SECS {
        (backoff_secs * 2) as u64
    } else {
        MAX_BACKOFF_SECS
    }
}

/// The wait before the next check: back to a day after a completed check,
/// doubled (up to a week) after a failed one.
pub fn next_backoff(backoff_secs: u64, check_failed: bool) -> (r: u64)
    requires
        backoff_secs <= MAX_BACKOFF_SECS,
    ensures
        r == spec_next_backoff(backoff_secs, check_failed),
        r <= MAX_BACKOFF_SECS,
{
    if !check_failed {
        CHECK_PERIOD_SECS
    } else if backoff_secs * 2 < MAX_BACKOFF_SECS {
        backoff_secs * 2
    } else {
        MAX_BACKOFF_SECS
    }
}

/// An available update, as shown to the user.
#[derive(Debug, Clone)]
pub struct UpdateInfo {
    pub latest_version: String,
    pub release_url: String,
    pub published_at: String,
}

/// What one request to the release feed gave.
#[derive(Debug, Clone)]
pub enum ReleaseFetch {
    /// The release is unchanged since the stored entity tag.
    NotModified,
    /// A release with an installable asset for this platform.
    Available { info: UpdateInfo, etag: Option<String> },
    /// A release with nothing installable yet, or a pre-release tag.
    Unavailable { etag: Option<String> },
}

/// The update checker's persisted state.
#[derive(Debug, Clone)]
pub struct UpdateState {
    pub last_check_at: Option<i64>,
    pub latest_known: Option<String>,
    pub latest_release_url: Option<String>,
    pub latest_published_at: Option<String>,
    pub dismissed_version: Option<String>,
    pub applying_version: Option<String>,
    pub etag: Option<String>,
}

impl Default for UpdateState {
    fn default() -> (r: UpdateState)
        ensures
            r.last_check_at is None,
            r.latest_known is None,
            r.latest_release_url is None,
            r.latest_published_at is None,
            r.dismissed_version is None,
            r.applying_version is None,
            r.etag is None,
    {
        UpdateState::new()
    }
}

impl UpdateState {
    /// The state before any check: every field empty.
    pub fn new() -> (r: UpdateState)
        ensures
            r.last_check_at is None,
            r.latest_known is None,
            r.latest_release_url is None,
            r.latest_published_at is None,
            r.dismissed_version is None,
            r.applying_version is None,
            r.etag is None,
    {
        UpdateState {
            last_check_at: None,
            latest_known: None,
            latest_release_url: None,
            latest_published_at: None,
            dismissed_version: None,
            applying_version: None,
            etag: None,
        }
    }
}

/// The text of an optional string.
pub open spec fn oview(o: Option<String>) -> Option<Seq<char>> {
    match o {
        Some(s) => Some(s@),
        None => None,
    }
}

fn opt_eq_str(o: &Option<String>, s: &String) -> (r: bool)
    ensures
        r == (oview(*o) == Some(s@)),
{
    match o {
        Some(x) => {
            let a = chars_of(x.as_str());
            eq_str(&a, s.as_str())
        },
        None => false,
    }
}

/// Whether the banner may offer this release: newer than the running
/// version, neither dismissed nor already being installed.
pub open spec fn offerable(
    latest: Seq<char>,
    app_version: Seq<char>,
    dismissed: Option<Seq<char>>,
    applying: Option<Seq<char>>,
) -> bool {
    spec_is_newer(latest, app_version) && dismissed != Some(latest) && applying != Some(latest)
}

/// The state after one check at `now`, and the update to announce: a
/// fetched installable release becomes the latest known one; a new entity
/// tag replaces the stored one; the update is announced only when
/// offerable.
pub fn apply_release_fetch(state: UpdateState, fetch: ReleaseFetch, now: i64, app_version: &str) -> (r: (
    UpdateState,
    Option<UpdateInfo>,
))
    ensures
        r.0.last_check_at == Some(now),
        r.0.dismissed_version == state.dismissed_version,
        r.0.applying_version == state.applying_version,
        match fetch {
            ReleaseFetch::Available { info, etag } => {
                &&& oview(r.0.latest_known) == Some(info.latest_version@)
                &&& oview(r.0.latest_release_url) == Some(info.release_url@)
                &&& oview(r.0.latest_published_at) == Some(info.published_at@)
                &&& r.0.etag == (if etag is Some {
                    etag
                } else {
                    state.etag
                })
                &&& r.1 == (if offerable(
                    info.latest_version@,
                    app_version@,
                    oview(state.dismissed_version),
                    oview(state.applying_version),
                ) {
                    Some(info)
                } else {
                    None
                })
            },
            ReleaseFetch::Unavailable { etag } => {
                &&& r.0.latest_known == state.latest_known
                &&& r.0.latest_release_url == state.latest_release_url
                &&& r.0.latest_published_at == state.latest_published_at
                &&& r.0.etag == (if etag is Some {
                    etag
                } else {
                    state.etag
                })
                &&& r.1 is None
            },
            ReleaseFetch::NotModified => {
                &&& r.0.latest_known == state.latest_known
                &&& r.0.latest_release_url == state.latest_release_url
                &&& r.0.latest_published_at == state.latest_published_at
                &&& r.0.etag == state.etag
                &&& r.1 is None
            },
        },
{
    let mut st = state;
    st.last_check_at = Some(now);
    match fetch {
        ReleaseFetch::Available { info, etag } => {
            st.latest_known = Some(info.latest_version.clone());
            st.latest_release_url = Some(info.release_url.clone());
            st.latest_published_at = Some(info.published_at.clone());
            match etag {
                Some(e) => {
                    st.etag = Some(e);
                },
                None => {},
            }
            let newer = is_newer(info.latest_version.as_str(), app_version);
            let dismissed = opt_eq_str(&st.dismissed_version, &info.latest_version);
            let applying = opt_eq_str(&st.applying_version, &info.latest_version);
            if newer && !dismissed && !applying {
                (st, Some(info))
            } else {
                (st, None)
            }
        },
        ReleaseFetch::Unavailable { etag } => {
            match etag {
                Some(e) => {
                    st.etag = Some(e);
                },
                None => {},
            }
            (st, None)
        },
        ReleaseFetch::NotModified => (st, None),
    }
}

/// The update to announce from the stored state alone, without a request.
pub open spec fn spec_cached_pending(state: UpdateState, app_version: Seq<char>) -> Option<
    (Seq<char>, Seq<char>, Seq<char>),
> {
    match oview(state.latest_known) {
        Some(latest) => if offerable(
            latest,
            app_version,
            oview(state.dismissed_version),
            oview(state.applying_version),
        ) {
            Some(
                (
                    latest,
                    match oview(state.latest_release_url) {
                        Some(u) => u,
                        None => Seq::empty(),
                    },
                    match oview(state.latest_published_at) {
                        Some(p) => p,
                        None => Seq::empty(),
                    },
                ),
            )
        } else {
            None
        },
        None => None,
    }
}

fn string_or_empty(o: Option<String>) -> (r: String)
    ensures
        r@ == match oview(o) {
            Some(s) => s,
            None => Seq::empty(),
        },
{
    match o {
        Some(s) => s,
        None => String::new(),
    }
}

/// The update the stored state still offers: the latest known release,
/// when offerable, with its page and date (empty when unknown).
pub fn cached_pending_update(state: UpdateState, app_version: &str) -> (r: Option<UpdateInfo>)
    ensures
        match r {
            Some(i) => spec_cached_pending(state, app_version@) == Some(
                (i.latest_version@, i.release_url@, i.published_at@),
            ),
            None => spec_cached_pending(state, app_version@) is None,
        },
{
    let latest = match &state.latest_known {
        Some(l) => l.clone(),
        None => {
            return None;
        },
    };
    if !is_newer(latest.as_str(), app_version) {
        return None;
    }
    if opt_eq_str(&state.dismissed_version, &latest) {
        return None;
    }
    if opt_eq_str(&state.applying_version, &latest) {
        return None;
    }
    Some(
        UpdateInfo {
            latest_version: latest,
            release_url: string_or_empty(state.latest_release_url),
            published_at: string_or_empty(state.latest_published_at),
        },
    )
}

/// Records a version the user dismissed.
pub fn dismiss(state: &mut UpdateState, version: &str)
    ensures
        oview(final(state).dismissed_version) == Some(version@),
        final(state).last_check_at == old(state).last_check_at,
        final(state).latest_known == old(state).latest_known,
        final(state).latest_release_url == old(state).latest_release_url,
        final(state).latest_published_at == old(state).latest_published_at,
        final(state).applying_version == old(state).applying_version,
        final(state).etag == old(state).etag,
{
    state.dismissed_version = Some(String::from_str(version));
}

/// Records the version being installed.
pub fn set_applying(state: &mut UpdateState, version: &str)
    ensures
        oview(final(state).applying_version) == Some(version@),
        final(state).last_check_at == old(state).last_check_at,
        final(state).latest_known == old(state).latest_known,
        final(state).latest_release_url == old(state).latest_release_url,
        final(state).latest_published_at == old(state).latest_published_at,
        final(state).dismissed_version == old(state).dismissed_version,
        final(state).etag == old(state).etag,
{
    state.applying_version = Some(String::from_str(version));
}

/// Forgets the version being installed.
pub fn clear_applying(state: &mut UpdateState)
    ensures
        final(state).applying_version is None,
        final(state).last_check_at == old(state).last_check_at,
        final(state).latest_known == old(state).latest_known,
        final(state).latest_release_url == old(state).latest_release_url,
        final(state).latest_published_at == old(state).latest_published_at,
        final(state).dismissed_version == old(state).dismissed_version,
        final(state).etag == old(state).etag,
{
    state.applying_version = None;
}

/// The version being installed, if any.
pub fn applying_version(state: &UpdateState) -> (r: Option<String>)
    ensures
        r == state.applying_version,
{
    match &state.applying_version {
        Some(v) => Some(v.clone()),
        None => None,
    }
}

/// One asset of a release, as the release feed describes it.
#[derive(Debug, Clone)]
pub struct ReleaseAsset {
    pub name: Option<String>,
    pub state: Option<String>,
    pub browser_download_url: Option<String>,
}

/// An asset installable on this platform: its name ends with the
/// platform's package extension and its upload has finished.
pub open spec fn installable(a: ReleaseAsset, ext: Seq<char>) -> bool {
    match (oview(a.name), oview(a.state)) {
        (Some(n), Some(s)) => ends_with(n, ext) && s == "uploaded"@,
        _ => false,
    }
}

fn is_installable(a: &ReleaseAsset, ext: &str) -> (r: bool)
    ensures
        r == installable(*a, ext@),
{
    match (&a.name, &a.state) {
        (Some(n), Some(s)) => {
            let nv = chars_of(n.as_str());
            let ev = chars_of(ext);
            let sv = chars_of(s.as_str());
            ends_with_vec(&nv, &ev) && eq_str(&sv, "uploaded")
        },
        _ => false,
    }
}

/// Whether some asset of `a` is installable for the extension `ext`.
pub open spec fn has_installable(a: Seq<ReleaseAsset>, ext: Seq<char>) -> bool {
    exists|i: int| 0 <= i < a.len() && #[trigger] installable(a[i], ext)
}

pub open spec fn spec_has_installable(assets: Option<Seq<ReleaseAsset>>, ext: Seq<char>) -> bool {
    match assets {
        Some(a) => has_installable(a, ext),
        None => false,
    }
}

/// Whether a release (its asset list, none when the feed gave no list)
/// holds an installable asset for the platform extension `ext`.
pub fn release_has_installable_asset(assets: Option<&Vec<ReleaseAsset>>, ext: &str) -> (r: bool)
    ensures
        r == spec_has_installable(
            match assets {
                Some(a) => Some(a@),
                None => None,
            },
            ext@,
        ),
{
    let a = match assets {
        Some(a) => a,
        None => {
            return false;
        },
    };
    let mut i: usize = 0;
    while i < a.len()
        invariant
            i <= a.len(),
            assets == Some(a),
            forall|j: int| 0 <= j < i ==> !installable(#[trigger] a@[j], ext@),
        decreases a.len() - i,
    {
        if is_installable(&a[i], ext) {
            assert(installable(a@[i as int], ext@));
            assert(has_installable(a@, ext@));
            return true;
        }
        i = i + 1;
    }
    false
}

/// The download address of the first installable asset that has one.
pub open spec fn first_installable_url(a: Seq<ReleaseAsset>, ext: Seq<char>) -> Option<Seq<char>>
    decreases a.len(),
{
    if a.len() == 0 {
        None
    } else if installable(a[0], ext) && a[0].browser_download_url is Some {
        oview(a[0].browser_download_url)
    } else {
        first_installable_url(a.drop_first(), ext)
    }
}

/// The download address of the installable asset for the platform
/// extension `ext`, if the release has one.
pub fn installable_asset_url(assets: Option<&Vec<ReleaseAsset>>, ext: &str) -> (r: Option<String>)
    ensures
        oview(r) == match assets {
            Some(a) => first_installable_url(a@, ext@),
            None => None,
        },
{
    let a = match assets {
        Some(a) => a,
        None => {
            return None;
        },
    };
    let mut i: usize = 0;
    assert(a@.subrange(0, a@.len() as int) =~= a@);
    while i < a.len()
        invariant
            i <= a.len(),
            assets == Some(a),
            first_installable_url(a@, ext@) == first_installable_url(
                a@.subrange(i as int, a@.len() as int),
                ext@,
            ),
        decreases a.len() - i,
    {
        assert(a@.subrange(i as int, a@.len() as int)[0] == a@[i as int]);
        if is_installable(&a[i], ext) {
            match &a[i].browser_download_url {
                Some(u) => {
                    return Some(u.clone());
                },
                None => {},
            }
        }
        assert(a@.subrange(i as int, a@.len() as int).drop_first() =~= a@.subrange(
            i + 1,
            a@.len() as int,
        ));
        i = i + 1;
    }
    None
}

/// The classification of a fetched release body: a tag that is not a
/// plain release, or a release without an installable asset, is
/// `Unavailable`; otherwise the release (tag without `v`) is `Available`.
pub open spec fn spec_release_from_body(
    tag_name: Seq<char>,
    assets: Option<Seq<ReleaseAsset>>,
    ext: Seq<char>,
) -> bool {
    spec_parse_release_tag(tag_name) is Some && spec_has_installable(assets, ext)
}

/// Turns the fields of a fetched release into a `ReleaseFetch`, keeping the
/// response's entity tag in either case.
pub fn release_from_body(
    tag_name: &str,
    html_url: String,
    published_at: String,
    assets: Option<&Vec<ReleaseAsset>>,
    etag: Option<String>,
    ext: &str,
) -> (r: ReleaseFetch)
    ensures
        spec_release_from_body(
            tag_name@,
            match assets {
                Some(a) => Some(a@),
                None => None,
            },
            ext@,
        ) ==> (r matches ReleaseFetch::Available { info, etag: e } && info.latest_version@
            == tag_core(tag_name@) && info.release_url == html_url && info.published_at
            == published_at && e == etag),
        !spec_release_from_body(
            tag_name@,
            match assets {
                Some(a) => Some(a@),
                None => None,
            },
            ext@,
        ) ==> r == (ReleaseFetch::Unavailable { etag }),
{
    if parse_release_tag(tag_name).is_none() {
        return ReleaseFetch::Unavailable { etag };
    }
    if !release_has_installable_asset(assets, ext) {
        return ReleaseFetch::Unavailable { etag };
    }
    let t = chars_of(tag_name);
    let v = chars_of("v");
    let core = match strip_prefix_vec(&t, &v) {
        Some(rest) => rest,
        None => t,
    };
    ReleaseFetch::Available {
        info: UpdateInfo {
            latest_version: crate::text::string_of(&core),
            release_url: html_url,
            published_at,
        },
        etag,
    }
}

/// The banner never offers the dismissed release, nor the one being
/// installed; what it offers is always newer than the running version.
pub proof fn lemma_offer_respects_dismiss_and_apply(state: UpdateState, app_version: Seq<char>)
    ensures
        spec_cached_pending(state, app_version) matches Some((v, _, _)) ==> {
            &&& spec_is_newer(v, app_version)
            &&& oview(state.dismissed_version) != Some(v)
            &&& oview(state.applying_version) != Some(v)
        },
{
}

/// Dismissing hides only the dismissed release: once a newer release is
/// the latest known one, it is offered again (unless it is being
/// installed).
pub proof fn lemma_newer_release_returns_after_dismiss(state: UpdateState, app_version: Seq<char>)
    requires
        oview(state.latest_known) is Some,
        oview(state.dismissed_version) != oview(state.latest_known),
        oview(state.applying_version) != oview(state.latest_known),
        spec_is_newer(oview(state.latest_known)->0, app_version),
    ensures
        spec_cached_pending(state, app_version) is Some,
{
}

/// Where the install script is fetched from.
pub const INSTALL_URL: &'static str = "https://github.com/py-art/arcanaglyph/raw/main/install.sh";

/// The lines printed before the install script runs, telling the user what
/// the terminal will ask of them.
pub open spec fn install_preamble() -> Seq<char> {
    "echo '=== Обновление ArcanaGlyph ==='; echo 'Сейчас будет скачан и установлен новый пакет.'; echo '1. Дождитесь окончания скачивания (проценты дойдут до 100%).'; echo '2. Затем потребуется ВВОД ПАРОЛЯ (sudo) — введите пароль пользователя'; echo '   и нажмите Enter (символы при вводе не отображаются).'; echo '3. После установки появится строка «Press Enter to close» — нажмите Enter.'; echo '4. Вернитесь в приложение и нажмите «Перезапустить».'; echo '==============================='; echo; bash "@
}

/// The shell command the terminal runs to install an update: the preamble,
/// the downloaded script, then (on exit status 0) the ready flag file is
/// created; the window stays open until Enter.
pub open spec fn spec_install_command(script: Seq<char>, ready_flag: Seq<char>) -> Seq<char> {
    install_preamble() + script + " ; ec=$?; if [ \"$ec\" = 0 ]; then : > '"@ + ready_flag
        + "'; fi; echo; echo \"Exit: $ec\"; echo 'Press Enter to close'; read"@
}

/// Builds the terminal's install command.
pub fn install_command(script: &str, ready_flag: &str) -> (r: String)
    ensures
        r@ == spec_install_command(script@, ready_flag@),
{
    let mut m = chars_of(
        "echo '=== Обновление ArcanaGlyph ==='; echo 'Сейчас будет скачан и установлен новый пакет.'; echo '1. Дождитесь окончания скачивания (проценты дойдут до 100%).'; echo '2. Затем потребуется ВВОД ПАРОЛЯ (sudo) — введите пароль пользователя'; echo '   и нажмите Enter (символы при вводе не отображаются).'; echo '3. После установки появится строка «Press Enter to close» — нажмите Enter.'; echo '4. Вернитесь в приложение и нажмите «Перезапустить».'; echo '==============================='; echo; bash ",
    );
    push_str(&mut m, script);
    push_str(&mut m, " ; ec=$?; if [ \"$ec\" = 0 ]; then : > '");
    push_str(&mut m, ready_flag);
    push_str(&mut m, "'; fi; echo; echo \"Exit: $ec\"; echo 'Press Enter to close'; read");
    string_of(&m)
}

/// What the user is told when no terminal is found: to run the install
/// script by hand.
pub fn no_terminal_message() -> (r: String)
    ensures
        r@ == "Терминал не найден. Запустите вручную:\n  curl -fsSL "@ + INSTALL_URL@ + " | bash"@,
{
    let mut m = chars_of("Терминал не найден. Запустите вручную:\n  curl -fsSL ");
    push_str(&mut m, INSTALL_URL);
    push_str(&mut m, " | bash");
    string_of(&m)
}

/// The fields of a release body that the update check reads.
#[derive(Debug, Clone)]
pub struct ReleaseBody {
    pub tag_name: String,
    pub html_url: String,
    pub published_at: String,
    pub assets: Option<Vec<ReleaseAsset>>,
}

/// The reply of the release feed, handled by its HTTP status: `304` means
/// not modified, any other status outside `200..=299` is an error, and a
/// success is read from its body (an error when the body is no JSON, given
/// as the parser's message), keeping the reply's entity tag.
pub fn release_from_reply(status: u16, etag: Option<String>, body: Result<ReleaseBody, String>, ext: &str) -> (r:
    Result<ReleaseFetch, ArcanaError>)
    ensures
        status == 304 ==> r == Ok::<ReleaseFetch, ArcanaError>(ReleaseFetch::NotModified),
        status != 304 && !(200 <= status <= 299) ==> (r matches Err(ArcanaError::Internal(m)) && m@
            == "GitHub API status "@ + dec(status as nat)),
        status != 304 && 200 <= status <= 299 && body is Err ==> (r matches Err(ArcanaError::Internal(m)) && m@
            == "GitHub API parse: "@ + body->Err_0@),
        status != 304 && 200 <= status <= 299 && body is Ok ==> {
            let b = body->Ok_0;
            let ok = spec_release_from_body(
                b.tag_name@,
                match b.assets {
                    Some(a) => Some(a@),
                    None => None,
                },
                ext@,
            );
            &&& r is Ok
            &&& ok ==> (r->Ok_0 matches ReleaseFetch::Available { info, etag: e } && info.latest_version@
                == tag_core(b.tag_name@) && info.release_url == b.html_url && info.published_at
                == b.published_at && e == etag)
            &&& !ok ==> r->Ok_0 == (ReleaseFetch::Unavailable { etag })
        },
{
    if status == 304 {
        return Ok(ReleaseFetch::NotModified);
    }
    if !(200 <= status && status <= 299) {
        let mut m = chars_of("GitHub API status ");
        crate::text::push_all(&mut m, &crate::history::dec_text(status as u64));
        return Err(ArcanaError::Internal(string_of(&m)));
    }
    match body {
        Err(e) => {
            let mut m = chars_of("GitHub API parse: ");
            push_str(&mut m, e.as_str());
            Err(ArcanaError::Internal(string_of(&m)))
        },
        Ok(b) => Ok(
            release_from_body(b.tag_name.as_str(), b.html_url, b.published_at, b.assets.as_ref(), etag, ext),
        ),
    }
}

} // verus!
