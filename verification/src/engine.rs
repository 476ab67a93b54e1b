use vstd::prelude::*;

use crate::error::{ArcanaError, error_text};
use crate::text::starts_with;
use crate::transcript::{remove_filler_words, spec_remove_filler_words};

verus! {

/// How a recognised text is delivered.
#[derive(Debug, Clone, Copy, PartialEq, Eq, Structural)]
pub struct Delivery {
    /// Type the text into the active window (only while our window is
    /// hidden in the tray).
    pub should_type: bool,
    /// Ask for the window to come to the front (while it is visible).
    pub should_focus: bool,
}

/// Types only while the window is hidden, focuses while it is visible.
pub fn classify_delivery(auto_type: bool, is_visible: bool) -> (r: Delivery)
    ensures
        r == (Delivery { should_type: auto_type && !is_visible, should_focus: is_visible }),
{
    Delivery { should_type: auto_type && !is_visible, should_focus: is_visible }
}

/// The text stored in the history: the transcript, without its filler words
/// when `remove_fillers` is set.
pub fn build_history_entry(rec_text: &str, remove_fillers: bool) -> (r: String)
    ensures
        remove_fillers ==> r@ == spec_remove_filler_words(rec_text@),
        !remove_fillers ==> r@ == rec_text@,
{
    if remove_fillers {
        remove_filler_words(rec_text)
    } else {
        rec_text.to_owned()
    }
}

#[verifier::external_type_specification]
#[verifier::external_body]
pub struct ExJoinError(tokio::task::JoinError);

/// The debug text of a failed blocking task (`<JoinError as Debug>::fmt`).
/// Claimed: it starts with `JoinError::`, which every variant of tokio's
/// implementation writes first; the rest (task id, panic text) is not stated.
#[verifier::external_body]
pub(crate) fn join_error_text(e: &tokio::task::JoinError) -> (r: String)
    ensures
        starts_with(r@, "JoinError::"@),
{
    format!("{:?}", e)
}

/// The prefix of the message for a microphone check whose task failed.
pub open spec fn mic_task_prefix() -> Seq<char> {
    "Ошибка проверки микрофона: "@
}

/// The error text of a microphone check run as a blocking task: none when
/// the microphone works, the error's text when the check failed, and a
/// message naming the task failure when the task itself failed.
pub fn mic_error_message(mic_check: Result<Result<(), ArcanaError>, tokio::task::JoinError>) -> (r:
    Option<String>)
    ensures
        (mic_check is Ok && mic_check->Ok_0 is Ok) ==> r is None,
        (mic_check is Ok && mic_check->Ok_0 is Err) ==> r is Some && r->0@ == error_text(
            mic_check->Ok_0->Err_0,
        ),
        mic_check is Err ==> {
            &&& r is Some
            &&& starts_with(r->0@, mic_task_prefix())
            &&& starts_with(
                r->0@.subrange(mic_task_prefix().len() as int, r->0@.len() as int),
                "JoinError::"@,
            )
        },
{
    match mic_check {
        Ok(Err(e)) => Some(e.to_string()),
        Err(e) => {
            let t = join_error_text(&e);
            let mut m = "Ошибка проверки микрофона: ".to_owned();
            m.append(t.as_str());
            proof {
                let p = mic_task_prefix();
                assert(m@ == p + t@);
                assert(m@.subrange(0, p.len() as int) =~= p);
                assert(m@.subrange(p.len() as int, m@.len() as int) =~= t@);
            }
            Some(m)
        },
        Ok(Ok(())) => None,
    }
}

/// The unload timeout, in seconds, for a setting in minutes; zero turns
/// unloading off.
pub fn ttl_from_minutes(ttl_min: u64) -> (r: Option<u64>)
    requires
        ttl_min * 60 <= u64::MAX,
    ensures
        ttl_min == 0 ==> r is None,
        ttl_min > 0 ==> r == Some((ttl_min * 60) as u64),
{
    if ttl_min == 0 {
        None
    } else {
        Some(ttl_min * 60)
    }
}

/// A loaded model as the unloading logic sees it.
#[derive(Debug, Clone)]
pub struct PoolEntry {
    /// The model's name, its key in the pool.
    pub name: String,
    /// Nanoseconds since it was last used (zero when it never was).
    pub idle_nanos: u128,
    /// Whether something besides the pool holds it: an inference runs.
    pub in_use: bool,
}

/// Whether the entry may be unloaded: not the active model, idle for at
/// least `ttl`, and not in use.
pub open spec fn evictable(e: PoolEntry, active: Seq<char>, ttl: u128) -> bool {
    e.name@ != active && e.idle_nanos >= ttl && !e.in_use
}

/// The names of the entries that may be unloaded, in pool order.
pub open spec fn candidates_of(pool: Seq<PoolEntry>, active: Seq<char>, ttl: u128) -> Seq<Seq<char>>
    decreases pool.len(),
{
    if pool.len() == 0 {
        seq![]
    } else if evictable(pool.last(), active, ttl) {
        candidates_of(pool.drop_last(), active, ttl).push(pool.last().name@)
    } else {
        candidates_of(pool.drop_last(), active, ttl)
    }
}

fn str_eq(a: &String, b: &str) -> (r: bool)
    ensures
        r == (a@ == b@),
{
    let av = crate::text::chars_of(a.as_str());
    crate::text::eq_str(&av, b)
}

/// The pool is keyed by model name: no name occurs twice.
pub open spec fn names_distinct(pool: Seq<PoolEntry>) -> bool {
    forall|i: int, j: int| 0 <= i < pool.len() && 0 <= j < pool.len() && i != j ==> pool[i].name@ != pool[j].name@
}

/// The models to unload: every model of the pool but the active one that
/// has been idle for at least `ttl` nanoseconds and is not in use.
pub fn lru_eviction_candidates(pool: &Vec<PoolEntry>, active_name: &str, ttl: u128) -> (r: Vec<
    String,
>)
    requires
        names_distinct(pool@),
    ensures
        crate::text::sviews(r@) == candidates_of(pool@, active_name@, ttl),
        forall|n: Seq<char>|
            #[trigger] crate::text::sviews(r@).contains(n) ==> exists|i: int|
                0 <= i < pool@.len() && #[trigger] pool@[i].name@ == n && n != active_name@ && pool@[i].idle_nanos
                    >= ttl && !pool@[i].in_use,
{
    let mut r: Vec<String> = Vec::new();
    let mut i: usize = 0;
    while i < pool.len()
        invariant
            i <= pool.len(),
            crate::text::sviews(r@) == candidates_of(pool@.take(i as int), active_name@, ttl),
        decreases pool.len() - i,
    {
        let e = &pool[i];
        assert(pool@.take(i + 1).drop_last() =~= pool@.take(i as int));
        assert(pool@.take(i + 1).last() == pool@[i as int]);
        if !str_eq(&e.name, active_name) && e.idle_nanos >= ttl && !e.in_use {
            let ghost r0 = r@;
            r.push(e.name.clone());
            assert(crate::text::sviews(r@) =~= crate::text::sviews(r0).push(e.name@));
        }
        i = i + 1;
    }
    assert(pool@.take(pool@.len() as int) =~= pool@);
    proof {
        lemma_candidate_idle_past_ttl(pool@, active_name@, ttl);
    }
    r
}

/// Only models idle for at least the TTL are unloaded: a name is a
/// candidate exactly when some entry of the pool carries it, is not the
/// active model, has been idle for at least `ttl` and is not in use.
pub proof fn lemma_candidate_idle_past_ttl(pool: Seq<PoolEntry>, active: Seq<char>, ttl: u128)
    ensures
        forall|n: Seq<char>|
            #[trigger] candidates_of(pool, active, ttl).contains(n) <==> exists|i: int|
                0 <= i < pool.len() && #[trigger] pool[i].name@ == n && n != active && pool[i].idle_nanos >= ttl
                    && !pool[i].in_use,
    decreases pool.len(),
{
    if pool.len() > 0 {
        let p = pool.drop_last();
        lemma_candidate_idle_past_ttl(p, active, ttl);
        let c = candidates_of(p, active, ttl);
        let e = pool.last();
        assert forall|n: Seq<char>|
            #[trigger] candidates_of(pool, active, ttl).contains(n) <==> exists|i: int|
                0 <= i < pool.len() && #[trigger] pool[i].name@ == n && n != active && pool[i].idle_nanos >= ttl
                    && !pool[i].in_use by {
            let ev = e.name@ != active && e.idle_nanos >= ttl && !e.in_use;
            if candidates_of(pool, active, ttl).contains(n) {
                if ev && n == e.name@ {
                    assert(pool[pool.len() - 1].name@ == n);
                } else {
                    if ev {
                        let k = choose|k: int| 0 <= k < c.push(e.name@).len() && c.push(e.name@)[k] == n;
                        assert(k < c.len());
                        assert(c[k] == n);
                        assert(c.contains(n));
                    }
                    assert(c.contains(n));
                    let i = choose|i: int|
                        0 <= i < p.len() && #[trigger] p[i].name@ == n && n != active && p[i].idle_nanos >= ttl
                            && !p[i].in_use;
                    assert(pool[i] == p[i]);
                }
            } else {
                if exists|i: int|
                    0 <= i < pool.len() && #[trigger] pool[i].name@ == n && n != active && pool[i].idle_nanos >= ttl
                        && !pool[i].in_use {
                    let i = choose|i: int|
                        0 <= i < pool.len() && #[trigger] pool[i].name@ == n && n != active && pool[i].idle_nanos >= ttl
                            && !pool[i].in_use;
                    if i == pool.len() - 1 {
                        assert(ev);
                        assert(c.push(e.name@)[c.len() as int] == n);
                    } else {
                        assert(p[i] == pool[i]);
                        assert(c.contains(n));
                        let k = choose|k: int| 0 <= k < c.len() && c[k] == n;
                        if ev {
                            assert(c.push(e.name@)[k] == n);
                        }
                    }
                }
            }
        }
    }
}

/// Whether the unloading pass removes this entry: it is a candidate, it is
/// not the model active now, and it is not in use now.
pub open spec fn removed(e: PoolEntry, candidates: Seq<Seq<char>>, active_now: Seq<char>) -> bool {
    candidates.contains(e.name@) && e.name@ != active_now && !e.in_use
}

/// The pool after an unloading pass: the entries not removed, in order.
pub open spec fn after_eviction(pool: Seq<PoolEntry>, candidates: Seq<Seq<char>>, active_now: Seq<char>) -> Seq<PoolEntry>
    decreases pool.len(),
{
    if pool.len() == 0 {
        seq![]
    } else if removed(pool.last(), candidates, active_now) {
        after_eviction(pool.drop_last(), candidates, active_now)
    } else {
        after_eviction(pool.drop_last(), candidates, active_now).push(pool.last())
    }
}

fn contains_name(names: &Vec<String>, n: &String) -> (r: bool)
    ensures
        r == crate::text::sviews(names@).contains(n@),
{
    let mut i: usize = 0;
    while i < names.len()
        invariant
            i <= names.len(),
            forall|j: int| 0 <= j < i ==> names@[j]@ != n@,
        decreases names.len() - i,
    {
        if str_eq(n, names[i].as_str()) {
            assert(crate::text::sviews(names@)[i as int] == n@);
            return true;
        }
        i = i + 1;
    }
    proof {
        if crate::text::sviews(names@).contains(n@) {
            let k = choose|k: int| 0 <= k < names@.len() && crate::text::sviews(names@)[k] == n@;
            assert(names@[k]@ == n@);
        }
    }
    false
}

/// The removal pass of unloading: drops from the pool (each entry holding
/// its model and its last use together) the candidates that are still not
/// active and not in use, re-checked since they were chosen.
pub fn evict_candidates(pool: &mut Vec<PoolEntry>, candidates: &Vec<String>, active_name_now: &str)
    requires
        names_distinct(old(pool)@),
    ensures
        final(pool)@ == after_eviction(old(pool)@, crate::text::sviews(candidates@), active_name_now@),
        names_distinct(final(pool)@),
{
    proof {
        lemma_after_eviction_distinct(old(pool)@, crate::text::sviews(candidates@), active_name_now@);
    }
    let ghost cands = crate::text::sviews(candidates@);
    let ghost orig = old(pool)@;
    let mut kept: Vec<PoolEntry> = Vec::new();
    let mut i: usize = 0;
    while i < pool.len()
        invariant
            i <= pool.len(),
            pool@ == orig,
            cands == crate::text::sviews(candidates@),
            kept@ == after_eviction(orig.take(i as int), cands, active_name_now@),
        decreases pool.len() - i,
    {
        let e = &pool[i];
        assert(orig.take(i + 1).drop_last() =~= orig.take(i as int));
        assert(orig.take(i + 1).last() == orig[i as int]);
        let drop = contains_name(candidates, &e.name) && !str_eq(&e.name, active_name_now)
            && !e.in_use;
        if !drop {
            let c = PoolEntry { name: e.name.clone(), idle_nanos: e.idle_nanos, in_use: e.in_use };
            assert(c == orig[i as int]);
            kept.push(c);
        }
        i = i + 1;
    }
    assert(orig.take(orig.len() as int) =~= orig);
    *pool = kept;
}

/// Every entry left by an unloading pass comes from the pool.
proof fn lemma_after_eviction_from_pool(pool: Seq<PoolEntry>, candidates: Seq<Seq<char>>, active_now: Seq<char>)
    ensures
        forall|k: int|
            0 <= k < after_eviction(pool, candidates, active_now).len() ==> pool.contains(
                #[trigger] after_eviction(pool, candidates, active_now)[k],
            ),
    decreases pool.len(),
{
    if pool.len() > 0 {
        let p = pool.drop_last();
        lemma_after_eviction_from_pool(p, candidates, active_now);
        let a = after_eviction(p, candidates, active_now);
        assert forall|k: int| 0 <= k < a.len() implies pool.contains(#[trigger] a[k]) by {
            let j = choose|j: int| 0 <= j < p.len() && p[j] == a[k];
            assert(pool[j] == p[j]);
        }
        if !removed(pool.last(), candidates, active_now) {
            assert forall|k: int| 0 <= k < a.len() + 1 implies pool.contains(#[trigger] a.push(pool.last())[k]) by {
                if k < a.len() {
                    assert(a.push(pool.last())[k] == a[k]);
                } else {
                    assert(pool[pool.len() - 1] == pool.last());
                }
            }
        }
    }
}

/// An unloading pass keeps the pool keyed by name.
proof fn lemma_after_eviction_distinct(pool: Seq<PoolEntry>, candidates: Seq<Seq<char>>, active_now: Seq<char>)
    requires
        names_distinct(pool),
    ensures
        names_distinct(after_eviction(pool, candidates, active_now)),
    decreases pool.len(),
{
    if pool.len() > 0 {
        let p = pool.drop_last();
        assert(names_distinct(p)) by {
            assert forall|i: int, j: int| 0 <= i < p.len() && 0 <= j < p.len() && i != j implies p[i].name@ != p[j].name@ by {
                assert(p[i] == pool[i] && p[j] == pool[j]);
            }
        }
        lemma_after_eviction_distinct(p, candidates, active_now);
        lemma_after_eviction_from_pool(p, candidates, active_now);
        let a = after_eviction(p, candidates, active_now);
        if !removed(pool.last(), candidates, active_now) {
            let b = a.push(pool.last());
            assert forall|i: int, j: int| 0 <= i < b.len() && 0 <= j < b.len() && i != j implies b[i].name@ != b[j].name@ by {
                if i < a.len() && j < a.len() {
                    assert(b[i] == a[i] && b[j] == a[j]);
                } else if i < a.len() {
                    assert(b[i] == a[i]);
                    assert(p.contains(a[i]));
                    let m = choose|m: int| 0 <= m < p.len() && p[m] == a[i];
                    assert(pool[m] == p[m]);
                    assert(pool[pool.len() - 1] == b[j]);
                } else {
                    assert(b[j] == a[j]);
                    assert(p.contains(a[j]));
                    let m = choose|m: int| 0 <= m < p.len() && p[m] == a[j];
                    assert(pool[m] == p[m]);
                    assert(pool[pool.len() - 1] == b[i]);
                }
            }
        }
    }
}

/// The active model is never unloaded: every entry of the pool named after
/// the model active at removal time is still there after the pass.
pub proof fn lemma_active_never_evicted(pool: Seq<PoolEntry>, candidates: Seq<Seq<char>>, active_now: Seq<char>, i: int)
    requires
        0 <= i < pool.len(),
        pool[i].name@ == active_now,
    ensures
        after_eviction(pool, candidates, active_now).contains(pool[i]),
    decreases pool.len(),
{
    if i == pool.len() - 1 {
        assert(after_eviction(pool, candidates, active_now).last() == pool[i]);
    } else {
        lemma_active_never_evicted(pool.drop_last(), candidates, active_now, i);
        let a = after_eviction(pool.drop_last(), candidates, active_now);
        let k = choose|k: int| 0 <= k < a.len() && a[k] == pool[i];
        if !removed(pool.last(), candidates, active_now) {
            assert(a.push(pool.last())[k] == pool[i]);
        }
    }
}

/// An entry that is not a candidate stays in the pool.
pub proof fn lemma_non_candidate_kept(pool: Seq<PoolEntry>, candidates: Seq<Seq<char>>, active_now: Seq<char>, i: int)
    requires
        0 <= i < pool.len(),
        !candidates.contains(pool[i].name@),
    ensures
        after_eviction(pool, candidates, active_now).contains(pool[i]),
    decreases pool.len(),
{
    if i == pool.len() - 1 {
        assert(after_eviction(pool, candidates, active_now).last() == pool[i]);
    } else {
        lemma_non_candidate_kept(pool.drop_last(), candidates, active_now, i);
        let a = after_eviction(pool.drop_last(), candidates, active_now);
        let k = choose|k: int| 0 <= k < a.len() && a[k] == pool[i];
        if !removed(pool.last(), candidates, active_now) {
            assert(a.push(pool.last())[k] == pool[i]);
        }
    }
}

/// A candidate list never names the active model.
pub proof fn lemma_candidates_exclude_active(pool: Seq<PoolEntry>, active: Seq<char>, ttl: u128)
    ensures
        !candidates_of(pool, active, ttl).contains(active),
    decreases pool.len(),
{
    if pool.len() > 0 {
        lemma_candidates_exclude_active(pool.drop_last(), active, ttl);
        let c = candidates_of(pool.drop_last(), active, ttl);
        if evictable(pool.last(), active, ttl) {
            assert forall|k: int| 0 <= k < c.len() + 1 implies c.push(pool.last().name@)[k]
                != active by {
                if k < c.len() {
                    assert(c.push(pool.last().name@)[k] == c[k]);
                }
            }
        }
    }
}

/// The window within which a second trigger is taken for the same key
/// press arriving twice, in nanoseconds.
pub const TRIGGER_DEBOUNCE_NANOS: u128 = 250_000_000;

/// The double-trigger filter: `now` and the time of the last accepted
/// trigger are nanoseconds on one monotonic clock. A trigger within the
/// window after the last accepted one is swallowed (`true`) and changes
/// nothing; any other is accepted and becomes the last one. Time that runs
/// backwards counts as no time passed.
pub fn trigger_debounced(last: &mut Option<u128>, now: u128) -> (swallowed: bool)
    ensures
        match *old(last) {
            Some(prev) => {
                let elapsed = if now >= prev { now - prev } else { 0 };
                if elapsed < TRIGGER_DEBOUNCE_NANOS {
                    swallowed && *final(last) == *old(last)
                } else {
                    !swallowed && *final(last) == Some(now)
                }
            },
            None => !swallowed && *final(last) == Some(now),
        },
{
    if let Some(prev) = *last {
        let elapsed = if now >= prev {
            now - prev
        } else {
            0
        };
        if elapsed < TRIGGER_DEBOUNCE_NANOS {
            return true;
        }
    }
    *last = Some(now);
    false
}

} // verus!
