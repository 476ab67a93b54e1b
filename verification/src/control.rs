use vstd::prelude::*;

use crate::engine::{TRIGGER_DEBOUNCE_NANOS, trigger_debounced};
use crate::config::TranscriberType;
use crate::event::EngineEvent;
use crate::hotkeys::contains_string;
use crate::text::{chars_of, eq_str, sviews};

verus! {

/// Whether no text occurs twice.
pub open spec fn distinct(s: Seq<Seq<char>>) -> bool {
    forall|i: int, j: int| 0 <= i < s.len() && 0 <= j < s.len() && i != j ==> s[i] != s[j]
}

/// The last-use times as a map: for each model the time of its last use.
pub open spec fn lu_map(v: Seq<(String, u128)>) -> Map<Seq<char>, u128>
    decreases v.len(),
{
    if v.len() == 0 {
        Map::empty()
    } else {
        lu_map(v.drop_last()).insert(v.last().0@, v.last().1)
    }
}

/// The entries whose model is not `k`, in order.
pub open spec fn without_key(v: Seq<(String, u128)>, k: Seq<char>) -> Seq<(String, u128)>
    decreases v.len(),
{
    if v.len() == 0 {
        seq![]
    } else if v.last().0@ == k {
        without_key(v.drop_last(), k)
    } else {
        without_key(v.drop_last(), k).push(v.last())
    }
}

proof fn lemma_without_key(v: Seq<(String, u128)>, k: Seq<char>)
    ensures
        lu_map(without_key(v, k)) == lu_map(v).remove(k),
    decreases v.len(),
{
    if v.len() > 0 {
        let t = v.drop_last();
        lemma_without_key(t, k);
        if v.last().0@ == k {
            assert(lu_map(v).remove(k) =~= lu_map(t).remove(k));
        } else {
            let w = without_key(t, k);
            assert(w.push(v.last()).drop_last() =~= w);
            assert(lu_map(without_key(v, k)) == lu_map(w).insert(v.last().0@, v.last().1));
            assert(lu_map(without_key(v, k)) =~= lu_map(v).remove(k));
        }
    } else {
        assert(lu_map(v).remove(k) =~= Map::<Seq<char>, u128>::empty());
    }
}

fn remove_key(v: &Vec<(String, u128)>, k: &str) -> (r: Vec<(String, u128)>)
    ensures
        r@ == without_key(v@, k@),
        lu_map(r@) == lu_map(v@).remove(k@),
{
    let mut r: Vec<(String, u128)> = Vec::new();
    let mut i: usize = 0;
    while i < v.len()
        invariant
            i <= v.len(),
            r@ == without_key(v@.take(i as int), k@),
        decreases v.len() - i,
    {
        assert(v@.take(i + 1).drop_last() =~= v@.take(i as int));
        assert(v@.take(i + 1).last() == v@[i as int]);
        let name = chars_of(v[i].0.as_str());
        if !eq_str(&name, k) {
            let e = (v[i].0.clone(), v[i].1);
            assert(e == v@[i as int]);
            r.push(e);
        }
        i = i + 1;
    }
    assert(v@.take(v@.len() as int) =~= v@);
    proof {
        lemma_without_key(v@, k@);
    }
    r
}

/// The names without `k`, in order.
pub open spec fn without_name(s: Seq<Seq<char>>, k: Seq<char>) -> Seq<Seq<char>> {
    s.filter(|x: Seq<char>| x != k)
}

/// What a trigger (the record hotkey) does.
#[derive(Debug, Clone, PartialEq, Eq)]
pub enum TriggerAction {
    /// A repeat of the same key press: ignored.
    Debounced,
    /// No model is loaded yet: an error is shown.
    NoModel,
    /// A recording runs: it is told to stop.
    Stop,
    /// A recording is being processed: ignored.
    Busy,
    /// Start recording with this model, reloading first if the
    /// configuration changed since the last trigger.
    Start { transcriber: String, need_reload: bool },
}

/// The error shown when the record hotkey finds no model loaded yet.
pub open spec fn no_model_text() -> Seq<char> {
    "Модель ещё не загружена, подождите завершения загрузки"@
}

/// The event a trigger sends at once: the no-model error when no model is
/// loaded (no recording starts then); nothing for the other outcomes.
pub fn trigger_event(action: &TriggerAction) -> (r: Option<EngineEvent>)
    ensures
        action is NoModel ==> (r matches Some(EngineEvent::Error(m)) && m@ == no_model_text()),
        !(action is NoModel) ==> r is None,
{
    match action {
        TriggerAction::NoModel => Some(
            EngineEvent::Error("Модель ещё не загружена, подождите завершения загрузки".to_owned()),
        ),
        _ => None,
    }
}

/// What the pause hotkey does.
#[derive(Debug, Clone, Copy, PartialEq, Eq, Structural)]
pub enum PauseAction {
    /// Nothing records (or it is being processed): ignored.
    Ignored,
    /// The recording was told to pause (`true`) or resume (`false`).
    Toggled(bool),
}

/// The engine's control state: the loaded models (by name), when each was
/// last used, the active one, and the recording flags.
pub struct EngineControl {
    /// Names of the loaded models, each once, in loading order.
    pub pool: Vec<String>,
    /// Last use per model, in nanoseconds on the engine's clock.
    pub last_used: Vec<(String, u128)>,
    /// The model used for the next recording.
    pub active: String,
    /// The configuration changed to a model that is not loaded.
    pub config_changed: bool,
    /// A recording runs or is being processed.
    pub busy: bool,
    /// The running recording is paused.
    pub paused: bool,
    /// The running recording takes commands (stop, pause).
    pub taking_commands: bool,
    /// When the last trigger was accepted.
    pub last_trigger: Option<u128>,
    /// The engine type of the current configuration.
    pub transcriber: TranscriberType,
}

impl EngineControl {
    /// The state's invariant: the pool names each model once.
    pub open spec fn inv(&self) -> bool {
        distinct(sviews(self.pool@))
    }

    /// The loaded models' names.
    pub open spec fn pool_view(&self) -> Seq<Seq<char>> {
        sviews(self.pool@)
    }

    /// The last-use map.
    pub open spec fn last_used_view(&self) -> Map<Seq<char>, u128> {
        lu_map(self.last_used@)
    }

    /// A fresh engine with its first model loaded, active and used now,
    /// configured for engine type `transcriber`.
    pub fn new(model_name: &str, transcriber: TranscriberType, now: u128) -> (r: EngineControl)
        ensures
            r.transcriber == transcriber,
            r.inv(),
            r.pool_view() == seq![model_name@],
            r.last_used_view() == Map::<Seq<char>, u128>::empty().insert(model_name@, now),
            r.active@ == model_name@,
            !r.config_changed && !r.busy && !r.paused && !r.taking_commands,
            r.last_trigger is None,
    {
        let mut pool: Vec<String> = Vec::new();
        pool.push(model_name.to_owned());
        let mut last_used: Vec<(String, u128)> = Vec::new();
        last_used.push((model_name.to_owned(), now));
        let r = EngineControl {
            pool,
            last_used,
            active: model_name.to_owned(),
            config_changed: false,
            busy: false,
            paused: false,
            taking_commands: false,
            last_trigger: None,
            transcriber,
        };
        assert(r.pool_view() =~= seq![model_name@]);
        assert(r.last_used@.drop_last() =~= Seq::<(String, u128)>::empty());
        assert(r.last_used@.last().0@ == model_name@);
        assert(r.last_used@.last().1 == now);
        assert(lu_map(Seq::<(String, u128)>::empty()) == Map::<Seq<char>, u128>::empty());
        assert(lu_map(r.last_used@) == lu_map(r.last_used@.drop_last()).insert(model_name@, now));
        assert(lu_map(r.last_used@) =~= Map::<Seq<char>, u128>::empty().insert(model_name@, now));
        r
    }

    /// Records a use of model `name` at `now`.
    pub fn touch(&mut self, name: &str, now: u128)
        ensures
            final(self).last_used_view() == old(self).last_used_view().insert(name@, now),
            final(self).pool == old(self).pool,
            final(self).active == old(self).active,
            final(self).config_changed == old(self).config_changed,
            final(self).busy == old(self).busy,
            final(self).paused == old(self).paused,
            final(self).taking_commands == old(self).taking_commands,
            final(self).last_trigger == old(self).last_trigger,
            final(self).transcriber == old(self).transcriber,
    {
        let mut v = remove_key(&self.last_used, name);
        let ghost v0 = v@;
        v.push((name.to_owned(), now));
        assert(v@.drop_last() =~= v0);
        self.last_used = v;
        assert(lu_map(self.last_used@) =~= lu_map(old(self).last_used@).remove(name@).insert(
            name@,
            now,
        ));
    }

    /// Whether model `name` is loaded.
    pub fn is_loaded(&self, name: &str) -> (r: bool)
        ensures
            r == self.pool_view().contains(name@),
    {
        contains_string(&self.pool, name)
    }

    /// Adds a loaded model to the pool (once) and records its use now.
    pub fn add_model(&mut self, name: &str, now: u128)
        requires
            old(self).inv(),
        ensures
            final(self).inv(),
            old(self).pool_view().contains(name@) ==> final(self).pool_view() == old(self).pool_view(),
            !old(self).pool_view().contains(name@) ==> final(self).pool_view() == old(self).pool_view().push(name@),
            final(self).last_used_view() == old(self).last_used_view().insert(name@, now),
            final(self).active == old(self).active,
            final(self).config_changed == old(self).config_changed,
            final(self).busy == old(self).busy,
            final(self).paused == old(self).paused,
            final(self).taking_commands == old(self).taking_commands,
            final(self).last_trigger == old(self).last_trigger,
            final(self).transcriber == old(self).transcriber,
    {
        if !contains_string(&self.pool, name) {
            let ghost p0 = self.pool_view();
            self.pool.push(name.to_owned());
            assert(self.pool_view() =~= p0.push(name@));
            assert forall|i: int, j: int|
                0 <= i < self.pool_view().len() && 0 <= j < self.pool_view().len() && i != j implies self.pool_view()[i]
                != self.pool_view()[j] by {
                if i < p0.len() && j < p0.len() {
                } else if i == p0.len() {
                    assert(p0[j] == self.pool_view()[j]);
                } else {
                    assert(p0[i] == self.pool_view()[i]);
                }
            }
        }
        self.touch(name, now);
    }

    /// Switches the configuration to engine type `transcriber` with model
    /// `name`: the model at once when it is loaded (it becomes active and
    /// counts as used now), otherwise its load is deferred to the next
    /// recording. Returns whether the model switched at once.
    pub fn update_config(&mut self, name: &str, transcriber: TranscriberType, now: u128) -> (switched: bool)
        ensures
            final(self).transcriber == transcriber,
            switched == old(self).pool_view().contains(name@),
            switched ==> final(self).active@ == name@ && final(self).last_used_view()
                == old(self).last_used_view().insert(name@, now) && final(self).config_changed
                == old(self).config_changed,
            !switched ==> final(self).active == old(self).active && final(self).last_used_view()
                == old(self).last_used_view() && final(self).config_changed,
            final(self).pool == old(self).pool,
            final(self).busy == old(self).busy,
            final(self).paused == old(self).paused,
            final(self).taking_commands == old(self).taking_commands,
            final(self).last_trigger == old(self).last_trigger,
    {
        self.transcriber = transcriber;
        if contains_string(&self.pool, name) {
            self.active = name.to_owned();
            self.touch(name, now);
            true
        } else {
            self.config_changed = true;
            false
        }
    }

    /// The trigger hotkey: ignores a repeat within the debounce window;
    /// otherwise records a use of the active model, picks the model to
    /// record with (the active one if loaded, else the first loaded), takes
    /// the configuration-changed flag, and then stops a running recording,
    /// ignores one being processed, or asks to start a new one.
    pub fn trigger(&mut self, now: u128) -> (r: TriggerAction)
        requires
            old(self).inv(),
        ensures
            final(self).inv(),
            final(self).pool == old(self).pool,
            final(self).active == old(self).active,
            final(self).paused == old(self).paused,
            final(self).busy == old(self).busy,
            final(self).transcriber == old(self).transcriber,
            r is Debounced <==> match old(self).last_trigger {
                Some(prev) => (if now >= prev { now - prev } else { 0 }) < TRIGGER_DEBOUNCE_NANOS,
                None => false,
            },
            r is Debounced ==> final(self).last_used == old(self).last_used
                && final(self).config_changed == old(self).config_changed
                && final(self).taking_commands == old(self).taking_commands
                && final(self).last_trigger == old(self).last_trigger,
            !(r is Debounced) ==> final(self).last_trigger == Some(now)
                && final(self).last_used_view() == old(self).last_used_view().insert(old(self).active@, now),
            r is NoModel <==> (!(r is Debounced) && old(self).pool@.len() == 0),
            r is NoModel ==> final(self).config_changed == old(self).config_changed
                && final(self).taking_commands == old(self).taking_commands,
            (!(r is Debounced) && !(r is NoModel)) ==> !final(self).config_changed,
            r is Stop <==> (!(r is Debounced) && !(r is NoModel) && old(self).busy && old(self).taking_commands),
            r is Stop ==> !final(self).taking_commands,
            r is Busy <==> (!(r is Debounced) && !(r is NoModel) && old(self).busy && !old(self).taking_commands),
            r is Busy ==> final(self).taking_commands == old(self).taking_commands,
            r matches TriggerAction::Start { transcriber, need_reload } ==> {
                &&& !old(self).busy
                &&& need_reload == old(self).config_changed
                &&& final(self).taking_commands == old(self).taking_commands
                &&& (if old(self).pool_view().contains(old(self).active@) {
                    transcriber@ == old(self).active@
                } else {
                    transcriber@ == old(self).pool_view()[0]
                })
            },
    {
        if trigger_debounced(&mut self.last_trigger, now) {
            return TriggerAction::Debounced;
        }
        let active = self.active.clone();
        self.touch(active.as_str(), now);
        let transcriber = if contains_string(&self.pool, active.as_str()) {
            active
        } else if self.pool.len() > 0 {
            self.pool[0].clone()
        } else {
            return TriggerAction::NoModel;
        };
        let need_reload = self.config_changed;
        self.config_changed = false;
        if self.busy {
            if self.taking_commands {
                self.taking_commands = false;
                return TriggerAction::Stop;
            }
            return TriggerAction::Busy;
        }
        TriggerAction::Start { transcriber, need_reload }
    }

    /// A recording started: busy, not paused, taking commands.
    pub fn begin_recording(&mut self)
        ensures
            final(self).busy && !final(self).paused && final(self).taking_commands,
            final(self).pool == old(self).pool,
            final(self).last_used == old(self).last_used,
            final(self).active == old(self).active,
            final(self).config_changed == old(self).config_changed,
            final(self).last_trigger == old(self).last_trigger,
            final(self).transcriber == old(self).transcriber,
    {
        self.busy = true;
        self.paused = false;
        self.taking_commands = true;
    }

    /// The pause hotkey: toggles the pause of a recording that takes
    /// commands; ignored otherwise.
    pub fn pause(&mut self) -> (r: PauseAction)
        ensures
            (r, final(self).paused) == spec_pause(old(self).busy, old(self).taking_commands, old(self).paused),
            !old(self).taking_commands ==> r is Ignored && final(self).paused == old(self).paused,
            !old(self).busy ==> r is Ignored && final(self).paused == old(self).paused,
            r matches PauseAction::Toggled(p) ==> p == final(self).paused && p != old(self).paused,
            final(self).busy == old(self).busy,
            final(self).taking_commands == old(self).taking_commands,
            final(self).pool == old(self).pool,
            final(self).last_used == old(self).last_used,
            final(self).active == old(self).active,
            final(self).config_changed == old(self).config_changed,
            final(self).last_trigger == old(self).last_trigger,
            final(self).transcriber == old(self).transcriber,
    {
        if !self.busy || !self.taking_commands {
            return PauseAction::Ignored;
        }
        self.paused = !self.paused;
        PauseAction::Toggled(self.paused)
    }

    /// Processing of a recording ended: ready for the next one.
    pub fn finish_session(&mut self)
        ensures
            !final(self).busy && !final(self).paused && !final(self).taking_commands,
            final(self).pool == old(self).pool,
            final(self).last_used == old(self).last_used,
            final(self).active == old(self).active,
            final(self).config_changed == old(self).config_changed,
            final(self).last_trigger == old(self).last_trigger,
            final(self).transcriber == old(self).transcriber,
    {
        self.busy = false;
        self.paused = false;
        self.taking_commands = false;
    }

    /// A reload for a changed configuration whose model is already loaded:
    /// it becomes active. Returns whether it was loaded.
    pub fn use_pooled(&mut self, name: &str) -> (r: bool)
        ensures
            r == old(self).pool_view().contains(name@),
            r ==> final(self).active@ == name@,
            !r ==> final(self).active == old(self).active,
            final(self).pool == old(self).pool,
            final(self).last_used == old(self).last_used,
            final(self).config_changed == old(self).config_changed,
            final(self).busy == old(self).busy,
            final(self).paused == old(self).paused,
            final(self).taking_commands == old(self).taking_commands,
            final(self).last_trigger == old(self).last_trigger,
            final(self).transcriber == old(self).transcriber,
    {
        if contains_string(&self.pool, name) {
            self.active = name.to_owned();
            true
        } else {
            false
        }
    }

    /// A model loaded for a recording: it joins the pool, becomes active
    /// and counts as used now.
    pub fn register_loaded(&mut self, name: &str, now: u128)
        requires
            old(self).inv(),
        ensures
            final(self).inv(),
            old(self).pool_view().contains(name@) ==> final(self).pool_view() == old(self).pool_view(),
            !old(self).pool_view().contains(name@) ==> final(self).pool_view() == old(self).pool_view().push(name@),
            final(self).active@ == name@,
            final(self).last_used_view() == old(self).last_used_view().insert(name@, now),
            final(self).config_changed == old(self).config_changed,
            final(self).busy == old(self).busy,
            final(self).paused == old(self).paused,
            final(self).taking_commands == old(self).taking_commands,
            final(self).transcriber == old(self).transcriber,
    {
        self.add_model(name, now);
        self.active = name.to_owned();
    }

    /// Unloads one model: it leaves the pool and the last-use map together.
    pub fn unload(&mut self, name: &str)
        requires
            old(self).inv(),
        ensures
            final(self).inv(),
            final(self).pool_view() == without_name(old(self).pool_view(), name@),
            final(self).last_used_view() == old(self).last_used_view().remove(name@),
            final(self).active == old(self).active,
            final(self).config_changed == old(self).config_changed,
            final(self).busy == old(self).busy,
            final(self).paused == old(self).paused,
            final(self).taking_commands == old(self).taking_commands,
            final(self).last_trigger == old(self).last_trigger,
            final(self).transcriber == old(self).transcriber,
    {
        let ghost f = |x: Seq<char>| x != name@;
        let ghost all = sviews(self.pool@);
        let mut kept: Vec<String> = Vec::new();
        let mut i: usize = 0;
        while i < self.pool.len()
            invariant
                i <= self.pool.len(),
                all == sviews(self.pool@),
                distinct(all),
                f == (|x: Seq<char>| x != name@),
                sviews(kept@) == all.take(i as int).filter(f),
            decreases self.pool.len() - i,
        {
            proof {
                reveal(Seq::filter);
                assert(all.take(i + 1).drop_last() =~= all.take(i as int));
                assert(all.take(i + 1).last() == self.pool@[i as int]@);
            }
            let x = chars_of(self.pool[i].as_str());
            if !eq_str(&x, name) {
                let ghost k0 = sviews(kept@);
                kept.push(self.pool[i].clone());
                assert(sviews(kept@) =~= k0.push(self.pool@[i as int]@));
            }
            i = i + 1;
        }
        assert(all.take(all.len() as int) =~= all);
        proof {
            lemma_filter_distinct(all, f);
        }
        self.pool = kept;
        self.last_used = remove_key(&self.last_used, name);
    }

    /// The names of the loaded models.
    pub fn loaded_models(&self) -> (r: Vec<String>)
        ensures
            sviews(r@) == self.pool_view(),
    {
        let mut r: Vec<String> = Vec::new();
        let mut i: usize = 0;
        while i < self.pool.len()
            invariant
                i <= self.pool.len(),
                sviews(r@) == self.pool_view().take(i as int),
            decreases self.pool.len() - i,
        {
            let ghost r0 = sviews(r@);
            r.push(self.pool[i].clone());
            assert(sviews(r@) =~= r0.push(self.pool@[i as int]@));
            i = i + 1;
            assert(sviews(r@) =~= self.pool_view().take(i as int));
        }
        assert(self.pool_view().take(self.pool_view().len() as int) =~= self.pool_view());
        r
    }

    /// The engine type of the current configuration.
    pub fn active_transcriber_type(&self) -> (r: TranscriberType)
        ensures
            r == self.transcriber,
    {
        self.transcriber
    }

    /// How many whole seconds each model has gone unused at `now` (zero
    /// for a use stamped after `now`), in the order of the last-use list.
    pub fn loaded_models_idle_seconds(&self, now: u128) -> (r: Vec<(String, u64)>)
        requires
            now / 1_000_000_000 <= u64::MAX,
        ensures
            r@.len() == self.last_used@.len(),
            forall|i: int|
                0 <= i < r@.len() ==> (#[trigger] r@[i]).0@ == self.last_used@[i].0@ && r@[i].1 as int
                    == idle_secs(now, self.last_used@[i].1),
    {
        let mut r: Vec<(String, u64)> = Vec::new();
        let mut i: usize = 0;
        while i < self.last_used.len()
            invariant
                i <= self.last_used.len(),
                now / 1_000_000_000 <= u64::MAX,
                r@.len() == i,
                forall|j: int|
                    0 <= j < i ==> (#[trigger] r@[j]).0@ == self.last_used@[j].0@ && r@[j].1 as int
                        == idle_secs(now, self.last_used@[j].1),
            decreases self.last_used.len() - i,
        {
            let t = self.last_used[i].1;
            let secs: u128 = if now >= t {
                (now - t) / 1_000_000_000
            } else {
                0
            };
            assert(secs <= now / 1_000_000_000) by (nonlinear_arith)
                requires
                    secs == if now >= t {
                        (now - t) / 1_000_000_000
                    } else {
                        0
                    },
            ;
            r.push((self.last_used[i].0.clone(), secs as u64));
            i = i + 1;
        }
        r
    }
}

/// Whole seconds from `used` to `now`, nanosecond stamps; zero when `used`
/// is later (`Instant::duration_since` saturates).
pub open spec fn idle_secs(now: u128, used: u128) -> int {
    if now >= used {
        (now - used) / 1_000_000_000
    } else {
        0
    }
}

/// What the pause hotkey answers and the pause state after it, from the
/// recording flags.
pub open spec fn spec_pause(busy: bool, taking_commands: bool, paused: bool) -> (PauseAction, bool) {
    if busy && taking_commands {
        (PauseAction::Toggled(!paused), !paused)
    } else {
        (PauseAction::Ignored, paused)
    }
}

/// Pause acts only on a recording that takes commands: when the engine is
/// idle, or busy without taking commands (a stopped recording being
/// transcribed), the press is ignored and the pause state is kept; on a
/// recording that takes commands it flips the state and reports the new one.
pub proof fn lemma_pause_needs_a_commandable_recording(busy: bool, taking_commands: bool, paused: bool)
    ensures
        !(busy && taking_commands) ==> spec_pause(busy, taking_commands, paused) == (PauseAction::Ignored, paused),
        busy && taking_commands ==> spec_pause(busy, taking_commands, paused).1 != paused
            && spec_pause(busy, taking_commands, paused).0 == PauseAction::Toggled(!paused),
{
}

/// Pressing pause twice gives back the pause state the recording had, and
/// the two answers are opposite.
pub proof fn lemma_pause_twice(busy: bool, taking_commands: bool, paused: bool)
    ensures
        ({
            let (a1, p1) = spec_pause(busy, taking_commands, paused);
            let (a2, p2) = spec_pause(busy, taking_commands, p1);
            &&& p2 == paused
            &&& (busy && taking_commands) ==> a1 == PauseAction::Toggled(!paused) && a2
                == PauseAction::Toggled(paused)
        }),
{
}

proof fn lemma_filter_distinct(s: Seq<Seq<char>>, f: spec_fn(Seq<char>) -> bool)
    requires
        distinct(s),
    ensures
        distinct(s.filter(f)),
    decreases s.len(),
{
    reveal(Seq::filter);
    if s.len() > 0 {
        let t = s.drop_last();
        assert forall|i: int, j: int| 0 <= i < t.len() && 0 <= j < t.len() && i != j implies t[i]
            != t[j] by {
            assert(t[i] == s[i] && t[j] == s[j]);
        }
        lemma_filter_distinct(t, f);
        let ft = t.filter(f);
        if f(s.last()) {
            assert forall|k: int| 0 <= k < ft.len() implies ft[k] != s.last() by {
                t.lemma_filter_contains_rev(f, ft[k]);
                let m = choose|m: int| 0 <= m < t.len() && t[m] == ft[k];
                assert(s[m] == t[m]);
            }
            let fs = ft.push(s.last());
            assert forall|i: int, j: int| 0 <= i < fs.len() && 0 <= j < fs.len() && i != j implies fs[i]
                != fs[j] by {
                if i < ft.len() && j < ft.len() {
                    assert(fs[i] == ft[i] && fs[j] == ft[j]);
                } else if i == ft.len() {
                    assert(fs[j] == ft[j]);
                } else {
                    assert(fs[i] == ft[i]);
                }
            }
        }
    }
}

} // verus!
