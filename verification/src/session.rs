use vstd::prelude::*;

use crate::audio::RecordResult;
use crate::engine::{build_history_entry, classify_delivery, join_error_text};
use crate::error::{ArcanaError, error_text};
use crate::event::EngineEvent;
use crate::text::starts_with;
use crate::transcript::spec_remove_filler_words;

verus! {

/// An engine event as plain values: a tag and its text (empty for events
/// without one).
pub open spec fn event_view(e: EngineEvent) -> (int, Seq<char>) {
    match e {
        EngineEvent::RecordingStarted => (0, Seq::empty()),
        EngineEvent::RecordingPaused => (1, Seq::empty()),
        EngineEvent::RecordingResumed => (2, Seq::empty()),
        EngineEvent::TranscriptionResult(t) => (3, t@),
        EngineEvent::Transcribing => (4, Seq::empty()),
        EngineEvent::FinishedProcessing => (5, Seq::empty()),
        EngineEvent::RequestFocus => (6, Seq::empty()),
        EngineEvent::ModelLoading(n) => (7, n@),
        EngineEvent::ModelLoaded => (8, Seq::empty()),
        EngineEvent::Error(m) => (9, m@),
    }
}

/// Views of a list of events.
pub open spec fn events_view(v: Seq<EngineEvent>) -> Seq<(int, Seq<char>)> {
    v.map_values(|e: EngineEvent| event_view(e))
}

/// What the end of a recording session does, in this order: store the text
/// in the history, type a text into the active window, send the events.
pub struct SessionPlan {
    pub save: Option<String>,
    pub type_text: Option<String>,
    pub events: Vec<EngineEvent>,
}

/// The error shown when the recognised text is empty.
pub open spec fn no_speech_text() -> Seq<char> {
    "Микрофон не захватил речь. Проверьте, что микрофон подключён и выбран как устройство по умолчанию."@
}

/// The text stored and delivered for a recognised transcript.
pub open spec fn final_text(raw: Seq<char>, remove_fillers: bool) -> Seq<char> {
    if remove_fillers {
        spec_remove_filler_words(raw)
    } else {
        raw
    }
}

/// The plan after a successful recording: an empty text is reported as an
/// error; otherwise it is stored, typed when the window is hidden (and
/// typing is on), sent as a result, and the window is focused when
/// visible.
pub open spec fn spec_success_plan(raw: Seq<char>, remove_fillers: bool, auto_type: bool, visible: bool) -> (
    Option<Seq<char>>,
    Option<Seq<char>>,
    Seq<(int, Seq<char>)>,
) {
    let t = final_text(raw, remove_fillers);
    if t.len() == 0 {
        (None, None, seq![(9, no_speech_text()), (5, Seq::empty())])
    } else {
        (
            Some(t),
            if auto_type && !visible {
                Some(t)
            } else {
                None
            },
            if visible {
                seq![(3, t), (6, Seq::empty()), (5, Seq::empty())]
            } else {
                seq![(3, t), (5, Seq::empty())]
            },
        )
    }
}

/// The plan after a failed recording: a cancellation is silent; a failing
/// microphone is reported (and typed into the active window when ours is
/// hidden); any other error is reported as a transcription error.
pub open spec fn spec_error_plan(e: ArcanaError, visible: bool) -> (
    Option<Seq<char>>,
    Option<Seq<char>>,
    Seq<(int, Seq<char>)>,
) {
    match e {
        ArcanaError::Cancelled => (None, None, seq![(5, Seq::empty())]),
        ArcanaError::AudioDevice(_) => (
            None,
            if !visible {
                Some("[Ошибка микрофона] "@ + error_text(e))
            } else {
                None
            },
            seq![(9, error_text(e)), (5, Seq::empty())],
        ),
        _ => (None, None, seq![(9, "Ошибка транскрибации: "@ + error_text(e)), (5, Seq::empty())]),
    }
}

/// A transcript is typed into the active window only when auto-typing is
/// on and our window is hidden, and then the typed text is the stored one;
/// with auto-typing off, or the window shown, nothing is typed.
pub proof fn lemma_typing_only_when_auto_type(raw: Seq<char>, remove_fillers: bool, auto_type: bool, visible: bool)
    ensures
        ({
            let (save, typed, _events) = spec_success_plan(raw, remove_fillers, auto_type, visible);
            &&& !auto_type ==> typed is None
            &&& visible ==> typed is None
            &&& auto_type && !visible ==> typed == save
        }),
{
}

/// A plan as plain values.
pub open spec fn plan_view(p: SessionPlan) -> (Option<Seq<char>>, Option<Seq<char>>, Seq<(int, Seq<char>)>) {
    (crate::updater::oview(p.save), crate::updater::oview(p.type_text), events_view(p.events@))
}

fn prefixed_text(prefix: &str, t: &String) -> (r: String)
    ensures
        r@ == prefix@ + t@,
{
    let mut r = prefix.to_owned();
    r.append(t.as_str());
    r
}

/// The plan after a recording that produced a transcript.
pub fn success_plan(rec: &RecordResult, remove_fillers: bool, auto_type: bool, is_visible: bool) -> (r:
    SessionPlan)
    ensures
        plan_view(r) == spec_success_plan(rec.text@, remove_fillers, auto_type, is_visible),
        !auto_type || is_visible ==> r.type_text is None,
        auto_type && !is_visible ==> crate::updater::oview(r.type_text) == crate::updater::oview(r.save),
{
    proof {
        lemma_typing_only_when_auto_type(rec.text@, remove_fillers, auto_type, is_visible);
    }
    let text = build_history_entry(rec.text.as_str(), remove_fillers);
    let mut events: Vec<EngineEvent> = Vec::new();
    if text.as_str().is_empty() {
        proof {
            assert(text@.len() == 0);
        }
        events.push(
            EngineEvent::Error(
                "Микрофон не захватил речь. Проверьте, что микрофон подключён и выбран как устройство по умолчанию.".to_owned(),
            ),
        );
        events.push(EngineEvent::FinishedProcessing);
        let r = SessionPlan { save: None, type_text: None, events };
        assert(events_view(r.events@) =~= seq![(9, no_speech_text()), (5, Seq::<char>::empty())]);
        return r;
    }
    let delivery = classify_delivery(auto_type, is_visible);
    let type_text = if delivery.should_type {
        Some(text.clone())
    } else {
        None
    };
    events.push(EngineEvent::TranscriptionResult(text.clone()));
    if delivery.should_focus {
        events.push(EngineEvent::RequestFocus);
    }
    events.push(EngineEvent::FinishedProcessing);
    let r = SessionPlan { save: Some(text), type_text, events };
    assert(events_view(r.events@) =~= spec_success_plan(rec.text@, remove_fillers, auto_type, is_visible).2);
    r
}

/// The plan after a recording that failed with `err`.
pub fn error_plan(err: &ArcanaError, is_visible: bool) -> (r: SessionPlan)
    ensures
        plan_view(r) == spec_error_plan(*err, is_visible),
{
    let mut events: Vec<EngineEvent> = Vec::new();
    match err {
        ArcanaError::Cancelled => {
            events.push(EngineEvent::FinishedProcessing);
            let r = SessionPlan { save: None, type_text: None, events };
            assert(events_view(r.events@) =~= seq![(5, Seq::<char>::empty())]);
            r
        },
        ArcanaError::AudioDevice(_) => {
            let msg = err.to_string();
            let type_text = if !is_visible {
                Some(prefixed_text("[Ошибка микрофона] ", &msg))
            } else {
                None
            };
            events.push(EngineEvent::Error(msg));
            events.push(EngineEvent::FinishedProcessing);
            let r = SessionPlan { save: None, type_text, events };
            assert(events_view(r.events@) =~= spec_error_plan(*err, is_visible).2);
            r
        },
        _ => {
            let msg = err.to_string();
            events.push(EngineEvent::Error(prefixed_text("Ошибка транскрибации: ", &msg)));
            events.push(EngineEvent::FinishedProcessing);
            let r = SessionPlan { save: None, type_text: None, events };
            assert(events_view(r.events@) =~= spec_error_plan(*err, is_visible).2);
            r
        },
    }
}

/// The prefix of the error sent when the recording task itself failed.
pub open spec fn task_failure_prefix() -> Seq<char> {
    "Ошибка записи: "@
}

/// The plan after the recording task itself failed (it panicked or was
/// aborted), given the failure's text: the error is reported, then
/// processing ends.
pub open spec fn spec_task_failure_plan(failure: Seq<char>) -> (
    Option<Seq<char>>,
    Option<Seq<char>>,
    Seq<(int, Seq<char>)>,
) {
    (None, None, seq![(9, task_failure_prefix() + failure), (5, Seq::empty())])
}

/// The plan after the recording task failed with the given text.
pub fn task_failure_plan(failure: &str) -> (r: SessionPlan)
    ensures
        plan_view(r) == spec_task_failure_plan(failure@),
{
    let mut msg = "Ошибка записи: ".to_owned();
    msg.append(failure);
    let mut events: Vec<EngineEvent> = Vec::new();
    events.push(EngineEvent::Error(msg));
    events.push(EngineEvent::FinishedProcessing);
    let r = SessionPlan { save: None, type_text: None, events };
    assert(events_view(r.events@) =~= spec_task_failure_plan(failure@).2);
    r
}

/// The plan for the end of a recording session, from what the recording
/// task gave: a transcript, an error of the recording, or the failure of
/// the task itself (reported with the task error's debug text, which
/// starts with `JoinError::`).
pub fn session_end_plan(
    result: Result<Result<RecordResult, ArcanaError>, tokio::task::JoinError>,
    remove_fillers: bool,
    auto_type: bool,
    is_visible: bool,
) -> (r: SessionPlan)
    ensures
        result matches Ok(Ok(rec)) ==> plan_view(r) == spec_success_plan(rec.text@, remove_fillers, auto_type, is_visible),
        result matches Ok(Ok(_)) ==> (!auto_type || is_visible ==> r.type_text is None),
        result matches Ok(Err(e)) ==> plan_view(r) == spec_error_plan(e, is_visible),
        result is Err ==> exists|t: Seq<char>|
            starts_with(t, "JoinError::"@) && plan_view(r) == #[trigger] spec_task_failure_plan(t),
{
    match result {
        Ok(Ok(rec)) => success_plan(&rec, remove_fillers, auto_type, is_visible),
        Ok(Err(e)) => error_plan(&e, is_visible),
        Err(e) => {
            let t = join_error_text(&e);
            task_failure_plan(t.as_str())
        },
    }
}

} // verus!
