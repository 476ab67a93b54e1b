use vstd::prelude::*;

use crate::error::{ApiError, api_view, spec_from_message};

verus! {

/// Events of the engine, sent to every subscriber.
#[derive(Debug, Clone)]
pub enum EngineEvent {
    RecordingStarted,
    RecordingPaused,
    RecordingResumed,
    /// A transcription result.
    TranscriptionResult(String),
    /// Recording ended; recognition runs.
    Transcribing,
    /// Processing ended; ready for a new recording.
    FinishedProcessing,
    /// The window should come to the front.
    RequestFocus,
    /// A model starts loading; the payload is its display name.
    ModelLoading(String),
    ModelLoaded,
    /// An error to show to the user.
    Error(String),
}

/// What an interface event carries.
#[derive(Debug, Clone)]
pub enum EmitPayload {
    /// No field.
    Empty,
    /// `{ "text": .. }`.
    Text(String),
    /// `{ "model": .. }`.
    Model(String),
    /// A typed error `{ kind, message, hint }`.
    Error(ApiError),
}

/// The name of the interface event for an engine event; none for a focus
/// request, which the event loop handles itself.
pub open spec fn emit_name(e: EngineEvent) -> Option<Seq<char>> {
    match e {
        EngineEvent::RecordingStarted => Some("engine://recording-started"@),
        EngineEvent::RecordingPaused => Some("engine://recording-paused"@),
        EngineEvent::RecordingResumed => Some("engine://recording-resumed"@),
        EngineEvent::TranscriptionResult(_) => Some("engine://transcription-result"@),
        EngineEvent::Transcribing => Some("engine://transcribing"@),
        EngineEvent::FinishedProcessing => Some("engine://finished-processing"@),
        EngineEvent::ModelLoading(_) => Some("engine://model-loading"@),
        EngineEvent::ModelLoaded => Some("engine://model-loaded"@),
        EngineEvent::Error(_) => Some("engine://error"@),
        EngineEvent::RequestFocus => None,
    }
}

/// Whether the payload is the one the event carries: its text, its model
/// name, the typed view of its error message, or nothing.
pub open spec fn payload_of(e: EngineEvent, p: EmitPayload) -> bool {
    match e {
        EngineEvent::TranscriptionResult(t) => p matches EmitPayload::Text(x) && x@ == t@,
        EngineEvent::ModelLoading(n) => p matches EmitPayload::Model(x) && x@ == n@,
        EngineEvent::Error(m) => p matches EmitPayload::Error(a) && api_view(a) == spec_from_message(
            m@,
        ),
        _ => p is Empty,
    }
}

/// The interface event for an engine event: its name and payload; none for
/// a focus request.
pub fn engine_event_to_emit(event: &EngineEvent) -> (r: Option<(&'static str, EmitPayload)>)
    ensures
        emit_name(*event) is None <==> r is None,
        r matches Some((name, p)) ==> emit_name(*event) == Some(name@) && payload_of(*event, p),
{
    match event {
        EngineEvent::RecordingStarted => Some(("engine://recording-started", EmitPayload::Empty)),
        EngineEvent::RecordingPaused => Some(("engine://recording-paused", EmitPayload::Empty)),
        EngineEvent::RecordingResumed => Some(("engine://recording-resumed", EmitPayload::Empty)),
        EngineEvent::TranscriptionResult(text) => Some(
            ("engine://transcription-result", EmitPayload::Text(text.clone())),
        ),
        EngineEvent::Transcribing => Some(("engine://transcribing", EmitPayload::Empty)),
        EngineEvent::FinishedProcessing => Some(("engine://finished-processing", EmitPayload::Empty)),
        EngineEvent::ModelLoading(name) => Some(
            ("engine://model-loading", EmitPayload::Model(name.clone())),
        ),
        EngineEvent::ModelLoaded => Some(("engine://model-loaded", EmitPayload::Empty)),
        EngineEvent::Error(msg) => Some(
            ("engine://error", EmitPayload::Error(ApiError::from_message(msg.as_str()))),
        ),
        EngineEvent::RequestFocus => None,
    }
}

/// The tray icon's state.
#[derive(Debug, Clone, Copy, PartialEq, Eq, Structural)]
pub enum TrayState {
    Idle,
    Recording,
    Paused,
}

/// The tray state last shown, kept to skip redundant icon updates.
pub struct TrayCurrentState(pub TrayState);

impl TrayCurrentState {
    /// Records a new tray state; `true` when it differs from the one shown
    /// and the icon must change, `false` (nothing changed) otherwise.
    pub fn update(&mut self, state: TrayState) -> (changed: bool)
        ensures
            changed == (old(self).0 != state),
            final(self).0 == state,
    {
        if self.0 == state {
            return false;
        }
        self.0 = state;
        true
    }
}

/// What happens to the recording widget on an event.
#[derive(Debug, Clone, Copy, PartialEq, Eq, Structural)]
pub enum WidgetAction {
    /// Show it, when the settings enable it.
    ShowIfEnabled,
    Hide,
    Keep,
}

/// How the tray and the widget react to an engine event: the toggle
/// item's text, the icon state and the widget action.
#[derive(Debug, Clone, Copy)]
pub struct TrayReaction {
    pub text: &'static str,
    pub state: TrayState,
    pub widget: WidgetAction,
}

/// The reaction of the tray to an event, as (text, state, widget action);
/// none for the events that leave it alone.
pub open spec fn spec_tray_reaction(e: EngineEvent) -> Option<(Seq<char>, TrayState, WidgetAction)> {
    match e {
        EngineEvent::RecordingStarted => Some(
            ("Остановить запись"@, TrayState::Recording, WidgetAction::ShowIfEnabled),
        ),
        EngineEvent::RecordingResumed => Some(
            ("Остановить запись"@, TrayState::Recording, WidgetAction::ShowIfEnabled),
        ),
        EngineEvent::RecordingPaused => Some(
            ("Продолжить запись"@, TrayState::Paused, WidgetAction::Keep),
        ),
        EngineEvent::Transcribing => Some(("Транскрибация..."@, TrayState::Idle, WidgetAction::Hide)),
        EngineEvent::FinishedProcessing => Some(
            ("Начать запись"@, TrayState::Idle, WidgetAction::Hide),
        ),
        _ => None,
    }
}

/// How the tray and the widget react to an engine event.
pub fn tray_reaction(event: &EngineEvent) -> (r: Option<TrayReaction>)
    ensures
        match spec_tray_reaction(*event) {
            Some((t, s, w)) => r matches Some(x) && x.text@ == t && x.state == s && x.widget == w,
            None => r is None,
        },
{
    match event {
        EngineEvent::RecordingStarted | EngineEvent::RecordingResumed => Some(
            TrayReaction {
                text: "Остановить запись",
                state: TrayState::Recording,
                widget: WidgetAction::ShowIfEnabled,
            },
        ),
        EngineEvent::RecordingPaused => Some(
            TrayReaction {
                text: "Продолжить запись",
                state: TrayState::Paused,
                widget: WidgetAction::Keep,
            },
        ),
        EngineEvent::Transcribing => Some(
            TrayReaction {
                text: "Транскрибация...",
                state: TrayState::Idle,
                widget: WidgetAction::Hide,
            },
        ),
        EngineEvent::FinishedProcessing => Some(
            TrayReaction { text: "Начать запись", state: TrayState::Idle, widget: WidgetAction::Hide },
        ),
        _ => None,
    }
}

} // verus!
