use vstd::prelude::*;

use crate::paths::{file_name, path_file_name};
use crate::text::{chars_of, eq_str};

verus! {

/// A transcription engine. Every variant always exists, so that a stored
/// choice survives a build without that engine; whether the engine is
/// part of this build is `is_compiled_in`.
#[derive(Debug, Clone, Copy, PartialEq, Eq, Structural)]
pub enum TranscriberType {
    Vosk,
    Whisper,
    GigaAm,
    Qwen3Asr,
}

/// The engines this build carries. Which engines a build of the program
/// carries is decided by its cargo features, which this library cannot
/// see; it links no engine backend of its own and describes one fixed
/// build, the default one, with the ONNX engine GigaAM only.
pub open spec fn compiled(t: TranscriberType) -> bool {
    match t {
        TranscriberType::Vosk => false,
        TranscriberType::Whisper => false,
        TranscriberType::GigaAm => true,
        TranscriberType::Qwen3Asr => false,
    }
}

/// Every engine, in the order in which the interface lists them.
pub open spec fn all_engines() -> Seq<TranscriberType> {
    seq![
        TranscriberType::Vosk,
        TranscriberType::Whisper,
        TranscriberType::GigaAm,
        TranscriberType::Qwen3Asr,
    ]
}

/// The engines of this build, in interface order.
pub open spec fn compiled_list() -> Seq<TranscriberType> {
    all_engines().filter(compiled_pred())
}

/// `compiled` as a predicate value.
pub open spec fn compiled_pred() -> spec_fn(TranscriberType) -> bool {
    |t: TranscriberType| compiled(t)
}

/// The name under which an engine is stored and shown.
pub open spec fn engine_name(t: TranscriberType) -> Seq<char> {
    match t {
        TranscriberType::Vosk => "vosk"@,
        TranscriberType::Whisper => "whisper"@,
        TranscriberType::GigaAm => "gigaam"@,
        TranscriberType::Qwen3Asr => "qwen3asr"@,
    }
}

/// Engines that run on ONNX Runtime.
pub open spec fn is_onnx(t: TranscriberType) -> bool {
    t == TranscriberType::GigaAm || t == TranscriberType::Qwen3Asr
}

impl Default for TranscriberType {
    fn default() -> (r: Self)
        ensures
            r == TranscriberType::GigaAm,
    {
        TranscriberType::GigaAm
    }
}

impl TranscriberType {
    /// Whether this engine is part of the current build.
    pub fn is_compiled_in(&self) -> (r: bool)
        ensures
            r == compiled(*self),
    {
        match self {
            TranscriberType::Vosk => false,
            TranscriberType::Whisper => false,
            TranscriberType::GigaAm => true,
            TranscriberType::Qwen3Asr => false,
        }
    }

    /// The engines compiled into this build, in interface order.
    pub fn compiled_engines() -> (r: Vec<TranscriberType>)
        ensures
            r@ == compiled_list(),
    {
        let all = [
            TranscriberType::Vosk,
            TranscriberType::Whisper,
            TranscriberType::GigaAm,
            TranscriberType::Qwen3Asr,
        ];
        let mut r: Vec<TranscriberType> = Vec::new();
        let mut i: usize = 0;
        assert(all@ == all_engines());
        while i < 4
            invariant
                i <= 4,
                all@ == all_engines(),
                r@ == all_engines().take(i as int).filter(compiled_pred()),
            decreases 4 - i,
        {
            let t = all[i];
            proof {
                reveal(Seq::filter);
                assert(all_engines().take(i + 1).drop_last() =~= all_engines().take(i as int));
                assert(all_engines().take(i + 1).last() == t);
                assert(all_engines().take(i + 1).filter(compiled_pred()) == (if compiled(t) {
                    all_engines().take(i as int).filter(compiled_pred()).push(t)
                } else {
                    all_engines().take(i as int).filter(compiled_pred())
                }));
            }
            if t.is_compiled_in() {
                r.push(t);
            }
            i = i + 1;
        }
        assert(all_engines().take(4) =~= all_engines());
        r
    }

    /// The engine's stored name.
    pub fn as_str(&self) -> (r: &'static str)
        ensures
            r@ == engine_name(*self),
    {
        match self {
            TranscriberType::Vosk => "vosk",
            TranscriberType::Whisper => "whisper",
            TranscriberType::GigaAm => "gigaam",
            TranscriberType::Qwen3Asr => "qwen3asr",
        }
    }
}

/// Settings that default to on (voice-activity stop, filler removal,
/// the recording widget, the tray icon).
pub fn default_true() -> (r: bool)
    ensures
        r,
{
    true
}

/// Seconds of silence after speech that stop a recording: 7.
pub fn default_vad_silence_secs() -> (r: u64)
    ensures
        r == 7,
{
    7
}

/// Hours a recording is kept: 24.
pub fn default_retention_hours() -> (r: u64)
    ensures
        r == 24,
{
    24
}

/// The history page's time filter, in seconds: one day.
pub fn default_history_filter_secs() -> (r: u64)
    ensures
        r == 86400,
{
    86400
}

/// Where the recording widget sits: bottom centre.
pub fn default_widget_position() -> (r: String)
    ensures
        r@ == "bottom-center"@,
{
    "bottom-center".to_owned()
}

/// The part of the configuration that says which engine is chosen and where
/// each engine's model lies (paths as text; empty when unset).
#[derive(Debug, Clone)]
pub struct ModelPaths {
    pub transcriber: TranscriberType,
    /// The Vosk model directory.
    pub model_path: String,
    /// The Whisper model file.
    pub whisper_model_path: String,
    /// The GigaAM CTC model directory.
    pub gigaam_model_path: String,
    /// The GigaAM RNN-T model directory.
    pub gigaam_rnnt_model_path: String,
    /// The Qwen3-ASR model directory.
    pub qwen3asr_model_path: String,
    /// The directory models are downloaded into.
    pub models_base_dir: String,
}

/// `ModelPaths` with every path taken as its text.
pub struct ModelPathsView {
    pub transcriber: TranscriberType,
    pub model_path: Seq<char>,
    pub whisper_model_path: Seq<char>,
    pub gigaam_model_path: Seq<char>,
    pub gigaam_rnnt_model_path: Seq<char>,
    pub qwen3asr_model_path: Seq<char>,
    pub models_base_dir: Seq<char>,
}

impl View for ModelPaths {
    type V = ModelPathsView;

    open spec fn view(&self) -> ModelPathsView {
        ModelPathsView {
            transcriber: self.transcriber,
            model_path: self.model_path@,
            whisper_model_path: self.whisper_model_path@,
            gigaam_model_path: self.gigaam_model_path@,
            gigaam_rnnt_model_path: self.gigaam_rnnt_model_path@,
            qwen3asr_model_path: self.qwen3asr_model_path@,
            models_base_dir: self.models_base_dir@,
        }
    }
}

/// The configured model path of an engine.
pub open spec fn engine_model_path(c: ModelPathsView, t: TranscriberType) -> Seq<char> {
    match t {
        TranscriberType::Vosk => c.model_path,
        TranscriberType::Whisper => c.whisper_model_path,
        TranscriberType::GigaAm => c.gigaam_model_path,
        TranscriberType::Qwen3Asr => c.qwen3asr_model_path,
    }
}

/// The name of the chosen model, under which it is pooled and recorded in
/// the history: the file name of its configured path, or the engine's name
/// when the path has none.
pub open spec fn model_name(c: ModelPathsView) -> Seq<char> {
    match file_name(engine_model_path(c, c.transcriber)) {
        Some(n) => n,
        None => engine_name(c.transcriber),
    }
}

impl ModelPaths {
    /// The name of the chosen model.
    pub fn transcriber_model_name(&self) -> (r: String)
        ensures
            r@ == model_name(self@),
    {
        let path = match self.transcriber {
            TranscriberType::Vosk => &self.model_path,
            TranscriberType::Whisper => &self.whisper_model_path,
            TranscriberType::GigaAm => &self.gigaam_model_path,
            TranscriberType::Qwen3Asr => &self.qwen3asr_model_path,
        };
        match path_file_name(path.as_str()) {
            Some(n) => n,
            None => self.transcriber.as_str().to_owned(),
        }
    }

    /// The chosen engine's stored name.
    pub fn transcriber_type_str(&self) -> (r: String)
        ensures
            r@ == engine_name(self.transcriber),
    {
        self.transcriber.as_str().to_owned()
    }
}

/// The column of the screen the recording widget sits in.
#[derive(Debug, Clone, Copy, PartialEq, Eq, Structural)]
pub enum Column {
    Left,
    Center,
    Right,
}

/// The row of the screen the recording widget sits in.
#[derive(Debug, Clone, Copy, PartialEq, Eq, Structural)]
pub enum Row {
    Top,
    Middle,
    Bottom,
}

/// Where a widget position setting places the widget; an unknown setting
/// (and "bottom-center") places it at the bottom centre.
pub open spec fn spec_widget_anchor(pos: Seq<char>) -> (Column, Row) {
    if pos == "top-left"@ {
        (Column::Left, Row::Top)
    } else if pos == "top-center"@ {
        (Column::Center, Row::Top)
    } else if pos == "top-right"@ {
        (Column::Right, Row::Top)
    } else if pos == "middle-left"@ {
        (Column::Left, Row::Middle)
    } else if pos == "middle-center"@ {
        (Column::Center, Row::Middle)
    } else if pos == "middle-right"@ {
        (Column::Right, Row::Middle)
    } else if pos == "bottom-left"@ {
        (Column::Left, Row::Bottom)
    } else if pos == "bottom-right"@ {
        (Column::Right, Row::Bottom)
    } else {
        (Column::Center, Row::Bottom)
    }
}

/// Reads a widget position setting.
pub fn widget_anchor(pos: &str) -> (r: (Column, Row))
    ensures
        r == spec_widget_anchor(pos@),
{
    let p = chars_of(pos);
    if eq_str(&p, "top-left") {
        (Column::Left, Row::Top)
    } else if eq_str(&p, "top-center") {
        (Column::Center, Row::Top)
    } else if eq_str(&p, "top-right") {
        (Column::Right, Row::Top)
    } else if eq_str(&p, "middle-left") {
        (Column::Left, Row::Middle)
    } else if eq_str(&p, "middle-center") {
        (Column::Center, Row::Middle)
    } else if eq_str(&p, "middle-right") {
        (Column::Right, Row::Middle)
    } else if eq_str(&p, "bottom-left") {
        (Column::Left, Row::Bottom)
    } else if eq_str(&p, "bottom-right") {
        (Column::Right, Row::Bottom)
    } else {
        (Column::Center, Row::Bottom)
    }
}

} // verus!
