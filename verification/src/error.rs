use vstd::prelude::*;

use crate::platform::TargetOs;
use crate::text::{chars_of, contains, contains_vec, strip_prefix, strip_prefix_vec, string_of};

verus! {

/// Errors of the core.
#[derive(Debug)]
pub enum ArcanaError {
    AudioDevice(String),
    AudioStream(String),
    ModelLoad(String),
    Recognizer(String),
    Network(String),
    InputSimulation(String),
    Database(String),
    Config(String),
    Internal(String),
    EngineNotAvailable(String),
    /// Transcription stopped by the user: no failure as such.
    Cancelled,
}

/// The text of an error, as the user reads it.
pub open spec fn error_text(e: ArcanaError) -> Seq<char> {
    match e {
        ArcanaError::AudioDevice(m) => "Ошибка аудиоустройства: "@ + m@,
        ArcanaError::AudioStream(m) => "Ошибка аудиопотока: "@ + m@,
        ArcanaError::ModelLoad(m) => "Ошибка загрузки модели: "@ + m@,
        ArcanaError::Recognizer(m) => "Ошибка распознавателя: "@ + m@,
        ArcanaError::Network(m) => "Ошибка сети: "@ + m@,
        ArcanaError::InputSimulation(m) => "Ошибка симуляции ввода: "@ + m@,
        ArcanaError::Database(m) => "Ошибка базы данных: "@ + m@,
        ArcanaError::Config(m) => "Ошибка конфигурации: "@ + m@,
        ArcanaError::Internal(m) => "Внутренняя ошибка: "@ + m@,
        ArcanaError::EngineNotAvailable(m) => engine_missing_text(m@),
        ArcanaError::Cancelled => "Транскрибация отменена"@,
    }
}

/// The text for an engine that the build lacks.
pub open spec fn engine_missing_text(engine: Seq<char>) -> Seq<char> {
    "Движок '"@ + engine + "' не включён в эту сборку"@
}

fn prefixed(prefix: &str, m: &String) -> (r: String)
    ensures
        r@ == prefix@ + m@,
{
    let mut r = prefix.to_owned();
    r.append(m.as_str());
    r
}

fn engine_missing(engine: &String) -> (r: String)
    ensures
        r@ == engine_missing_text(engine@),
{
    let mut r = "Движок '".to_owned();
    r.append(engine.as_str());
    r.append("' не включён в эту сборку");
    r
}

impl ArcanaError {
    /// The text of the error, as the user reads it.
    pub fn to_string(&self) -> (r: String)
        ensures
            r@ == error_text(*self),
    {
        match self {
            ArcanaError::AudioDevice(m) => prefixed("Ошибка аудиоустройства: ", m),
            ArcanaError::AudioStream(m) => prefixed("Ошибка аудиопотока: ", m),
            ArcanaError::ModelLoad(m) => prefixed("Ошибка загрузки модели: ", m),
            ArcanaError::Recognizer(m) => prefixed("Ошибка распознавателя: ", m),
            ArcanaError::Network(m) => prefixed("Ошибка сети: ", m),
            ArcanaError::InputSimulation(m) => prefixed("Ошибка симуляции ввода: ", m),
            ArcanaError::Database(m) => prefixed("Ошибка базы данных: ", m),
            ArcanaError::Config(m) => prefixed("Ошибка конфигурации: ", m),
            ArcanaError::Internal(m) => prefixed("Внутренняя ошибка: ", m),
            ArcanaError::EngineNotAvailable(m) => engine_missing(m),
            ArcanaError::Cancelled => "Транскрибация отменена".to_owned(),
        }
    }
}

/// The category of an error, stable for the interface.
#[derive(Debug, Clone, Copy, PartialEq, Eq, Structural)]
pub enum ApiErrorKind {
    AudioDevice,
    AudioStream,
    ModelLoad,
    /// A model that failed to load for want of disk space.
    DiskSpace,
    Network,
    InputSimulation,
    EngineNotAvailable,
    Cancelled,
    Internal,
}

/// An error as the interface receives it: category, message and an
/// optional hint on what to do.
#[derive(Debug, Clone)]
pub struct ApiError {
    pub kind: ApiErrorKind,
    pub message: String,
    pub hint: Option<String>,
}

/// An `ApiError` as plain values.
pub open spec fn api_view(e: ApiError) -> (ApiErrorKind, Seq<char>, Option<Seq<char>>) {
    (
        e.kind,
        e.message@,
        match e.hint {
            Some(h) => Some(h@),
            None => None,
        },
    )
}

/// The hint for a failing audio device, by operating system: the sound
/// settings (and the microphone permission) on Windows and macOS, the
/// PulseAudio volume control elsewhere.
pub open spec fn audio_hint_for(os: TargetOs) -> Seq<char> {
    match os {
        TargetOs::Windows => "Проверьте устройство записи: Параметры Windows → Система → Звук → Ввод; и разрешите доступ к микрофону (Конфиденциальность → Микрофон)."@,
        TargetOs::MacOs => "Проверьте микрофон: Системные настройки → Звук → Вход; и разрешите доступ к микрофону в разделе Конфиденциальность."@,
        _ => "Проверьте микрофон в pavucontrol → Input Devices."@,
    }
}

fn audio_device_hint(os: TargetOs) -> (r: String)
    ensures
        r@ == audio_hint_for(os),
{
    match os {
        TargetOs::Windows => "Проверьте устройство записи: Параметры Windows → Система → Звук → Ввод; и разрешите доступ к микрофону (Конфиденциальность → Микрофон).".to_owned(),
        TargetOs::MacOs => "Проверьте микрофон: Системные настройки → Звук → Вход; и разрешите доступ к микрофону в разделе Конфиденциальность.".to_owned(),
        _ => "Проверьте микрофон в pavucontrol → Input Devices.".to_owned(),
    }
}

/// The interface's view of an error, by variant, on a given operating
/// system; a model that failed to load is told apart by what its message
/// holds.
pub open spec fn spec_from_arcana_on(e: ArcanaError, os: TargetOs) -> (ApiErrorKind, Seq<char>, Option<Seq<char>>) {
    match e {
        ArcanaError::AudioDevice(m) => (ApiErrorKind::AudioDevice, m@, Some(audio_hint_for(os))),
        ArcanaError::AudioStream(m) => (
            ApiErrorKind::AudioStream,
            m@,
            Some("Закройте другие записывающие программы (Zoom, OBS, браузерные звонки)."@),
        ),
        ArcanaError::ModelLoad(m) => if contains(m@, "No space left"@) {
            (
                ApiErrorKind::DiskSpace,
                m@,
                Some("Освободите ≥ 2 ГБ на диске и повторите загрузку."@),
            )
        } else if contains(m@, "expected"@) && contains(m@, "tensors"@) {
            (
                ApiErrorKind::ModelLoad,
                m@,
                Some("Файл модели повреждён. Удалите её в Settings → Models и скачайте заново."@),
            )
        } else {
            (
                ApiErrorKind::ModelLoad,
                m@,
                Some("Не удалось загрузить модель. Проверьте логи в терминале."@),
            )
        },
        ArcanaError::Recognizer(m) => (ApiErrorKind::Internal, m@, None),
        ArcanaError::Network(m) => (
            ApiErrorKind::Network,
            m@,
            Some("Проверьте интернет-соединение."@),
        ),
        ArcanaError::InputSimulation(m) => (
            ApiErrorKind::InputSimulation,
            m@,
            Some("На Wayland нажмите «Дать разрешение» в баннере."@),
        ),
        ArcanaError::Database(m) => (ApiErrorKind::Internal, m@, None),
        ArcanaError::Config(m) => (ApiErrorKind::Internal, m@, None),
        ArcanaError::Internal(m) => (ApiErrorKind::Internal, m@, None),
        ArcanaError::EngineNotAvailable(m) => (
            ApiErrorKind::EngineNotAvailable,
            engine_missing_text(m@),
            Some("Выберите другой движок в Settings → Engines."@),
        ),
        ArcanaError::Cancelled => (ApiErrorKind::Cancelled, "Транскрибация отменена"@, None),
    }
}

/// The interface's view of an error of the Linux build.
pub open spec fn spec_from_arcana(e: ArcanaError) -> (ApiErrorKind, Seq<char>, Option<Seq<char>>) {
    spec_from_arcana_on(e, TargetOs::Linux)
}

/// The interface's view of an error known only by its text, on a given
/// operating system: the text of a core error is recognised by its prefix,
/// any other text that speaks of the microphone is an audio-device error,
/// the rest is internal.
pub open spec fn spec_from_message_on(msg: Seq<char>, os: TargetOs) -> (ApiErrorKind, Seq<char>, Option<Seq<char>>) {
    if strip_prefix(msg, "Ошибка аудиоустройства: "@) is Some {
        (ApiErrorKind::AudioDevice, strip_prefix(msg, "Ошибка аудиоустройства: "@)->0, Some(audio_hint_for(os)))
    } else if strip_prefix(msg, "Ошибка аудиопотока: "@) is Some {
        (
            ApiErrorKind::AudioStream,
            strip_prefix(msg, "Ошибка аудиопотока: "@)->0,
            Some("Закройте другие записывающие программы (Zoom, OBS, браузерные звонки)."@),
        )
    } else if strip_prefix(msg, "Ошибка загрузки модели: "@) is Some {
        model_load_view(strip_prefix(msg, "Ошибка загрузки модели: "@)->0)
    } else if strip_prefix(msg, "Ошибка сети: "@) is Some {
        (
            ApiErrorKind::Network,
            strip_prefix(msg, "Ошибка сети: "@)->0,
            Some("Проверьте интернет-соединение."@),
        )
    } else if strip_prefix(msg, "Ошибка симуляции ввода: "@) is Some {
        (
            ApiErrorKind::InputSimulation,
            strip_prefix(msg, "Ошибка симуляции ввода: "@)->0,
            Some("На Wayland нажмите «Дать разрешение» в баннере."@),
        )
    } else if msg == "Транскрибация отменена"@ {
        (ApiErrorKind::Cancelled, "Транскрибация отменена"@, None)
    } else if contains(msg, "Микрофон"@) || contains(msg, "микрофон"@) {
        (ApiErrorKind::AudioDevice, msg, Some(audio_hint_for(os)))
    } else {
        (ApiErrorKind::Internal, msg, None)
    }
}

/// The interface's view of an error text of the Linux build.
pub open spec fn spec_from_message(msg: Seq<char>) -> (ApiErrorKind, Seq<char>, Option<Seq<char>>) {
    spec_from_message_on(msg, TargetOs::Linux)
}

/// The view of a model-load error with message `m`.
pub open spec fn model_load_view(m: Seq<char>) -> (ApiErrorKind, Seq<char>, Option<Seq<char>>) {
    if contains(m, "No space left"@) {
        (ApiErrorKind::DiskSpace, m, Some("Освободите ≥ 2 ГБ на диске и повторите загрузку."@))
    } else if contains(m, "expected"@) && contains(m, "tensors"@) {
        (
            ApiErrorKind::ModelLoad,
            m,
            Some("Файл модели повреждён. Удалите её в Settings → Models и скачайте заново."@),
        )
    } else {
        (
            ApiErrorKind::ModelLoad,
            m,
            Some("Не удалось загрузить модель. Проверьте логи в терминале."@),
        )
    }
}

fn has(m: &String, p: &str) -> (r: bool)
    ensures
        r == contains(m@, p@),
{
    let mv = chars_of(m.as_str());
    let pv = chars_of(p);
    contains_vec(&mv, &pv)
}

fn api(kind: ApiErrorKind, message: String, hint: &str) -> (r: ApiError)
    ensures
        api_view(r) == (kind, message@, Some(hint@)),
{
    ApiError { kind, message, hint: Some(hint.to_owned()) }
}

impl ApiError {
    /// The interface's view of a core error in the Linux build.
    pub fn from_arcana(err: &ArcanaError) -> (r: ApiError)
        ensures
            api_view(r) == spec_from_arcana(*err),
    {
        Self::from_arcana_on(err, TargetOs::Linux)
    }

    /// The interface's view of a core error on operating system `os`, with
    /// a hint on what to do where there is one.
    pub fn from_arcana_on(err: &ArcanaError, os: TargetOs) -> (r: ApiError)
        ensures
            api_view(r) == spec_from_arcana_on(*err, os),
    {
        match err {
            ArcanaError::AudioDevice(m) => ApiError {
                kind: ApiErrorKind::AudioDevice,
                message: m.clone(),
                hint: Some(audio_device_hint(os)),
            },
            ArcanaError::AudioStream(m) => api(
                ApiErrorKind::AudioStream,
                m.clone(),
                "Закройте другие записывающие программы (Zoom, OBS, браузерные звонки).",
            ),
            ArcanaError::ModelLoad(m) => {
                if has(m, "No space left") {
                    api(
                        ApiErrorKind::DiskSpace,
                        m.clone(),
                        "Освободите ≥ 2 ГБ на диске и повторите загрузку.",
                    )
                } else if has(m, "expected") && has(m, "tensors") {
                    api(
                        ApiErrorKind::ModelLoad,
                        m.clone(),
                        "Файл модели повреждён. Удалите её в Settings → Models и скачайте заново.",
                    )
                } else {
                    api(
                        ApiErrorKind::ModelLoad,
                        m.clone(),
                        "Не удалось загрузить модель. Проверьте логи в терминале.",
                    )
                }
            },
            ArcanaError::Recognizer(m) => ApiError {
                kind: ApiErrorKind::Internal,
                message: m.clone(),
                hint: None,
            },
            ArcanaError::Network(m) => api(
                ApiErrorKind::Network,
                m.clone(),
                "Проверьте интернет-соединение.",
            ),
            ArcanaError::InputSimulation(m) => api(
                ApiErrorKind::InputSimulation,
                m.clone(),
                "На Wayland нажмите «Дать разрешение» в баннере.",
            ),
            ArcanaError::Database(m) | ArcanaError::Config(m) | ArcanaError::Internal(m) => {
                ApiError { kind: ApiErrorKind::Internal, message: m.clone(), hint: None }
            },
            ArcanaError::EngineNotAvailable(engine) => api(
                ApiErrorKind::EngineNotAvailable,
                engine_missing(engine),
                "Выберите другой движок в Settings → Engines.",
            ),
            ArcanaError::Cancelled => ApiError {
                kind: ApiErrorKind::Cancelled,
                message: "Транскрибация отменена".to_owned(),
                hint: None,
            },
        }
    }

    /// The interface's view of an error text of the Linux build.
    pub fn from_message(msg: &str) -> (r: ApiError)
        ensures
            api_view(r) == spec_from_message(msg@),
    {
        Self::from_message_on(msg, TargetOs::Linux)
    }

    /// The interface's view of an error known only by its text, on
    /// operating system `os`.
    pub fn from_message_on(msg: &str, os: TargetOs) -> (r: ApiError)
        ensures
            api_view(r) == spec_from_message_on(msg@, os),
    {
        let mv = chars_of(msg);
        let p1 = chars_of("Ошибка аудиоустройства: ");
        if let Some(rest) = strip_prefix_vec(&mv, &p1) {
            return Self::from_arcana_on(&ArcanaError::AudioDevice(string_of(&rest)), os);
        }
        let p2 = chars_of("Ошибка аудиопотока: ");
        if let Some(rest) = strip_prefix_vec(&mv, &p2) {
            return Self::from_arcana_on(&ArcanaError::AudioStream(string_of(&rest)), os);
        }
        let p3 = chars_of("Ошибка загрузки модели: ");
        if let Some(rest) = strip_prefix_vec(&mv, &p3) {
            return Self::from_arcana_on(&ArcanaError::ModelLoad(string_of(&rest)), os);
        }
        let p4 = chars_of("Ошибка сети: ");
        if let Some(rest) = strip_prefix_vec(&mv, &p4) {
            return Self::from_arcana_on(&ArcanaError::Network(string_of(&rest)), os);
        }
        let p5 = chars_of("Ошибка симуляции ввода: ");
        if let Some(rest) = strip_prefix_vec(&mv, &p5) {
            return Self::from_arcana_on(&ArcanaError::InputSimulation(string_of(&rest)), os);
        }
        if crate::text::eq_str(&mv, "Транскрибация отменена") {
            return Self::from_arcana_on(&ArcanaError::Cancelled, os);
        }
        let m1 = chars_of("Микрофон");
        let m2 = chars_of("микрофон");
        if contains_vec(&mv, &m1) || contains_vec(&mv, &m2) {
            return ApiError {
                kind: ApiErrorKind::AudioDevice,
                message: msg.to_owned(),
                hint: Some(audio_device_hint(os)),
            };
        }
        ApiError { kind: ApiErrorKind::Internal, message: msg.to_owned(), hint: None }
    }
}

proof fn lemma_strip_own_prefix(p: Seq<char>, m: Seq<char>)
    ensures
        strip_prefix(p + m, p) == Some(m),
{
    assert((p + m).subrange(0, p.len() as int) =~= p);
    assert((p + m).subrange(p.len() as int, (p + m).len() as int) =~= m);
}

proof fn lemma_not_prefix(s: Seq<char>, p: Seq<char>, k: int)
    requires
        0 <= k < p.len(),
        k < s.len(),
        s[k] != p[k],
    ensures
        strip_prefix(s, p) is None,
{
    if p.len() <= s.len() {
        assert(s.subrange(0, p.len() as int)[k] == s[k]);
    }
}

/// The user-facing text of a core error is read back by `from_message` as
/// that error: for every error whose text carries a recognised prefix (and
/// for a cancellation), the message view equals the view of the error, on
/// every operating system.
pub proof fn lemma_from_message_reads_error_text(e: ArcanaError, os: TargetOs)
    requires
        e is AudioDevice || e is AudioStream || e is ModelLoad || e is Network || e is InputSimulation
            || e is Cancelled,
    ensures
        spec_from_message_on(error_text(e), os) == spec_from_arcana_on(e, os),
{
    reveal_strlit("Ошибка аудиоустройства: ");
    reveal_strlit("Ошибка аудиопотока: ");
    reveal_strlit("Ошибка загрузки модели: ");
    reveal_strlit("Ошибка сети: ");
    reveal_strlit("Ошибка симуляции ввода: ");
    reveal_strlit("Транскрибация отменена");
    let p1 = "Ошибка аудиоустройства: "@;
    let p2 = "Ошибка аудиопотока: "@;
    let p3 = "Ошибка загрузки модели: "@;
    let p4 = "Ошибка сети: "@;
    let p5 = "Ошибка симуляции ввода: "@;
    match e {
        ArcanaError::AudioDevice(m) => {
            lemma_strip_own_prefix(p1, m@);
        },
        ArcanaError::AudioStream(m) => {
            let t = p2 + m@;
            lemma_not_prefix(t, p1, 12);
            lemma_strip_own_prefix(p2, m@);
        },
        ArcanaError::ModelLoad(m) => {
            let t = p3 + m@;
            lemma_not_prefix(t, p1, 7);
            lemma_not_prefix(t, p2, 7);
            lemma_strip_own_prefix(p3, m@);
        },
        ArcanaError::Network(m) => {
            let t = p4 + m@;
            lemma_not_prefix(t, p1, 7);
            lemma_not_prefix(t, p2, 7);
            lemma_not_prefix(t, p3, 7);
            lemma_strip_own_prefix(p4, m@);
        },
        ArcanaError::InputSimulation(m) => {
            let t = p5 + m@;
            lemma_not_prefix(t, p1, 7);
            lemma_not_prefix(t, p2, 7);
            lemma_not_prefix(t, p3, 7);
            lemma_not_prefix(t, p4, 8);
            lemma_strip_own_prefix(p5, m@);
        },
        ArcanaError::Cancelled => {
            let t = "Транскрибация отменена"@;
            lemma_not_prefix(t, p1, 0);
            lemma_not_prefix(t, p2, 0);
            lemma_not_prefix(t, p3, 0);
            lemma_not_prefix(t, p4, 0);
            lemma_not_prefix(t, p5, 0);
        },
        _ => {},
    }
}

} // verus!
