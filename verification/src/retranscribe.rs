use vstd::prelude::*;

use crate::audio::{pcm_from_le_bytes, pcm_samples};
use crate::config::{TranscriberType, compiled_list, engine_name};
use crate::history::{HistoryEntry, Transcription};
use crate::text::{chars_of, eq_str, string_of};

verus! {

/// Whether the build carries an engine stored under this name.
pub open spec fn engine_in_build(name: Seq<char>) -> bool {
    exists|i: int| 0 <= i < compiled_list().len() && engine_name(#[trigger] compiled_list()[i]) == name
}

/// The error for an engine missing from the build.
pub open spec fn engine_missing_error(name: Seq<char>) -> Seq<char> {
    "Движок '"@ + name + "' недоступен в этой сборке — пересоберите с соответствующей cargo feature"@
}

/// A new transcription of a recording is possible only with an engine of
/// this build.
pub fn check_engine_in_build(transcriber_type: &str) -> (r: Result<(), String>)
    ensures
        r is Ok <==> engine_in_build(transcriber_type@),
        r matches Err(m) ==> m@ == engine_missing_error(transcriber_type@),
{
    let engines = TranscriberType::compiled_engines();
    let t = chars_of(transcriber_type);
    let mut i: usize = 0;
    while i < engines.len()
        invariant
            i <= engines.len(),
            engines@ == compiled_list(),
            t@ == transcriber_type@,
            forall|j: int| 0 <= j < i ==> engine_name(#[trigger] compiled_list()[j]) != transcriber_type@,
        decreases engines.len() - i,
    {
        let name = engines[i].as_str();
        if eq_str(&t, name) {
            assert(engine_name(compiled_list()[i as int]) == transcriber_type@);
            return Ok(());
        }
        i = i + 1;
    }
    let mut m = "Движок '".to_owned();
    m.append(transcriber_type);
    m.append("' недоступен в этой сборке — пересоберите с соответствующей cargo feature");
    Err(m)
}

/// The position of the first entry of recording `id`.
pub open spec fn entry_index(entries: Seq<HistoryEntry>, id: i64) -> Option<int>
    decreases entries.len(),
{
    if entries.len() == 0 {
        None
    } else if entries[0].recording.id == id {
        Some(0)
    } else {
        match entry_index(entries.drop_first(), id) {
            Some(k) => Some(k + 1),
            None => None,
        }
    }
}

proof fn lemma_entry_index_skip(entries: Seq<HistoryEntry>, id: i64, i: int)
    requires
        0 <= i <= entries.len(),
        forall|j: int| 0 <= j < i ==> #[trigger] entries[j].recording.id != id,
    ensures
        entry_index(entries, id) == match entry_index(entries.subrange(i, entries.len() as int), id) {
            Some(k) => Some(k + i),
            None => None,
        },
    decreases i,
{
    if i == 0 {
        assert(entries.subrange(0, entries.len() as int) =~= entries);
    } else {
        let t = entries.drop_first();
        assert forall|j: int| 0 <= j < i - 1 implies #[trigger] t[j].recording.id != id by {
            assert(t[j] == entries[j + 1]);
        }
        lemma_entry_index_skip(t, id, i - 1);
        assert(t.subrange(i - 1, t.len() as int) =~= entries.subrange(i, entries.len() as int));
    }
}

/// Finds the entry of recording `id`: the first one with that id.
pub fn find_entry(entries: &Vec<HistoryEntry>, id: i64) -> (r: Option<usize>)
    ensures
        match r {
            Some(i) => i < entries@.len() && entry_index(entries@, id) == Some(i as int),
            None => entry_index(entries@, id) is None,
        },
{
    let mut i: usize = 0;
    while i < entries.len()
        invariant
            i <= entries.len(),
            forall|j: int| 0 <= j < i ==> #[trigger] entries@[j].recording.id != id,
        decreases entries.len() - i,
    {
        if entries[i].recording.id == id {
            proof {
                lemma_entry_index_skip(entries@, id, i as int);
                let rest = entries@.subrange(i as int, entries@.len() as int);
                assert(rest[0].recording.id == id);
            }
            return Some(i);
        }
        i = i + 1;
    }
    proof {
        lemma_entry_index_skip(entries@, id, i as int);
        assert(entries@.subrange(i as int, entries@.len() as int).len() == 0);
    }
    None
}

/// The recording must exist and still have its audio.
pub fn check_entry(entry: Option<&HistoryEntry>) -> (r: Result<(), String>)
    ensures
        entry is None ==> (r matches Err(m) && m@ == "Запись не найдена"@),
        entry matches Some(e) && !e.audio_exists ==> (r matches Err(m) && m@
            == "Аудиофайл удалён — повторная транскрибация невозможна"@),
        entry matches Some(e) && e.audio_exists ==> r is Ok,
{
    match entry {
        None => Err("Запись не найдена".to_owned()),
        Some(e) => {
            if !e.audio_exists {
                Err("Аудиофайл удалён — повторная транскрибация невозможна".to_owned())
            } else {
                Ok(())
            }
        },
    }
}

/// The engines a recording can be transcribed again with.
pub open spec fn retranscribable(t: Seq<char>) -> bool {
    t == "vosk"@ || t == "whisper"@ || t == "gigaam"@ || t == "qwen3asr"@
}

/// The model name and engine name of a new transcription: the name of the
/// configured model file, or the engine's name when there is none; an
/// unknown engine is an error.
pub fn retranscribe_model(transcriber_type: &str, model_file_name: Option<&str>) -> (r: Result<
    (String, String),
    String,
>)
    ensures
        retranscribable(transcriber_type@) ==> (r matches Ok((m, t)) && t@ == transcriber_type@ && m@
            == match model_file_name {
            Some(f) => f@,
            None => transcriber_type@,
        }),
        !retranscribable(transcriber_type@) ==> (r matches Err(e) && e@ == "Неизвестный тип транскрайбера"@),
{
    let t = chars_of(transcriber_type);
    if eq_str(&t, "vosk") || eq_str(&t, "whisper") || eq_str(&t, "gigaam") || eq_str(&t, "qwen3asr") {
        let name = match model_file_name {
            Some(f) => f.to_owned(),
            None => transcriber_type.to_owned(),
        };
        Ok((name, string_of(&t)))
    } else {
        Err("Неизвестный тип транскрайбера".to_owned())
    }
}

/// A recording is transcribed by a model at most once: the error when a
/// transcription by `model_name` exists.
pub fn check_not_transcribed(existing: &Vec<Transcription>, model_name: &str) -> (r: Result<(), String>)
    ensures
        r is Ok <==> forall|i: int| 0 <= i < existing@.len() ==> #[trigger] existing@[i].model_name@ != model_name@,
        r matches Err(m) ==> m@ == "Запись уже распознана моделью "@ + model_name@,
{
    let mut i: usize = 0;
    while i < existing.len()
        invariant
            i <= existing.len(),
            forall|j: int| 0 <= j < i ==> #[trigger] existing@[j].model_name@ != model_name@,
        decreases existing.len() - i,
    {
        let n = chars_of(existing[i].model_name.as_str());
        if eq_str(&n, model_name) {
            let mut m = "Запись уже распознана моделью ".to_owned();
            m.append(model_name);
            return Err(m);
        }
        i = i + 1;
    }
    Ok(())
}

/// A new transcription must not be empty.
pub fn check_nonempty_result(text: &str) -> (r: Result<(), String>)
    ensures
        r is Ok <==> text@.len() > 0,
        r matches Err(m) ==> m@ == "Распознавание вернуло пустой результат"@,
{
    if text.is_empty() {
        Err("Распознавание вернуло пустой результат".to_owned())
    } else {
        Ok(())
    }
}

/// What a re-transcription does next. The program performs the action and
/// hands its outcome to the matching `retranscribe_on_*` function, until
/// `Finish` or `Fail`.
#[derive(Debug)]
pub enum RetranscribeAction {
    /// Read the history (its first 1000 recordings).
    QueryHistory,
    /// Load the configuration (the file name of the engine's model path)
    /// and read the recording's audio file.
    ReadAudio { path: String },
    /// List the transcriptions the recording already has.
    ListTranscriptions { model_name: String, engine: String, samples: Vec<i16> },
    /// Create the engine and run it on the samples.
    Transcribe { model_name: String, engine: String, samples: Vec<i16> },
    /// Store the new transcription.
    Save { text: String, model_name: String, engine: String },
    /// The answer: the text and the name of the model that produced it.
    Finish { text: String, model_name: String },
    /// The re-transcription fails with this message.
    Fail(String),
}

/// The first step: an engine of this build reads the history next.
pub fn retranscribe_start(transcriber_type: &str) -> (r: RetranscribeAction)
    ensures
        engine_in_build(transcriber_type@) ==> r is QueryHistory,
        !engine_in_build(transcriber_type@) ==> (r matches RetranscribeAction::Fail(m) && m@
            == engine_missing_error(transcriber_type@)),
{
    match check_engine_in_build(transcriber_type) {
        Ok(()) => RetranscribeAction::QueryHistory,
        Err(m) => RetranscribeAction::Fail(m),
    }
}

/// After the history was read: the recording must be there with its audio,
/// whose file is read next.
pub fn retranscribe_on_history(history: Result<Vec<HistoryEntry>, String>, recording_id: i64) -> (r:
    RetranscribeAction)
    ensures
        history matches Err(e) ==> (r matches RetranscribeAction::Fail(m) && m@ == e@),
        history matches Ok(v) ==> (entry_index(v@, recording_id) is None ==> (
        r matches RetranscribeAction::Fail(m) && m@ == "Запись не найдена"@)),
        history matches Ok(v) ==> (entry_index(v@, recording_id) matches Some(k) ==> if v@[k].audio_exists {
            r matches RetranscribeAction::ReadAudio { path } && path@ == v@[k].recording.audio_path@
        } else {
            r matches RetranscribeAction::Fail(m) && m@ == "Аудиофайл удалён — повторная транскрибация невозможна"@
        }),
{
    match history {
        Err(e) => RetranscribeAction::Fail(e),
        Ok(v) => {
            match find_entry(&v, recording_id) {
                None => {
                    let c = check_entry(None);
                    match c {
                        Err(m) => RetranscribeAction::Fail(m),
                        Ok(()) => RetranscribeAction::QueryHistory,
                    }
                },
                Some(i) => {
                    let c = check_entry(Some(&v[i]));
                    match c {
                        Err(m) => RetranscribeAction::Fail(m),
                        Ok(()) => RetranscribeAction::ReadAudio { path: v[i].recording.audio_path.clone() },
                    }
                },
            }
        },
    }
}

/// After the configuration was loaded (giving the file name of the engine's
/// model path, if it has one) and the audio file was read: the samples are
/// decoded and the transcriptions of the recording are listed next, under
/// the model's name.
pub fn retranscribe_on_audio(
    transcriber_type: &str,
    model_file_name: Result<Option<String>, String>,
    audio: Result<Vec<u8>, String>,
) -> (r: RetranscribeAction)
    ensures
        model_file_name matches Err(e) ==> (r matches RetranscribeAction::Fail(m) && m@ == e@),
        audio matches Err(e) ==> (model_file_name is Ok ==> (r matches RetranscribeAction::Fail(m) && m@
            == "Не удалось прочитать аудио: "@ + e@)),
        model_file_name is Ok && audio is Ok && !retranscribable(transcriber_type@) ==> (
        r matches RetranscribeAction::Fail(m) && m@ == "Неизвестный тип транскрайбера"@),
        model_file_name matches Ok(f) ==> (audio matches Ok(bytes) ==> (retranscribable(transcriber_type@) ==> (
        r matches RetranscribeAction::ListTranscriptions { model_name, engine, samples } && engine@
            == transcriber_type@ && model_name@ == match f {
            Some(n) => n@,
            None => transcriber_type@,
        } && samples@ == pcm_samples(bytes@)))),
{
    let file_name = match model_file_name {
        Err(e) => {
            return RetranscribeAction::Fail(e);
        },
        Ok(f) => f,
    };
    let bytes = match audio {
        Err(e) => {
            let mut m = "Не удалось прочитать аудио: ".to_owned();
            m.append(e.as_str());
            return RetranscribeAction::Fail(m);
        },
        Ok(b) => b,
    };
    let samples = pcm_from_le_bytes(bytes.as_slice());
    let named = match &file_name {
        Some(n) => retranscribe_model(transcriber_type, Some(n.as_str())),
        None => retranscribe_model(transcriber_type, None),
    };
    match named {
        Err(m) => RetranscribeAction::Fail(m),
        Ok((model_name, engine)) => RetranscribeAction::ListTranscriptions { model_name, engine, samples },
    }
}

/// After the recording's transcriptions were listed: a model transcribes a
/// recording once; otherwise the engine runs next.
pub fn retranscribe_on_existing(
    existing: Result<Vec<Transcription>, String>,
    model_name: String,
    engine: String,
    samples: Vec<i16>,
) -> (r: RetranscribeAction)
    ensures
        existing matches Err(e) ==> (r matches RetranscribeAction::Fail(m) && m@ == e@),
        existing matches Ok(v) ==> ((exists|i: int| 0 <= i < v@.len() && #[trigger] v@[i].model_name@ == model_name@)
            ==> (r matches RetranscribeAction::Fail(m) && m@ == "Запись уже распознана моделью "@ + model_name@)),
        existing matches Ok(v) ==> ((forall|i: int| 0 <= i < v@.len() ==> #[trigger] v@[i].model_name@ != model_name@)
            ==> (r matches RetranscribeAction::Transcribe { model_name: mn, engine: en, samples: sm } && mn@
            == model_name@ && en@ == engine@ && sm@ == samples@)),
{
    match existing {
        Err(e) => RetranscribeAction::Fail(e),
        Ok(v) => {
            match check_not_transcribed(&v, model_name.as_str()) {
                Err(m) => RetranscribeAction::Fail(m),
                Ok(()) => RetranscribeAction::Transcribe { model_name, engine, samples },
            }
        },
    }
}

/// After the engine ran (or could not be created): a non-empty text is
/// stored next.
pub fn retranscribe_on_text(text: Result<String, String>, model_name: String, engine: String) -> (r:
    RetranscribeAction)
    ensures
        text matches Err(e) ==> (r matches RetranscribeAction::Fail(m) && m@ == e@),
        text matches Ok(t) ==> (t@.len() == 0 ==> (r matches RetranscribeAction::Fail(m) && m@
            == "Распознавание вернуло пустой результат"@)),
        text matches Ok(t) ==> (t@.len() > 0 ==> (r matches RetranscribeAction::Save {
            text: tx,
            model_name: mn,
            engine: en,
        } && tx@ == t@ && mn@ == model_name@ && en@ == engine@)),
{
    match text {
        Err(e) => RetranscribeAction::Fail(e),
        Ok(t) => {
            match check_nonempty_result(t.as_str()) {
                Err(m) => RetranscribeAction::Fail(m),
                Ok(()) => RetranscribeAction::Save { text: t, model_name, engine },
            }
        },
    }
}

/// After the transcription was stored: the answer is the text and the
/// model's name.
pub fn retranscribe_on_saved(saved: Result<(), String>, text: String, model_name: String) -> (r:
    RetranscribeAction)
    ensures
        saved matches Err(e) ==> (r matches RetranscribeAction::Fail(m) && m@ == e@),
        saved is Ok ==> (r matches RetranscribeAction::Finish { text: tx, model_name: mn } && tx@ == text@ && mn@
            == model_name@),
{
    match saved {
        Err(e) => RetranscribeAction::Fail(e),
        Ok(()) => RetranscribeAction::Finish { text, model_name },
    }
}

} // verus!
