use vstd::prelude::*;

use crate::config::{TranscriberType, compiled, engine_name, is_onnx};
use crate::text::string_of;

verus! {

/// Which engines a build of the program carries.
#[derive(Debug, Clone, Copy, PartialEq, Eq, Structural)]
pub struct BuildEngines {
    pub vosk: bool,
    pub whisper: bool,
    pub gigaam: bool,
    pub qwen3asr: bool,
}

/// Whether the build carries engine `t`.
pub open spec fn carries(b: BuildEngines, t: TranscriberType) -> bool {
    match t {
        TranscriberType::Vosk => b.vosk,
        TranscriberType::Whisper => b.whisper,
        TranscriberType::GigaAm => b.gigaam,
        TranscriberType::Qwen3Asr => b.qwen3asr,
    }
}

/// The engines of the build this library describes (see `compiled`).
pub open spec fn this_build() -> BuildEngines {
    BuildEngines {
        vosk: compiled(TranscriberType::Vosk),
        whisper: compiled(TranscriberType::Whisper),
        gigaam: compiled(TranscriberType::GigaAm),
        qwen3asr: compiled(TranscriberType::Qwen3Asr),
    }
}

impl BuildEngines {
    /// The engines of the build this library describes.
    pub fn current() -> (r: BuildEngines)
        ensures
            r == this_build(),
    {
        BuildEngines {
            vosk: TranscriberType::Vosk.is_compiled_in(),
            whisper: TranscriberType::Whisper.is_compiled_in(),
            gigaam: TranscriberType::GigaAm.is_compiled_in(),
            qwen3asr: TranscriberType::Qwen3Asr.is_compiled_in(),
        }
    }
}

/// The first engine the build carries, in interface order (Vosk, Whisper,
/// GigaAM, Qwen3-ASR), or GigaAM when it carries none.
pub open spec fn first_carried(b: BuildEngines) -> TranscriberType {
    if b.vosk {
        TranscriberType::Vosk
    } else if b.whisper {
        TranscriberType::Whisper
    } else if b.gigaam {
        TranscriberType::GigaAm
    } else if b.qwen3asr {
        TranscriberType::Qwen3Asr
    } else {
        TranscriberType::GigaAm
    }
}

/// The engine that replaces an ONNX engine the CPU cannot run: the first
/// carried engine that does not run on ONNX Runtime, Whisper before Vosk.
pub open spec fn non_onnx_alternative(b: BuildEngines) -> Option<TranscriberType> {
    if b.whisper {
        Some(TranscriberType::Whisper)
    } else if b.vosk {
        Some(TranscriberType::Vosk)
    } else {
        None
    }
}

/// A runtime switch from one engine to another, by their stored names.
pub open spec fn switch_of(from: TranscriberType, to: TranscriberType) -> Option<(Seq<char>, Seq<char>)> {
    Some((engine_name(from), engine_name(to)))
}

/// The engine chosen at startup, after the first step: an engine missing
/// from the build is replaced by the first one it carries.
pub open spec fn after_build_check(configured: TranscriberType, b: BuildEngines) -> (
    TranscriberType,
    Option<(Seq<char>, Seq<char>)>,
) {
    if carries(b, configured) {
        (configured, None)
    } else {
        (first_carried(b), switch_of(configured, first_carried(b)))
    }
}

/// The engine chosen at startup in build `b` and the switch made, if any.
/// An ONNX engine on a CPU without AVX, with an ONNX Runtime that needs
/// AVX, is replaced by a carried engine that is not ONNX-based (Whisper,
/// then Vosk), where there is one.
pub open spec fn spec_resolve_startup_engine_in(
    configured: TranscriberType,
    avx_ok: bool,
    ort_needs_avx: bool,
    b: BuildEngines,
) -> (TranscriberType, Option<(Seq<char>, Seq<char>)>) {
    let (t, fb) = after_build_check(configured, b);
    if !avx_ok && is_onnx(t) && ort_needs_avx {
        match non_onnx_alternative(b) {
            Some(alt) => (alt, switch_of(t, alt)),
            None => (t, fb),
        }
    } else {
        (t, fb)
    }
}

/// The engine chosen at startup in the build this library describes.
pub open spec fn spec_resolve_startup_engine(
    configured: TranscriberType,
    avx_ok: bool,
    ort_needs_avx: bool,
) -> (TranscriberType, Option<(Seq<char>, Seq<char>)>) {
    spec_resolve_startup_engine_in(configured, avx_ok, ort_needs_avx, this_build())
}

/// Views of a startup switch.
pub open spec fn switch_view(f: Option<(String, String)>) -> Option<(Seq<char>, Seq<char>)> {
    match f {
        Some((a, b)) => Some((a@, b@)),
        None => None,
    }
}

fn switch_strings(from: TranscriberType, to: TranscriberType) -> (r: Option<(String, String)>)
    ensures
        switch_view(r) == switch_of(from, to),
{
    let a = crate::text::chars_of(from.as_str());
    let b = crate::text::chars_of(to.as_str());
    Some((string_of(&a), string_of(&b)))
}

fn build_carries(b: BuildEngines, t: TranscriberType) -> (r: bool)
    ensures
        r == carries(b, t),
{
    match t {
        TranscriberType::Vosk => b.vosk,
        TranscriberType::Whisper => b.whisper,
        TranscriberType::GigaAm => b.gigaam,
        TranscriberType::Qwen3Asr => b.qwen3asr,
    }
}

/// Picks the engine to start with in build `build`: the configured one,
/// unless the build lacks it or the CPU cannot run it. The stored
/// configuration is not changed; the switch made, if any, is returned as
/// (from, to).
pub fn resolve_startup_engine_in(
    configured: TranscriberType,
    avx_ok: bool,
    ort_needs_avx: bool,
    build: BuildEngines,
) -> (r: (TranscriberType, Option<(String, String)>))
    ensures
        (r.0, switch_view(r.1)) == spec_resolve_startup_engine_in(configured, avx_ok, ort_needs_avx, build),
{
    let mut transcriber = configured;
    let mut fallback: Option<(String, String)> = None;
    if !build_carries(build, transcriber) {
        transcriber = if build.vosk {
            TranscriberType::Vosk
        } else if build.whisper {
            TranscriberType::Whisper
        } else if build.gigaam {
            TranscriberType::GigaAm
        } else if build.qwen3asr {
            TranscriberType::Qwen3Asr
        } else {
            TranscriberType::GigaAm
        };
        fallback = switch_strings(configured, transcriber);
    }
    let onnx = match transcriber {
        TranscriberType::GigaAm | TranscriberType::Qwen3Asr => true,
        _ => false,
    };
    if !avx_ok && onnx && ort_needs_avx {
        let alt = if build.whisper {
            Some(TranscriberType::Whisper)
        } else if build.vosk {
            Some(TranscriberType::Vosk)
        } else {
            None
        };
        if let Some(n) = alt {
            fallback = switch_strings(transcriber, n);
            transcriber = n;
        }
    }
    (transcriber, fallback)
}

/// Picks the engine to start with in the build this library describes.
pub fn resolve_startup_engine(
    configured: TranscriberType,
    avx_ok: bool,
    ort_needs_avx: bool,
) -> (r: (TranscriberType, Option<(String, String)>))
    ensures
        (r.0, switch_view(r.1)) == spec_resolve_startup_engine(configured, avx_ok, ort_needs_avx),
{
    resolve_startup_engine_in(configured, avx_ok, ort_needs_avx, BuildEngines::current())
}

/// The engine chosen at startup is always one that the build carries, in
/// every build that carries at least one engine.
pub proof fn lemma_startup_engine_is_carried(
    configured: TranscriberType,
    avx_ok: bool,
    ort_needs_avx: bool,
    b: BuildEngines,
)
    requires
        b.vosk || b.whisper || b.gigaam || b.qwen3asr,
    ensures
        carries(b, spec_resolve_startup_engine_in(configured, avx_ok, ort_needs_avx, b).0),
{
}

/// The engine chosen at startup is always one that this build carries.
pub proof fn lemma_startup_engine_is_compiled(configured: TranscriberType, avx_ok: bool, ort_needs_avx: bool)
    ensures
        compiled(spec_resolve_startup_engine(configured, avx_ok, ort_needs_avx).0),
{
    lemma_startup_engine_is_carried(configured, avx_ok, ort_needs_avx, this_build());
}

} // verus!
