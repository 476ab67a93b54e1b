use vstd::prelude::*;

use crate::text::{chars_of, contains, contains_vec, eq_str};

verus! {

/// The label of a macOS input-monitoring access status.
pub open spec fn spec_hid_access_label(status: u32) -> Seq<char> {
    if status == 0 {
        "granted"@
    } else if status == 1 {
        "denied — глобальный хоткей не сработает"@
    } else {
        "unknown (ещё не запрашивалось)"@
    }
}

/// The label of a macOS input-monitoring access status: granted, denied,
/// or unknown for every other code.
pub fn hid_access_label(status: u32) -> (r: &'static str)
    ensures
        r@ == spec_hid_access_label(status),
{
    if status == 0 {
        "granted"
    } else if status == 1 {
        "denied — глобальный хоткей не сработает"
    } else {
        "unknown (ещё не запрашивалось)"
    }
}

/// The arguments that make a terminal emulator run `bash -c <cmd>`.
pub open spec fn spec_terminal_args(terminal: Seq<char>, cmd: Seq<char>) -> Seq<Seq<char>> {
    if terminal == "gnome-terminal"@ || terminal == "tilix"@ {
        seq!["--"@, "bash"@, "-c"@, cmd]
    } else if terminal == "konsole"@ {
        seq!["--noclose"@, "-e"@, "bash"@, "-c"@, cmd]
    } else {
        seq!["-e"@, "bash"@, "-c"@, cmd]
    }
}

/// Per-terminal arguments to run `bash -c <cmd>`: gnome-terminal and tilix
/// take the command after `--`, konsole needs `--noclose` to keep its
/// window, the others take `-e`.
pub fn terminal_args(terminal: &str, bash_cmd: &str) -> (r: Vec<String>)
    ensures
        crate::text::sviews(r@) == spec_terminal_args(terminal@, bash_cmd@),
{
    let t = chars_of(terminal);
    let cmd = bash_cmd.to_owned();
    let mut r: Vec<String> = Vec::new();
    if eq_str(&t, "gnome-terminal") || eq_str(&t, "tilix") {
        r.push("--".to_owned());
    } else if eq_str(&t, "konsole") {
        r.push("--noclose".to_owned());
        r.push("-e".to_owned());
    } else {
        r.push("-e".to_owned());
    }
    r.push("bash".to_owned());
    r.push("-c".to_owned());
    r.push(cmd);
    assert(crate::text::sviews(r@) =~= spec_terminal_args(terminal@, bash_cmd@));
    r
}

/// Where ONNX Runtime is loaded from.
#[derive(Debug, Clone, Copy, PartialEq, Eq, Structural)]
pub enum OrtDylibChoice {
    /// The environment already names a library: leave it.
    FromEnv,
    /// The user's own build under /usr/local/lib.
    SelfBuilt,
    /// The library shipped in the package, for the CPU's instruction set.
    Bundled,
    /// None found: the system loader searches.
    SystemLoader,
}

/// The library bundled in the package for a CPU with or without AVX.
pub open spec fn spec_bundled_ort(avx: bool) -> Seq<char> {
    if avx {
        "/usr/lib/arcanaglyph/libonnxruntime-avx2.so"@
    } else {
        "/usr/lib/arcanaglyph/libonnxruntime-noavx.so"@
    }
}

/// The bundled ONNX Runtime library for the CPU.
pub fn bundled_ort_path(avx: bool) -> (r: &'static str)
    ensures
        r@ == spec_bundled_ort(avx),
{
    if avx {
        "/usr/lib/arcanaglyph/libonnxruntime-avx2.so"
    } else {
        "/usr/lib/arcanaglyph/libonnxruntime-noavx.so"
    }
}

/// The operating system the program was built for, as far as loading ONNX
/// Runtime is concerned.
#[derive(Debug, Clone, Copy, PartialEq, Eq, Structural)]
pub enum TargetOs {
    Linux,
    Windows,
    MacOs,
    /// The other systems (treated like Linux where they differ at all).
    Other,
}

/// The processor architecture, with whether an x86-64 CPU has AVX.
#[derive(Debug, Clone, Copy, PartialEq, Eq, Structural)]
pub enum CpuArch {
    X86_64 { avx: bool },
    Other,
}

/// Whether the program names the ONNX Runtime library at startup: on Linux
/// and Windows; elsewhere (macOS included, where ONNX Runtime finds its
/// library by itself) startup leaves the environment as it is.
pub fn sets_ort_dylib_path(os: TargetOs) -> (r: bool)
    ensures
        r == (os is Linux || os is Windows),
{
    match os {
        TargetOs::Linux | TargetOs::Windows => true,
        _ => false,
    }
}

/// The library bundled in the Linux package for the architecture: the
/// AVX or non-AVX build on x86-64, the single build elsewhere.
pub open spec fn spec_bundled_ort_for(arch: CpuArch) -> Seq<char> {
    match arch {
        CpuArch::X86_64 { avx } => spec_bundled_ort(avx),
        CpuArch::Other => "/usr/lib/arcanaglyph/libonnxruntime.so"@,
    }
}

/// The bundled ONNX Runtime library for the architecture.
pub fn bundled_ort_for(arch: CpuArch) -> (r: &'static str)
    ensures
        r@ == spec_bundled_ort_for(arch),
{
    match arch {
        CpuArch::X86_64 { avx } => bundled_ort_path(avx),
        CpuArch::Other => "/usr/lib/arcanaglyph/libonnxruntime.so",
    }
}

/// Where the Windows installer may have put `onnxruntime.dll`, as path
/// components under the executable's directory, in the order looked at.
pub open spec fn spec_windows_ort_candidates() -> Seq<Seq<Seq<char>>> {
    seq![
        seq!["onnxruntime.dll"@],
        seq!["libs"@, "onnxruntime.dll"@],
        seq!["resources"@, "libs"@, "onnxruntime.dll"@],
    ]
}

/// The places looked at for `onnxruntime.dll` on Windows.
pub fn windows_ort_candidates() -> (r: Vec<Vec<&'static str>>)
    ensures
        r@.len() == 3,
        forall|i: int|
            0 <= i < 3 ==> (#[trigger] r@[i])@.map_values(|p: &'static str| p@) == spec_windows_ort_candidates()[i],
{
    let a = vec!["onnxruntime.dll"];
    let b = vec!["libs", "onnxruntime.dll"];
    let c = vec!["resources", "libs", "onnxruntime.dll"];
    assert(a@.map_values(|p: &'static str| p@) =~= spec_windows_ort_candidates()[0]);
    assert(b@.map_values(|p: &'static str| p@) =~= spec_windows_ort_candidates()[1]);
    assert(c@.map_values(|p: &'static str| p@) =~= spec_windows_ort_candidates()[2]);
    vec![a, b, c]
}

/// Where ONNX Runtime is loaded from on Windows.
#[derive(Debug, Clone, Copy, PartialEq, Eq, Structural)]
pub enum WindowsOrtChoice {
    /// The environment already names a library: leave it.
    FromEnv,
    /// The executable's directory is unknown: nothing is set.
    NoExeDir,
    /// The candidate with this index exists.
    Candidate(usize),
    /// None found: the system's search path is used.
    SystemPath,
}

/// The Windows choice, from whether the environment names a library,
/// whether the executable's directory is known, and which candidates
/// exist: the first existing candidate wins.
pub fn windows_ort_choice(env_set: bool, exe_dir_known: bool, exists: &Vec<bool>) -> (r: WindowsOrtChoice)
    ensures
        env_set ==> r == WindowsOrtChoice::FromEnv,
        !env_set && !exe_dir_known ==> r == WindowsOrtChoice::NoExeDir,
        !env_set && exe_dir_known ==> match r {
            WindowsOrtChoice::Candidate(k) => k < exists@.len() && exists@[k as int] && forall|j: int|
                0 <= j < k ==> !exists@[j],
            WindowsOrtChoice::SystemPath => forall|j: int| 0 <= j < exists@.len() ==> !exists@[j],
            _ => false,
        },
{
    if env_set {
        return WindowsOrtChoice::FromEnv;
    }
    if !exe_dir_known {
        return WindowsOrtChoice::NoExeDir;
    }
    let mut i: usize = 0;
    while i < exists.len()
        invariant
            i <= exists.len(),
            !env_set && exe_dir_known,
            forall|j: int| 0 <= j < i ==> !exists@[j],
        decreases exists.len() - i,
    {
        if exists[i] {
            return WindowsOrtChoice::Candidate(i);
        }
        i = i + 1;
    }
    WindowsOrtChoice::SystemPath
}

/// The choice of ONNX Runtime library, in order of priority: the
/// environment's, the self-built one, the bundled one, the system's.
pub fn ort_dylib_choice(env_set: bool, self_built_exists: bool, bundled_exists: bool) -> (r:
    OrtDylibChoice)
    ensures
        r == (if env_set {
            OrtDylibChoice::FromEnv
        } else if self_built_exists {
            OrtDylibChoice::SelfBuilt
        } else if bundled_exists {
            OrtDylibChoice::Bundled
        } else {
            OrtDylibChoice::SystemLoader
        }),
{
    if env_set {
        OrtDylibChoice::FromEnv
    } else if self_built_exists {
        OrtDylibChoice::SelfBuilt
    } else if bundled_exists {
        OrtDylibChoice::Bundled
    } else {
        OrtDylibChoice::SystemLoader
    }
}

/// Whether an uppercased `XDG_CURRENT_DESKTOP` value names a GNOME-based
/// session (GNOME or Unity).
pub fn desktop_is_gnome(desktop_upper: &str) -> (r: bool)
    ensures
        r == (contains(desktop_upper@, "GNOME"@) || contains(desktop_upper@, "UNITY"@)),
{
    let d = chars_of(desktop_upper);
    let g = chars_of("GNOME");
    let u = chars_of("UNITY");
    contains_vec(&d, &g) || contains_vec(&d, &u)
}

/// How a recognised text reaches the focused window.
#[derive(Debug, Clone, Copy, PartialEq, Eq, Structural)]
pub enum PasteMethod {
    /// Nothing to insert.
    Nothing,
    /// Wayland: copy with `wl-copy`, then Shift+Insert through the
    /// RemoteDesktop portal.
    WaylandPortal,
    /// X11: copy to the clipboard and primary selection, then Shift+Insert.
    X11Clipboard,
    /// Other systems: type the text key by key.
    TypeKeys,
}

/// The insertion method for a text on Linux (`linux`) with the session
/// type `session` (`XDG_SESSION_TYPE`), or on another system.
pub fn paste_method(text: &str, linux: bool, session: &str) -> (r: PasteMethod)
    ensures
        r == (if text@.len() == 0 {
            PasteMethod::Nothing
        } else if !linux {
            PasteMethod::TypeKeys
        } else if session@ == "wayland"@ {
            PasteMethod::WaylandPortal
        } else {
            PasteMethod::X11Clipboard
        }),
{
    if text.is_empty() {
        PasteMethod::Nothing
    } else if !linux {
        PasteMethod::TypeKeys
    } else {
        let sv = chars_of(session);
        if eq_str(&sv, "wayland") {
            PasteMethod::WaylandPortal
        } else {
            PasteMethod::X11Clipboard
        }
    }
}

/// The evdev key events of Shift+Insert: Shift down, Insert down, Insert
/// up, Shift up (`true` for a press).
pub fn paste_key_events() -> (r: Vec<(i32, bool)>)
    ensures
        r@ == seq![(42i32, true), (110i32, true), (110i32, false), (42i32, false)],
{
    let mut r: Vec<(i32, bool)> = Vec::new();
    r.push((42, true));
    r.push((110, true));
    r.push((110, false));
    r.push((42, false));
    assert(r@ =~= seq![(42i32, true), (110i32, true), (110i32, false), (42i32, false)]);
    r
}

/// A command received on the trigger socket.
#[derive(Debug, Clone, Copy, PartialEq, Eq, Structural)]
pub enum IpcCommand {
    Pause,
    Trigger,
}

/// Reads a packet of the trigger socket: one that mentions `pause` pauses,
/// else one that mentions `trigger` triggers; anything else is ignored.
pub fn ipc_command(msg: &str) -> (r: Option<IpcCommand>)
    ensures
        r == (if contains(msg@, "pause"@) {
            Some(IpcCommand::Pause)
        } else if contains(msg@, "trigger"@) {
            Some(IpcCommand::Trigger)
        } else {
            None
        }),
{
    let m = chars_of(msg);
    let p = chars_of("pause");
    let t = chars_of("trigger");
    if contains_vec(&m, &p) {
        Some(IpcCommand::Pause)
    } else if contains_vec(&m, &t) {
        Some(IpcCommand::Trigger)
    } else {
        None
    }
}

} // verus!
