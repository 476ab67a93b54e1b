use vstd::prelude::*;

use crate::config::{ModelPaths, ModelPathsView};
use crate::paths::{extension, file_name, path_extension, paths_equal, same_path};
use crate::text::{
    chars_of, ends_with, ends_with_vec, eq_str, free_of, lemma_split_append_free, lemma_split_len, lemma_split_push_sep,
    push_str, split_by, starts_with, starts_with_vec, string_of, CharClass,
};

verus! {

/// A path with a relative component appended, as `Path::join` does on Unix:
/// an absolute component replaces the path, an empty path gives the
/// component, otherwise a `/` separates them unless the path ends with one.
pub open spec fn join_path(base: Seq<char>, name: Seq<char>) -> Seq<char> {
    if starts_with(name, "/"@) {
        name
    } else if base.len() == 0 {
        name
    } else if ends_with(base, "/"@) {
        base + name
    } else {
        base + "/"@ + name
    }
}

/// Joins a path and a component (Unix rules).
pub fn path_join(base: &str, name: &str) -> (r: String)
    ensures
        r@ == join_path(base@, name@),
{
    let b = chars_of(base);
    let n = chars_of(name);
    let slash = chars_of("/");
    if starts_with_vec(&n, &slash) || b.len() == 0 {
        return name.to_owned();
    }
    let mut out = b;
    if !ends_with_vec(&out, &slash) {
        push_str(&mut out, "/");
    }
    crate::text::push_all(&mut out, &n);
    string_of(&out)
}

/// Joining a plain name (one component, not `.` or `..`) onto a path and
/// taking the file name gives the name back.
pub proof fn lemma_file_name_of_join(base: Seq<char>, name: Seq<char>)
    requires
        name.len() > 0,
        free_of(name, CharClass::Is('/')),
        name != "."@,
        name != ".."@,
    ensures
        file_name(join_path(base, name)) == Some(name),
{
    reveal_strlit("/");
    let k = CharClass::Is('/');
    assert(!starts_with(name, "/"@)) by {
        assert(name[0] != '/');
        assert(name.subrange(0, 1)[0] == name[0]);
    }
    let j = join_path(base, name);
    let prefix = if base.len() == 0 {
        base
    } else if ends_with(base, "/"@) {
        base
    } else {
        base.push('/')
    };
    assert(j == prefix + name) by {
        if base.len() != 0 && !ends_with(base, "/"@) {
            assert(base + "/"@ + name =~= base.push('/') + name);
        }
    }
    lemma_split_len(prefix, k);
    lemma_split_append_free(prefix, name, k);
    if prefix.len() == 0 {
        assert(split_by(prefix, k) =~= seq![Seq::<char>::empty()]);
    } else {
        assert(prefix.last() == '/') by {
            if ends_with(base, "/"@) {
                assert(base.subrange(base.len() - 1, base.len() as int)[0] == base.last());
            }
        }
        assert(prefix.drop_last().push('/') =~= prefix);
        lemma_split_push_sep(prefix.drop_last(), '/', k);
    }
    assert(split_by(prefix, k).last() + name =~= name);
    let ps = split_by(j, k);
    assert(ps.last() == name);
}

/// The main file of a model by engine name: the path itself for Whisper,
/// a key file inside the directory for the directory engines, none for
/// Vosk and unknown engines.
pub open spec fn spec_model_main_file(transcriber_type: Seq<char>, path: Seq<char>) -> Option<Seq<char>> {
    if transcriber_type == "whisper"@ {
        Some(path)
    } else if transcriber_type == "gigaam"@ {
        Some(join_path(path, "v3_e2e_ctc.int8.onnx"@))
    } else if transcriber_type == "gigaam-rnnt"@ {
        Some(join_path(path, "v3_e2e_rnnt_encoder.int8.onnx"@))
    } else if transcriber_type == "qwen3asr"@ {
        Some(join_path(path, "tokenizer.json"@))
    } else {
        None
    }
}

/// The main file of a model, whose size is validated.
pub fn model_main_file(transcriber_type: &str, path: &str) -> (r: Option<String>)
    ensures
        crate::updater::oview(r) == spec_model_main_file(transcriber_type@, path@),
{
    let t = chars_of(transcriber_type);
    if eq_str(&t, "whisper") {
        Some(path.to_owned())
    } else if eq_str(&t, "gigaam") {
        Some(path_join(path, "v3_e2e_ctc.int8.onnx"))
    } else if eq_str(&t, "gigaam-rnnt") {
        Some(path_join(path, "v3_e2e_rnnt_encoder.int8.onnx"))
    } else if eq_str(&t, "qwen3asr") {
        Some(path_join(path, "tokenizer.json"))
    } else {
        None
    }
}

/// The other files a model needs, by engine: `all` of them, or (Vosk) at
/// least one of them.
#[derive(Debug, Clone)]
pub struct ExtraFiles {
    pub files: Vec<&'static str>,
    pub any_suffices: bool,
}

/// The extra files required for an engine, relative to the model directory.
pub open spec fn spec_extra_files(transcriber_type: Seq<char>) -> (Seq<Seq<char>>, bool) {
    if transcriber_type == "gigaam"@ {
        (seq!["v3_e2e_ctc_vocab.txt"@], false)
    } else if transcriber_type == "gigaam-rnnt"@ {
        (
            seq![
                "v3_e2e_rnnt_decoder.int8.onnx"@,
                "v3_e2e_rnnt_joint.int8.onnx"@,
                "v3_e2e_rnnt_vocab.txt"@,
            ],
            false,
        )
    } else if transcriber_type == "qwen3asr"@ {
        (seq!["onnx_models/encoder_conv.onnx"@], false)
    } else if transcriber_type == "vosk"@ {
        (seq!["conf"@, "am"@, "graph"@], true)
    } else {
        (seq![], false)
    }
}

/// Views of a list of literals.
pub open spec fn lviews(v: Seq<&'static str>) -> Seq<Seq<char>> {
    v.map_values(|x: &'static str| x@)
}

/// The extra files a model of this engine needs.
pub fn model_extra_files(transcriber_type: &str) -> (r: ExtraFiles)
    ensures
        (lviews(r.files@), r.any_suffices) == spec_extra_files(transcriber_type@),
{
    let t = chars_of(transcriber_type);
    let mut files: Vec<&'static str> = Vec::new();
    let mut any = false;
    if eq_str(&t, "gigaam") {
        files.push("v3_e2e_ctc_vocab.txt");
    } else if eq_str(&t, "gigaam-rnnt") {
        files.push("v3_e2e_rnnt_decoder.int8.onnx");
        files.push("v3_e2e_rnnt_joint.int8.onnx");
        files.push("v3_e2e_rnnt_vocab.txt");
    } else if eq_str(&t, "qwen3asr") {
        files.push("onnx_models/encoder_conv.onnx");
    } else if eq_str(&t, "vosk") {
        files.push("conf");
        files.push("am");
        files.push("graph");
        any = true;
    }
    assert(lviews(files@) =~= spec_extra_files(transcriber_type@).0);
    ExtraFiles { files, any_suffices: any }
}

/// Whether the extra files are there, given which of them exist (in the
/// order of `model_extra_files`): all of them, or one for Vosk; an engine
/// without extra files needs nothing.
pub fn extra_files_present(extra: &ExtraFiles, exists: &Vec<bool>) -> (r: bool)
    requires
        exists@.len() == extra.files@.len(),
    ensures
        extra.files@.len() == 0 ==> r,
        extra.files@.len() > 0 && extra.any_suffices ==> (r <==> exists@.contains(true)),
        extra.files@.len() > 0 && !extra.any_suffices ==> (r <==> !exists@.contains(false)),
{
    if exists.len() == 0 {
        return true;
    }
    let mut i: usize = 0;
    while i < exists.len()
        invariant
            i <= exists.len(),
            exists@.len() == extra.files@.len(),
            exists@.len() > 0,
            forall|j: int| 0 <= j < i ==> exists@[j] == !extra.any_suffices,
        decreases exists.len() - i,
    {
        if exists[i] == extra.any_suffices {
            assert(exists@[i as int] == extra.any_suffices);
            return extra.any_suffices;
        }
        i = i + 1;
    }
    proof {
        if exists@.contains(extra.any_suffices) {
            let k = choose|k: int| 0 <= k < exists@.len() && exists@[k] == extra.any_suffices;
            assert(exists@[k] == !extra.any_suffices);
        }
    }
    !extra.any_suffices
}

/// Whether a model is installed, from what was found on disk: the path
/// exists, its main file (if it has one) exists with at least `min_size`
/// bytes when a minimum is given, and its extra files are present.
pub fn model_installed_from(
    path_exists: bool,
    has_main_file: bool,
    main_exists: bool,
    main_size: Option<u64>,
    min_size: Option<u64>,
    extra_present: bool,
) -> (r: bool)
    ensures
        r == (path_exists && (!has_main_file || (main_exists && match min_size {
            None => true,
            Some(min) => match main_size {
                Some(sz) => sz >= min,
                None => false,
            },
        })) && extra_present),
{
    if !path_exists {
        return false;
    }
    if has_main_file {
        if !main_exists {
            return false;
        }
        if let Some(min) = min_size {
            match main_size {
                Some(sz) => {
                    if sz < min {
                        return false;
                    }
                },
                None => {
                    return false;
                },
            }
        }
    }
    extra_present
}

/// The path recorded as the installed model: the file itself for Whisper,
/// the model directory for the other engines.
pub fn model_install_path(transcriber_type: &str, main_dest: &str, dest_path: &str) -> (r: String)
    ensures
        transcriber_type@ == "whisper"@ ==> r@ == main_dest@,
        transcriber_type@ != "whisper"@ ==> r@ == dest_path@,
{
    let t = chars_of(transcriber_type);
    if eq_str(&t, "whisper") {
        main_dest.to_owned()
    } else {
        dest_path.to_owned()
    }
}

/// The configured path an engine name reads: Vosk and unknown names read
/// the Vosk path.
pub open spec fn read_path(c: ModelPathsView, t: Seq<char>) -> Seq<char> {
    if t == "gigaam"@ {
        c.gigaam_model_path
    } else if t == "gigaam-rnnt"@ {
        c.gigaam_rnnt_model_path
    } else if t == "qwen3asr"@ {
        c.qwen3asr_model_path
    } else {
        c.model_path
    }
}

/// Where a model's file is looked for: a Whisper model always in the base
/// directory under its own file name (the Whisper models share one
/// configured path); another engine's model at its configured path, or in
/// the base directory when that path is unset.
pub open spec fn spec_resolve_model_file_path(
    t: Seq<char>,
    default_filename: Seq<char>,
    c: ModelPathsView,
) -> Seq<char> {
    if t == "whisper"@ || read_path(c, t).len() == 0 {
        join_path(c.models_base_dir, default_filename)
    } else {
        read_path(c, t)
    }
}

/// The engine names with a path of their own in the configuration.
pub open spec fn has_path_field(t: Seq<char>) -> bool {
    t == "vosk"@ || t == "whisper"@ || t == "gigaam"@ || t == "gigaam-rnnt"@ || t == "qwen3asr"@
}

/// The engine's own configured path.
pub open spec fn own_path(c: ModelPathsView, t: Seq<char>) -> Seq<char> {
    if t == "whisper"@ {
        c.whisper_model_path
    } else {
        read_path(c, t)
    }
}

/// The configuration with the engine's own path set to `p` (unchanged for
/// a name without a path of its own).
pub open spec fn with_own_path(c: ModelPathsView, t: Seq<char>, p: Seq<char>) -> ModelPathsView {
    if t == "vosk"@ {
        ModelPathsView { model_path: p, ..c }
    } else if t == "whisper"@ {
        ModelPathsView { whisper_model_path: p, ..c }
    } else if t == "gigaam"@ {
        ModelPathsView { gigaam_model_path: p, ..c }
    } else if t == "gigaam-rnnt"@ {
        ModelPathsView { gigaam_rnnt_model_path: p, ..c }
    } else if t == "qwen3asr"@ {
        ModelPathsView { qwen3asr_model_path: p, ..c }
    } else {
        c
    }
}

/// Recording a downloaded model's path and then deleting that model leaves
/// the engine's field empty, the other fields as they were before the
/// download.
pub proof fn lemma_clear_undoes_apply(c: ModelPathsView, t: Seq<char>, p: Seq<char>)
    requires
        has_path_field(t),
    ensures
        same_path(own_path(with_own_path(c, t, p), t), p),
        with_own_path(with_own_path(c, t, p), t, Seq::empty()) == with_own_path(c, t, Seq::empty()),
{
    reveal_strlit("vosk");
    reveal_strlit("whisper");
    reveal_strlit("gigaam");
    reveal_strlit("gigaam-rnnt");
    reveal_strlit("qwen3asr");
    assert("vosk"@.len() == 4 && "whisper"@.len() == 7 && "gigaam"@.len() == 6);
    assert("gigaam-rnnt"@.len() == 11 && "qwen3asr"@.len() == 8);
    crate::paths::lemma_same_path_equivalence(p, p, p);
}

/// The path at which a model's presence is checked and shown.
pub fn resolve_model_file_path(transcriber_type: &str, default_filename: &str, config: &ModelPaths) -> (r:
    String)
    ensures
        r@ == spec_resolve_model_file_path(transcriber_type@, default_filename@, config@),
{
    let t = chars_of(transcriber_type);
    if eq_str(&t, "whisper") {
        return path_join(config.models_base_dir.as_str(), default_filename);
    }
    let configured = if eq_str(&t, "gigaam") {
        &config.gigaam_model_path
    } else if eq_str(&t, "gigaam-rnnt") {
        &config.gigaam_rnnt_model_path
    } else if eq_str(&t, "qwen3asr") {
        &config.qwen3asr_model_path
    } else {
        &config.model_path
    };
    let cv = chars_of(configured.as_str());
    if cv.len() == 0 {
        path_join(config.models_base_dir.as_str(), default_filename)
    } else {
        configured.clone()
    }
}

/// Records a downloaded model's path in the engine's own field. Returns
/// whether the engine name has one (the configuration is then saved);
/// nothing changes for another name.
pub fn apply_model_config_path(config: &mut ModelPaths, transcriber_type: &str, path: String) -> (r:
    bool)
    ensures
        r == has_path_field(transcriber_type@),
        final(config)@ == with_own_path(old(config)@, transcriber_type@, path@),
{
    let t = chars_of(transcriber_type);
    if eq_str(&t, "vosk") {
        config.model_path = path;
    } else if eq_str(&t, "whisper") {
        config.whisper_model_path = path;
    } else if eq_str(&t, "gigaam") {
        config.gigaam_model_path = path;
    } else if eq_str(&t, "gigaam-rnnt") {
        config.gigaam_rnnt_model_path = path;
    } else if eq_str(&t, "qwen3asr") {
        config.qwen3asr_model_path = path;
    } else {
        return false;
    }
    true
}

/// Clears the engine's own path when it is the deleted model's path (as
/// paths compare), so that deleting one of several models of an engine
/// keeps the path of the one that stays. Returns whether it was cleared.
pub fn clear_model_config_path_if_matches(
    config: &mut ModelPaths,
    transcriber_type: &str,
    deleted_path: &str,
) -> (r: bool)
    ensures
        r == (has_path_field(transcriber_type@) && same_path(
            own_path(old(config)@, transcriber_type@),
            deleted_path@,
        )),
        r ==> final(config)@ == with_own_path(old(config)@, transcriber_type@, Seq::empty()),
        !r ==> final(config)@ == old(config)@,
{
    proof {
        reveal_strlit("vosk");
        reveal_strlit("whisper");
        reveal_strlit("gigaam");
        reveal_strlit("gigaam-rnnt");
        reveal_strlit("qwen3asr");
        // Distinct lengths tell the engine names apart.
        assert("vosk"@.len() == 4 && "whisper"@.len() == 7 && "gigaam"@.len() == 6);
        assert("gigaam-rnnt"@.len() == 11 && "qwen3asr"@.len() == 8);
    }
    let t = chars_of(transcriber_type);
    if eq_str(&t, "vosk") {
        if paths_equal(config.model_path.as_str(), deleted_path) {
            config.model_path = String::new();
            return true;
        }
    } else if eq_str(&t, "whisper") {
        if paths_equal(config.whisper_model_path.as_str(), deleted_path) {
            config.whisper_model_path = String::new();
            return true;
        }
    } else if eq_str(&t, "gigaam") {
        if paths_equal(config.gigaam_model_path.as_str(), deleted_path) {
            config.gigaam_model_path = String::new();
            return true;
        }
    } else if eq_str(&t, "gigaam-rnnt") {
        if paths_equal(config.gigaam_rnnt_model_path.as_str(), deleted_path) {
            config.gigaam_rnnt_model_path = String::new();
            return true;
        }
    } else if eq_str(&t, "qwen3asr") {
        if paths_equal(config.qwen3asr_model_path.as_str(), deleted_path) {
            config.qwen3asr_model_path = String::new();
            return true;
        }
    }
    false
}

/// Where a model's main file is downloaded: the configured path itself for
/// Whisper (a file); for the directory engines a file inside the directory
/// named by the last segment of the download address.
pub fn main_download_dest(transcriber_type: &str, path: &str, download_url: &str) -> (r: String)
    ensures
        r@ == if transcriber_type@ == "whisper"@ {
            path@
        } else {
            join_path(path@, url_file_name(download_url@))
        },
{
    let t = chars_of(transcriber_type);
    if eq_str(&t, "whisper") {
        path.to_owned()
    } else {
        let name = download_file_name(download_url);
        path_join(path, name.as_str())
    }
}

/// Whether the main file is an archive to unpack after the download.
pub open spec fn is_zip(main_dest: Seq<char>) -> bool {
    extension(main_dest) == Some("zip"@)
}

/// Whether the downloaded file is an archive (`.zip`).
pub fn main_file_is_zip(main_dest: &str) -> (r: bool)
    ensures
        r == is_zip(main_dest@),
{
    match path_extension(main_dest) {
        Some(e) => {
            let v = chars_of(e.as_str());
            eq_str(&v, "zip")
        },
        None => false,
    }
}

/// Whether an archive already on disk is unpacked without downloading it
/// again: the main file is a `.zip`, a minimum size is known, and the file
/// on disk (its length when it is a regular file) reaches it.
pub fn zip_already_downloaded(main_dest: &str, min_size: Option<u64>, file_len: Option<u64>) -> (r: bool)
    ensures
        r == (is_zip(main_dest@) && match (min_size, file_len) {
            (Some(min), Some(len)) => len >= min,
            _ => false,
        }),
{
    if !main_file_is_zip(main_dest) {
        return false;
    }
    match (min_size, file_len) {
        (Some(min), Some(len)) => len >= min,
        _ => false,
    }
}

/// Whether a main file on disk is damaged and removed before the download:
/// a minimum size is known and the file (a regular file) is smaller.
pub fn main_file_damaged(min_size: Option<u64>, file_len: Option<u64>) -> (r: bool)
    ensures
        r == match (min_size, file_len) {
            (Some(min), Some(len)) => len < min,
            _ => false,
        },
{
    match (min_size, file_len) {
        (Some(min), Some(len)) => len < min,
        _ => false,
    }
}

/// Progress of one file download.
#[derive(Debug, Clone, Copy, PartialEq, Eq, Structural)]
pub struct DownloadProgress {
    /// Bytes received so far.
    pub downloaded: u64,
    /// The announced size (zero when unknown).
    pub total: u64,
    /// The percentage last reported.
    pub last_percent: u64,
}

/// The percentage of a download: zero while the size is unknown.
pub open spec fn percent_of(downloaded: u64, total: u64) -> u64 {
    if total == 0 {
        0
    } else {
        ((downloaded * 100) / (total as int)) as u64
    }
}

impl DownloadProgress {
    /// A download of `total` announced bytes (zero when unknown).
    pub fn new(total: u64) -> (r: DownloadProgress)
        ensures
            r == (DownloadProgress { downloaded: 0, total, last_percent: 0 }),
    {
        DownloadProgress { downloaded: 0, total, last_percent: 0 }
    }

    /// Counts a received chunk of `len` bytes; returns the new percentage
    /// when it differs from the one last reported.
    pub fn on_chunk(&mut self, len: u64) -> (r: Option<u64>)
        requires
            (old(self).downloaded + len) * 100 <= u64::MAX,
        ensures
            final(self).downloaded == old(self).downloaded + len,
            final(self).total == old(self).total,
            final(self).last_percent == percent_of(final(self).downloaded, final(self).total),
            r == (if percent_of(final(self).downloaded, final(self).total) != old(self).last_percent {
                Some(percent_of(final(self).downloaded, final(self).total))
            } else {
                None
            }),
    {
        self.downloaded = self.downloaded + len;
        let pct = if self.total == 0 {
            0
        } else {
            (self.downloaded * 100) / self.total
        };
        if pct != self.last_percent {
            self.last_percent = pct;
            Some(pct)
        } else {
            None
        }
    }
}

/// A received size within the announced one is at most 100 percent.
pub proof fn lemma_percent_at_most_100(downloaded: u64, total: u64)
    requires
        downloaded <= total,
        downloaded * 100 <= u64::MAX,
    ensures
        percent_of(downloaded, total) <= 100,
{
    if total > 0 {
        assert((downloaded * 100) / (total as int) <= 100) by (nonlinear_arith)
            requires
                downloaded <= total,
                total > 0,
        ;
    }
}

/// The last segment of a download address (after its last `/`).
pub open spec fn url_file_name(url: Seq<char>) -> Seq<char> {
    match crate::text::last_index_of(url, '/') {
        Some(i) => url.subrange(i + 1, url.len() as int),
        None => url,
    }
}

/// The file name a download is saved under: the last segment of its
/// address.
pub fn download_file_name(url: &str) -> (r: String)
    ensures
        r@ == url_file_name(url@),
{
    let u = chars_of(url);
    match crate::text::last_index_of_vec(&u, '/') {
        Some(i) => {
            let tail = crate::text::slice_vec(&u, i + 1, u.len());
            string_of(&tail)
        },
        None => url.to_owned(),
    }
}

/// The temporary name a download is written to before it is renamed.
pub fn partial_path(dest: &str) -> (r: String)
    ensures
        r@ == dest@ + ".partial"@,
{
    let mut r = dest.to_owned();
    r.append(".partial");
    r
}

/// The check of a finished download against its expected minimum size: an
/// error naming both sizes when fewer bytes arrived.
pub fn check_downloaded_size(downloaded: u64, file_name: &str, min_size: Option<u64>) -> (r: Result<
    (),
    String,
>)
    ensures
        r is Ok <==> match min_size {
            Some(min) => downloaded >= min,
            None => true,
        },
        r matches Err(m) ==> m@ == "Скачано "@ + crate::history::dec(downloaded as nat) + " байт для "@
            + file_name@ + ", ожидалось не меньше "@ + crate::history::dec(min_size->0 as nat)
            + " (источник вернул обрезанный ответ)"@,
{
    match min_size {
        Some(min) => {
            if downloaded < min {
                let mut m = chars_of("Скачано ");
                crate::text::push_all(&mut m, &crate::history::dec_text(downloaded));
                crate::text::push_str(&mut m, " байт для ");
                crate::text::push_str(&mut m, file_name);
                crate::text::push_str(&mut m, ", ожидалось не меньше ");
                crate::text::push_all(&mut m, &crate::history::dec_text(min));
                crate::text::push_str(&mut m, " (источник вернул обрезанный ответ)");
                Err(string_of(&m))
            } else {
                Ok(())
            }
        },
        None => Ok(()),
    }
}

/// One step of installing a model's files.
#[derive(Debug, Clone)]
pub enum DownloadStep {
    /// Delete a damaged main file before it is fetched again.
    Remove { path: String },
    /// Download `url` to `dest` as file `index` (from 0) of `total`,
    /// refusing a result under `min_size` bytes when one is given.
    Fetch { url: String, dest: String, index: usize, total: usize, min_size: Option<u64> },
    /// Unpack the archive into the model directory.
    Unzip { archive: String, dir: String },
}

/// Whether `s` deletes the file at `path`.
pub open spec fn is_remove(s: DownloadStep, path: Seq<char>) -> bool {
    s matches DownloadStep::Remove { path: p } && p@ == path
}

/// Whether `s` fetches `url` into `dest` as file `index` of `total`.
pub open spec fn is_fetch(
    s: DownloadStep,
    url: Seq<char>,
    dest: Seq<char>,
    index: int,
    total: int,
    min_size: Option<u64>,
) -> bool {
    s matches DownloadStep::Fetch { url: u, dest: d, index: i, total: t, min_size: m } && u@ == url && d@ == dest
        && i == index && t == total && m == min_size
}

/// Whether `s` unpacks `archive` into `dir`.
pub open spec fn is_unzip(s: DownloadStep, archive: Seq<char>, dir: Seq<char>) -> bool {
    s matches DownloadStep::Unzip { archive: a, dir: d } && a@ == archive && d@ == dir
}

/// Whether the main file on disk (of length `main_len`) is damaged.
pub open spec fn damaged(min_size: Option<u64>, main_len: Option<u64>) -> bool {
    match (min_size, main_len) {
        (Some(min), Some(len)) => len < min,
        _ => false,
    }
}

/// Whether an archive on disk (of length `main_len`) is complete already.
pub open spec fn archive_complete(main_dest: Seq<char>, min_size: Option<u64>, main_len: Option<u64>) -> bool {
    is_zip(main_dest) && match (min_size, main_len) {
        (Some(min), Some(len)) => len >= min,
        _ => false,
    }
}

/// The steps that come before the extra files, in order: removing a damaged
/// main file (when `clean_damaged`), fetching the main file unless a
/// complete archive is there, unpacking it when it is an archive.
pub open spec fn plan_head_len(main_dest: Seq<char>, min_size: Option<u64>, main_len: Option<u64>, clean_damaged: bool) -> int {
    (if clean_damaged && damaged(min_size, main_len) { 1int } else { 0int }) + (if archive_complete(
        main_dest,
        min_size,
        main_len,
    ) {
        0int
    } else {
        1int
    }) + (if is_zip(main_dest) { 1int } else { 0int })
}

/// The plan of a model installation: the main file first (after deleting
/// it if it is damaged and `clean_damaged`), skipped when a complete
/// archive is already on disk; an archive is unpacked into `dir`; then each
/// extra file (address, path relative to `dir`) in order, as files 1, 2, ...
/// of `1 + extras.len()`, without a size check.
pub open spec fn is_download_plan(
    r: Seq<DownloadStep>,
    main_url: Seq<char>,
    main_dest: Seq<char>,
    dir: Seq<char>,
    extras: Seq<(String, String)>,
    min_size: Option<u64>,
    main_len: Option<u64>,
    clean_damaged: bool,
) -> bool {
    let total: int = extras.len() as int + 1;
    let rm = clean_damaged && damaged(min_size, main_len);
    let i1: int = if rm { 1 } else { 0 };
    let fetch = !archive_complete(main_dest, min_size, main_len);
    let i2: int = i1 + if fetch { 1int } else { 0int };
    let h = plan_head_len(main_dest, min_size, main_len, clean_damaged);
    &&& r.len() == h + extras.len()
    &&& rm ==> is_remove(r[0], main_dest)
    &&& fetch ==> is_fetch(r[i1], main_url, main_dest, 0, total, min_size)
    &&& is_zip(main_dest) ==> is_unzip(r[i2], main_dest, dir)
    &&& forall|k: int|
        0 <= k < extras.len() ==> #[trigger] is_fetch(
            r[h + k],
            extras[k].0@,
            join_path(dir, extras[k].1@),
            k + 1,
            total,
            None,
        )
}

fn download_plan(
    main_url: &str,
    main_dest: &str,
    dir: &str,
    extras: &Vec<(String, String)>,
    min_size: Option<u64>,
    main_len: Option<u64>,
    clean_damaged: bool,
) -> (r: Vec<DownloadStep>)
    requires
        extras@.len() < usize::MAX,
    ensures
        is_download_plan(r@, main_url@, main_dest@, dir@, extras@, min_size, main_len, clean_damaged),
{
    let total = extras.len() + 1;
    let mut r: Vec<DownloadStep> = Vec::new();
    if clean_damaged && main_file_damaged(min_size, main_len) {
        r.push(DownloadStep::Remove { path: main_dest.to_owned() });
    }
    let i1 = r.len();
    if !zip_already_downloaded(main_dest, min_size, main_len) {
        r.push(
            DownloadStep::Fetch {
                url: main_url.to_owned(),
                dest: main_dest.to_owned(),
                index: 0,
                total,
                min_size,
            },
        );
    }
    let i2 = r.len();
    if main_file_is_zip(main_dest) {
        r.push(DownloadStep::Unzip { archive: main_dest.to_owned(), dir: dir.to_owned() });
    }
    let h = r.len();
    let ghost head = r@;
    assert(h == plan_head_len(main_dest@, min_size, main_len, clean_damaged));
    assert(i1 == (if clean_damaged && damaged(min_size, main_len) { 1int } else { 0int }));
    assert(i2 == i1 + if archive_complete(main_dest@, min_size, main_len) { 0int } else { 1int });
    let ghost total_i: int = total as int;
    assert(clean_damaged && damaged(min_size, main_len) ==> is_remove(head[0], main_dest@));
    assert(!archive_complete(main_dest@, min_size, main_len) ==> is_fetch(
        head[i1 as int],
        main_url@,
        main_dest@,
        0,
        total_i,
        min_size,
    ));
    assert(is_zip(main_dest@) ==> is_unzip(head[i2 as int], main_dest@, dir@));
    let mut k: usize = 0;
    while k < extras.len()
        invariant
            k <= extras.len(),
            total == extras.len() + 1,
            r@.len() == h + k,
            head.len() == h,
            forall|j: int| 0 <= j < h ==> r@[j] == head[j],
            forall|j: int|
                0 <= j < k ==> #[trigger] is_fetch(
                    r@[h + j],
                    extras@[j].0@,
                    join_path(dir@, extras@[j].1@),
                    j + 1,
                    total as int,
                    None,
                ),
        decreases extras.len() - k,
    {
        let dest = path_join(dir, extras[k].1.as_str());
        r.push(
            DownloadStep::Fetch {
                url: extras[k].0.clone(),
                dest,
                index: k + 1,
                total,
                min_size: None,
            },
        );
        k = k + 1;
    }
    r
}

/// The steps of installing a model from the models page: none when it is
/// installed already.
pub fn model_download_plan(
    installed: bool,
    main_url: &str,
    main_dest: &str,
    dir: &str,
    extras: &Vec<(String, String)>,
    min_size: Option<u64>,
    main_len: Option<u64>,
) -> (r: Vec<DownloadStep>)
    requires
        extras@.len() < usize::MAX,
    ensures
        installed ==> r@.len() == 0,
        !installed ==> is_download_plan(r@, main_url@, main_dest@, dir@, extras@, min_size, main_len, false),
{
    if installed {
        Vec::new()
    } else {
        download_plan(main_url, main_dest, dir, extras, min_size, main_len, false)
    }
}

/// The steps of making sure the active engine's model is on disk: none when
/// it is installed; an error when the registry has no model for the engine
/// (`main_url` is `None`); otherwise the plan, removing a damaged main file
/// first.
pub fn active_model_plan(
    transcriber_type: &str,
    installed: bool,
    main_url: Option<&str>,
    main_dest: &str,
    dir: &str,
    extras: &Vec<(String, String)>,
    min_size: Option<u64>,
    main_len: Option<u64>,
) -> (r: Result<Vec<DownloadStep>, String>)
    requires
        extras@.len() < usize::MAX,
    ensures
        installed ==> (r matches Ok(v) && v@.len() == 0),
        !installed && main_url is None ==> (r matches Err(m) && m@ == "В реестре нет модели для движка '"@
            + transcriber_type@ + "'"@),
        main_url matches Some(u) ==> (!installed ==> (r matches Ok(v) && is_download_plan(
            v@,
            u@,
            main_dest@,
            dir@,
            extras@,
            min_size,
            main_len,
            true,
        ))),
{
    if installed {
        return Ok(Vec::new());
    }
    match main_url {
        None => {
            let mut m = "В реестре нет модели для движка '".to_owned();
            m.append(transcriber_type);
            m.append("'");
            Err(m)
        },
        Some(u) => Ok(download_plan(u, main_dest, dir, extras, min_size, main_len, true)),
    }
}

} // verus!
