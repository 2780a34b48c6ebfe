//! Which files of a remote repository a download fetches, and where from.
//!
//! The registries (HuggingFace, ModelScope, Unsloth) list a repository's files; a
//! download keeps the model weights in the requested format (or every recognised
//! format) together with the metadata files (configs, tokenizers, vocabularies).
use vstd::prelude::*;
use crate::error::FuseError;
use crate::model::format_selector::{self, FileCandidate};
use crate::text::{self, has_substring, has_suffix, lowercase};

verus! {

/// What HuggingFace's model API returns for a repository.
#[derive(Debug, Clone)]
pub struct HuggingFaceModelInfo {
    pub model_id: String,
    pub sha: Option<String>,
    pub last_modified: Option<String>,
    pub tags: Option<Vec<String>>,
    pub pipeline_tag: Option<String>,
    pub library_name: Option<String>,
}

/// What ModelScope's model API returns for a repository.
#[derive(Debug, Clone)]
pub struct ModelScopeModelInfo {
    pub model_id: String,
    pub name: Option<String>,
    pub tags: Option<Vec<String>>,
    pub task_name: Option<String>,
}

/// What Unsloth's API returns for a model.
#[derive(Debug, Clone)]
pub struct UnslothModelInfo {
    pub id: String,
    pub name: String,
    pub version: Option<String>,
    pub size: Option<u64>,
    pub tags: Option<Vec<String>>,
    pub architecture: Option<String>,
    pub parameters: Option<usize>,
}

/// A file of a HuggingFace repository.
#[derive(Debug, Clone)]
pub struct HuggingFaceFileInfo {
    pub path: String,
    pub size: u64,
    /// `"file"` or `"directory"`.
    pub file_type: String,
    pub oid: Option<String>,
}

/// A file of a ModelScope repository.
#[derive(Debug, Clone)]
pub struct ModelScopeFileInfo {
    pub name: String,
    pub size: u64,
    /// `"blob"` for a file, `"tree"` for a directory.
    pub file_type: String,
}

/// A file of an Unsloth model.
#[derive(Debug, Clone)]
pub struct UnslothFileInfo {
    pub name: String,
    pub size: u64,
    pub url: String,
}

/// A configuration, tokenizer or vocabulary file, always fetched with the weights.
pub open spec fn metadata_name(n: Seq<char>) -> bool {
    has_suffix(n, ".json"@) || has_suffix(n, ".txt"@) || has_suffix(n, ".model"@)
}

/// Whether a (lowercase) file name is in a (lowercase) format: PyTorch and TensorRT
/// by their extensions, any other format by its name occurring in the file name.
pub open spec fn format_match(n: Seq<char>, fmt: Seq<char>) -> bool {
    if fmt == "pytorch"@ || fmt == "pt"@ {
        has_suffix(n, ".bin"@) || has_suffix(n, ".pt"@) || has_suffix(n, ".pth"@)
    } else if fmt == "tensorrt"@ || fmt == "trt"@ {
        has_suffix(n, ".engine"@) || has_suffix(n, ".trt"@) || has_suffix(n, ".plan"@)
    } else {
        has_substring(n, fmt)
    }
}

/// A (lowercase) file name in one of the recognised model formats, or metadata.
pub open spec fn recognised_name(n: Seq<char>) -> bool {
    ||| has_suffix(n, ".bin"@)
    ||| has_suffix(n, ".safetensors"@)
    ||| has_suffix(n, ".gguf"@)
    ||| has_suffix(n, ".onnx"@)
    ||| has_suffix(n, ".pt"@)
    ||| has_suffix(n, ".engine"@)
    ||| metadata_name(n)
}

/// Whether a download keeps a file of this name: with a format, files in that format
/// and metadata; without one, every recognised file. Names and format compare in
/// lowercase.
pub open spec fn wanted_name(name: Seq<char>, format: Option<Seq<char>>) -> bool {
    let n = lowercase(name);
    match format {
        Some(f) => format_match(n, lowercase(f)) || metadata_name(n),
        None => recognised_name(n),
    }
}

/// With no format asked for, a download keeps exactly the files whose lowercase
/// name ends in one of the model extensions `.bin`, `.safetensors`, `.gguf`,
/// `.onnx`, `.pt`, `.engine`, or the metadata extensions `.json`, `.txt`,
/// `.model`; with a format, metadata files are kept whatever the format.
pub proof fn lemma_wanted_files(name: Seq<char>, format: Option<Seq<char>>)
    ensures
        wanted_name(name, None) <==> ({
            let n = lowercase(name);
            ||| has_suffix(n, ".bin"@)
            ||| has_suffix(n, ".safetensors"@)
            ||| has_suffix(n, ".gguf"@)
            ||| has_suffix(n, ".onnx"@)
            ||| has_suffix(n, ".pt"@)
            ||| has_suffix(n, ".engine"@)
            ||| has_suffix(n, ".json"@)
            ||| has_suffix(n, ".txt"@)
            ||| has_suffix(n, ".model"@)
        }),
        ({
            let n = lowercase(name);
            has_suffix(n, ".json"@) || has_suffix(n, ".txt"@) || has_suffix(n, ".model"@)
        }) ==> wanted_name(name, format),
{
}

pub open spec fn opt_seq(o: Option<String>) -> Option<Seq<char>> {
    match o {
        Some(s) => Some(s@),
        None => None,
    }
}

pub open spec fn opt_view(o: Option<&str>) -> Option<Seq<char>> {
    match o {
        Some(s) => Some(s@),
        None => None,
    }
}

/// Whether a (lowercase) name is metadata.
pub fn is_metadata_file(n: &str) -> (r: bool)
    ensures
        r == metadata_name(n@),
{
    text::ends_with(n, ".json") || text::ends_with(n, ".txt") || text::ends_with(n, ".model")
}

/// Whether a (lowercase) name is in a (lowercase) format.
pub fn matches_format(n: &str, fmt: &str) -> (r: bool)
    ensures
        r == format_match(n@, fmt@),
{
    if text::str_eq(fmt, "pytorch") || text::str_eq(fmt, "pt") {
        text::ends_with(n, ".bin") || text::ends_with(n, ".pt") || text::ends_with(n, ".pth")
    } else if text::str_eq(fmt, "tensorrt") || text::str_eq(fmt, "trt") {
        text::ends_with(n, ".engine") || text::ends_with(n, ".trt") || text::ends_with(n, ".plan")
    } else {
        text::contains(n, fmt)
    }
}

/// Whether a download keeps a file of this name.
pub fn is_wanted_file(name: &str, format: Option<&str>) -> (r: bool)
    ensures
        r == wanted_name(name@, opt_view(format)),
{
    let n = text::to_lowercase(name);
    let n = n.as_str();
    match format {
        Some(f) => {
            let fl = text::to_lowercase(f);
            matches_format(n, fl.as_str()) || is_metadata_file(n)
        },
        None => {
            text::ends_with(n, ".bin") || text::ends_with(n, ".safetensors") || text::ends_with(
                n,
                ".gguf",
            ) || text::ends_with(n, ".onnx") || text::ends_with(n, ".pt") || text::ends_with(
                n,
                ".engine",
            ) || is_metadata_file(n)
        },
    }
}

/// Whether some kept file holds weights rather than metadata.
pub open spec fn has_weights(names: Seq<Seq<char>>) -> bool {
    exists|i: int| 0 <= i < names.len() && !metadata_name(lowercase(#[trigger] names[i]))
}

pub open spec fn hf_names(s: Seq<HuggingFaceFileInfo>) -> Seq<Seq<char>> {
    Seq::new(s.len(), |i: int| s[i].path@)
}

pub open spec fn ms_names(s: Seq<ModelScopeFileInfo>) -> Seq<Seq<char>> {
    Seq::new(s.len(), |i: int| s[i].name@)
}

pub open spec fn hf_kept(f: HuggingFaceFileInfo, format: Option<Seq<char>>) -> bool {
    f.file_type@ == "file"@ && wanted_name(f.path@, format)
}

/// What a ModelScope download keeps: files (not directories) that are the chosen
/// GGUF or metadata when a GGUF was chosen, else as `wanted_name` says.
pub open spec fn ms_kept(
    f: ModelScopeFileInfo,
    format: Option<Seq<char>>,
    winner: Option<Seq<char>>,
) -> bool {
    &&& f.file_type@ == "blob"@
    &&& match winner {
        Some(w) => f.name@ == w || metadata_name(lowercase(f.name@)),
        None => wanted_name(f.name@, format),
    }
}

pub open spec fn us_kept(f: UnslothFileInfo, format: Option<Seq<char>>) -> bool {
    wanted_name(f.name@, format)
}

fn no_files_error() -> (e: FuseError)
    ensures
        e matches FuseError::DownloadError(m) && m@ == "No model files found in repository"@,
{
    FuseError::DownloadError(text::owned("No model files found in repository"))
}

fn no_weights_error(format: &str) -> (e: FuseError)
    ensures
        e matches FuseError::DownloadError(m) && m@
            == "No model weights found matching requested format: "@ + format@,
{
    FuseError::DownloadError(
        text::concat2("No model weights found matching requested format: ", format),
    )
}

/// The files a HuggingFace download fetches, in listing order. No kept file is a
/// download error, and so is a requested format that keeps only metadata.
pub fn select_huggingface_files(files: Vec<HuggingFaceFileInfo>, format: Option<&str>) -> (r:
    Result<Vec<HuggingFaceFileInfo>, FuseError>)
    ensures
        ({
            let kept = files@.filter(|f: HuggingFaceFileInfo| hf_kept(f, opt_view(format)));
            if kept.len() == 0 {
                r matches Err(FuseError::DownloadError(m)) && m@
                    == "No model files found in repository"@
            } else if format is Some && !has_weights(hf_names(kept)) {
                r matches Err(FuseError::DownloadError(m)) && m@
                    == "No model weights found matching requested format: "@ + format->0@
            } else {
                r matches Ok(v) && v@ == kept
            }
        }),
{
    let ghost fmt = opt_view(format);
    let ghost pred = |f: HuggingFaceFileInfo| hf_kept(f, fmt);
    let mut kept: Vec<HuggingFaceFileInfo> = Vec::new();
    let mut weights = false;
    for f in it: files
        invariant
            it.seq() == files@,
            fmt == opt_view(format),
            pred == (|f: HuggingFaceFileInfo| hf_kept(f, fmt)),
            kept@ == it.seq().take(it.index() as int).filter(pred),
            weights == has_weights(hf_names(kept@)),
    {
        let ghost k = it.index() as int;
        let ghost before = kept@;
        proof {
            assert(it.seq().take(k + 1).drop_last() =~= it.seq().take(k));
            reveal_with_fuel(Seq::filter, 1);
        }
        if text::str_eq(f.file_type.as_str(), "file") && is_wanted_file(f.path.as_str(), format) {
            let w = !is_metadata_file(text::to_lowercase(f.path.as_str()).as_str());
            let ghost p = f.path@;
            kept.push(f);
            proof {
                lemma_push_weights(hf_names(before), p, hf_names(kept@));
            }
            weights = weights || w;
        }
    }
    assert(files@.take(files@.len() as int) =~= files@);
    if kept.len() == 0 {
        return Err(no_files_error());
    }
    match format {
        Some(fmt) => {
            if !weights {
                return Err(no_weights_error(fmt));
            }
        },
        None => {},
    }
    Ok(kept)
}

proof fn lemma_push_weights(a: Seq<Seq<char>>, p: Seq<char>, b: Seq<Seq<char>>)
    requires
        b =~= a.push(p),
    ensures
        has_weights(b) == (has_weights(a) || !metadata_name(lowercase(p))),
{
    if has_weights(a) {
        let i = choose|i: int| 0 <= i < a.len() && !metadata_name(lowercase(#[trigger] a[i]));
        assert(b[i] == a[i]);
    }
    if has_weights(b) {
        let i = choose|i: int| 0 <= i < b.len() && !metadata_name(lowercase(#[trigger] b[i]));
        if i < a.len() {
            assert(b[i] == a[i]);
        }
    }
    if !metadata_name(lowercase(p)) {
        assert(b[a.len() as int] == p);
    }
}

/// The (name, size) pairs that GGUF selection chooses among in a ModelScope listing:
/// its files, not its directories, in listing order.
pub open spec fn blob_pairs(s: Seq<ModelScopeFileInfo>) -> Seq<(Seq<char>, u64)>
    decreases s.len(),
{
    if s.len() == 0 {
        Seq::empty()
    } else if s.last().file_type@ == "blob"@ {
        blob_pairs(s.drop_last()).push((s.last().name@, s.last().size))
    } else {
        blob_pairs(s.drop_last())
    }
}

pub open spec fn pairs_of(cs: Seq<FileCandidate>) -> Seq<(Seq<char>, u64)> {
    Seq::new(cs.len(), |i: int| (cs[i].name@, cs[i].size))
}

pub open spec fn pair_lower(ps: Seq<(Seq<char>, u64)>) -> Seq<Seq<char>> {
    Seq::new(ps.len(), |i: int| lowercase(ps[i].0))
}

pub open spec fn pair_sizes(ps: Seq<(Seq<char>, u64)>) -> Seq<u64> {
    Seq::new(ps.len(), |i: int| ps[i].1)
}

/// The RAM budget a ModelScope download selects with: what is available less a
/// 2 GiB reserve, at least zero.
pub open spec fn reserved_budget(available: u64) -> u64 {
    if available >= 2147483648 {
        (available - 2147483648) as u64
    } else {
        0
    }
}

/// The GGUF a ModelScope download picks when no format is requested: the best that
/// fits the RAM left after a 2 GiB reserve (or the VRAM, if larger), among the files;
/// `None` when the listing holds no GGUF file.
pub fn modelscope_smart_winner(
    files: &Vec<ModelScopeFileInfo>,
    available_ram_bytes: u64,
    vram_bytes: Option<u64>,
) -> (r: Option<String>)
    requires
        reserved_budget(available_ram_bytes) * 75 <= u64::MAX,
        vram_bytes matches Some(v) ==> v * 75 <= u64::MAX,
    ensures
        ({
            let ps = blob_pairs(files@);
            let budget = format_selector::usable_budget(reserved_budget(available_ram_bytes), vram_bytes) as u64;
            match r {
                None => forall|j: int|
                    0 <= j < ps.len() ==> !format_selector::is_gguf(#[trigger] pair_lower(ps)[j]),
                Some(n) => exists|i: int|
                    format_selector::winner(pair_lower(ps), pair_sizes(ps), budget, i) && n@
                        == ps[i].0,
            }
        }),
{
    let mut candidates: Vec<FileCandidate> = Vec::new();
    let mut i: usize = 0;
    while i < files.len()
        invariant
            i <= files@.len(),
            pairs_of(candidates@) == blob_pairs(files@.take(i as int)),
        decreases files.len() - i,
    {
        assert(files@.take(i + 1).drop_last() =~= files@.take(i as int));
        let ghost before = candidates@;
        if text::str_eq(files[i].file_type.as_str(), "blob") {
            candidates.push(
                FileCandidate { name: text::owned(files[i].name.as_str()), size: files[i].size },
            );
            assert(pairs_of(candidates@) =~= pairs_of(before).push(
                (files@[i as int].name@, files@[i as int].size),
            ));
        }
        i = i + 1;
    }
    assert(files@.take(files@.len() as int) =~= files@);
    let ram_budget = available_ram_bytes.saturating_sub(2 * 1024 * 1024 * 1024);
    let ghost ps = pairs_of(candidates@);
    assert(pair_lower(ps) =~= format_selector::lowered(candidates@));
    assert(pair_sizes(ps) =~= format_selector::sizes_of(candidates@));
    format_selector::select_best_gguf(candidates.as_slice(), ram_budget, vram_bytes)
}

/// The files a ModelScope download fetches, in listing order: with a chosen GGUF,
/// that file and the metadata; otherwise as the format says. No kept file is a
/// download error, and so is a requested format that keeps only metadata.
pub fn select_modelscope_files(
    files: Vec<ModelScopeFileInfo>,
    format: Option<&str>,
    smart_winner: Option<String>,
) -> (r: Result<Vec<ModelScopeFileInfo>, FuseError>)
    ensures
        ({
            let kept = files@.filter(
                |f: ModelScopeFileInfo| ms_kept(f, opt_view(format), opt_seq(smart_winner)),
            );
            if kept.len() == 0 {
                r matches Err(FuseError::DownloadError(m)) && m@
                    == "No model files found in repository"@
            } else if format is Some && !has_weights(ms_names(kept)) {
                r matches Err(FuseError::DownloadError(m)) && m@
                    == "No model weights found matching requested format: "@ + format->0@
            } else {
                r matches Ok(v) && v@ == kept
            }
        }),
{
    let ghost fmt = opt_view(format);
    let ghost win = opt_seq(smart_winner);
    let ghost pred = |f: ModelScopeFileInfo| ms_kept(f, fmt, win);
    let mut kept: Vec<ModelScopeFileInfo> = Vec::new();
    let mut weights = false;
    for f in it: files
        invariant
            it.seq() == files@,
            fmt == opt_view(format),
            win == opt_seq(smart_winner),
            pred == (|f: ModelScopeFileInfo| ms_kept(f, fmt, win)),
            kept@ == it.seq().take(it.index() as int).filter(pred),
            weights == has_weights(ms_names(kept@)),
    {
        let ghost k = it.index() as int;
        let ghost before = kept@;
        proof {
            assert(it.seq().take(k + 1).drop_last() =~= it.seq().take(k));
            reveal_with_fuel(Seq::filter, 1);
        }
        let lower = text::to_lowercase(f.name.as_str());
        let meta = is_metadata_file(lower.as_str());
        let keep = text::str_eq(f.file_type.as_str(), "blob") && match &smart_winner {
            Some(w) => text::str_eq(f.name.as_str(), w.as_str()) || meta,
            None => is_wanted_file(f.name.as_str(), format),
        };
        if keep {
            let ghost p = f.name@;
            kept.push(f);
            proof {
                lemma_push_weights(ms_names(before), p, ms_names(kept@));
            }
            weights = weights || !meta;
        }
    }
    assert(files@.take(files@.len() as int) =~= files@);
    if kept.len() == 0 {
        return Err(no_files_error());
    }
    match format {
        Some(fmt) => {
            if !weights {
                return Err(no_weights_error(fmt));
            }
        },
        None => {},
    }
    Ok(kept)
}

/// The files an Unsloth download fetches, in listing order; none is a download error.
pub fn select_unsloth_files(files: Vec<UnslothFileInfo>, format: Option<&str>) -> (r: Result<
    Vec<UnslothFileInfo>,
    FuseError,
>)
    ensures
        ({
            let kept = files@.filter(|f: UnslothFileInfo| us_kept(f, opt_view(format)));
            if kept.len() == 0 {
                r matches Err(FuseError::DownloadError(m)) && m@ == "No model files found"@
            } else {
                r matches Ok(v) && v@ == kept
            }
        }),
{
    let ghost fmt = opt_view(format);
    let ghost pred = |f: UnslothFileInfo| us_kept(f, fmt);
    let mut kept: Vec<UnslothFileInfo> = Vec::new();
    for f in it: files
        invariant
            it.seq() == files@,
            fmt == opt_view(format),
            pred == (|f: UnslothFileInfo| us_kept(f, fmt)),
            kept@ == it.seq().take(it.index() as int).filter(pred),
    {
        let ghost k = it.index() as int;
        proof {
            assert(it.seq().take(k + 1).drop_last() =~= it.seq().take(k));
            reveal_with_fuel(Seq::filter, 1);
        }
        if is_wanted_file(f.name.as_str(), format) {
            kept.push(f);
        }
    }
    assert(files@.take(files@.len() as int) =~= files@);
    if kept.len() == 0 {
        return Err(FuseError::DownloadError(text::owned("No model files found")));
    }
    Ok(kept)
}

/// Total size of a ModelScope file list.
pub open spec fn total_size(s: Seq<ModelScopeFileInfo>) -> int
    decreases s.len(),
{
    if s.len() == 0 {
        0
    } else {
        total_size(s.drop_last()) + s.last().size
    }
}

/// The bytes a ModelScope download needs on disk.
pub fn required_bytes(files: &Vec<ModelScopeFileInfo>) -> (r: u64)
    requires
        total_size(files@) <= u64::MAX,
    ensures
        r == total_size(files@),
{
    let mut t: u64 = 0;
    let mut i: usize = 0;
    while i < files.len()
        invariant
            i <= files@.len(),
            t == total_size(files@.take(i as int)),
            total_size(files@) <= u64::MAX,
        decreases files.len() - i,
    {
        assert(files@.take(i + 1).drop_last() =~= files@.take(i as int));
        proof {
            lemma_total_prefix(files@, i + 1);
        }
        t = t + files[i].size;
        i = i + 1;
    }
    assert(files@.take(files@.len() as int) =~= files@);
    t
}

proof fn lemma_total_prefix(s: Seq<ModelScopeFileInfo>, k: int)
    requires
        0 <= k <= s.len(),
    ensures
        total_size(s.take(k)) <= total_size(s),
    decreases s.len(),
{
    if k < s.len() {
        assert(s.drop_last().take(k) =~= s.take(k));
        lemma_total_prefix(s.drop_last(), k);
    } else {
        assert(s.take(k) =~= s);
    }
}

/// A download that needs more bytes than the disk has available is refused.
pub fn check_disk_space(required: u64, available: u64) -> (r: Result<(), FuseError>)
    ensures
        required <= available ==> r is Ok,
        required > available ==> r == Err::<(), FuseError>(
            FuseError::InsufficientDiskSpace { required_bytes: required, available_bytes: available },
        ),
{
    if required > available {
        Err(FuseError::InsufficientDiskSpace { required_bytes: required, available_bytes: available })
    } else {
        Ok(())
    }
}

/// Where HuggingFace serves a file: `{base}/{repo}/resolve/{revision}/{path}`, the
/// revision being `main` unless given.
pub fn huggingface_file_url(base: &str, repository: &str, revision: Option<&str>, path: &str) -> (r:
    String)
    ensures
        r@ == base@ + "/"@ + repository@ + "/resolve/"@ + (match revision {
            Some(v) => v@,
            None => "main"@,
        }) + "/"@ + path@,
{
    let rev = match revision {
        Some(v) => v,
        None => "main",
    };
    let mut r = text::concat4(base, "/", repository, "/resolve/");
    r.append(rev);
    r.append("/");
    r.append(path);
    r
}

/// Where ModelScope serves a file: `{base}/models/{repo}/resolve/{revision}/{name}`,
/// the revision being `master` unless given.
pub fn modelscope_file_url(base: &str, repository: &str, revision: Option<&str>, name: &str) -> (r:
    String)
    ensures
        r@ == base@ + "/models/"@ + repository@ + "/resolve/"@ + (match revision {
            Some(v) => v@,
            None => "master"@,
        }) + "/"@ + name@,
{
    let rev = match revision {
        Some(v) => v,
        None => "master",
    };
    let mut r = text::concat4(base, "/models/", repository, "/resolve/");
    r.append(rev);
    r.append("/");
    r.append(name);
    r
}

/// Where a file download starts.
#[derive(Debug, Clone, Copy, PartialEq, Eq, Structural)]
pub enum DownloadStart {
    /// The file is already complete: nothing is fetched.
    Complete,
    /// Fetch from this byte on (0: the whole file).
    From(u64),
}

/// Where a download of a file of `expected_size` bytes starts (0: size unknown):
/// when resuming over a file of `existing_len` bytes (`None`: no such file), after
/// its bytes, or nowhere when it already has them all; else from the start.
pub fn download_start(resume: bool, existing_len: Option<u64>, expected_size: u64) -> (r: DownloadStart)
    ensures
        r == match (resume, existing_len) {
            (true, Some(n)) => if expected_size > 0 && n >= expected_size {
                DownloadStart::Complete
            } else {
                DownloadStart::From(n)
            },
            _ => DownloadStart::From(0),
        },
{
    match (resume, existing_len) {
        (true, Some(n)) => if expected_size > 0 && n >= expected_size {
            DownloadStart::Complete
        } else {
            DownloadStart::From(n)
        },
        _ => DownloadStart::From(0),
    }
}

/// How the bytes of an accepted download response are written.
#[derive(Debug, Clone, Copy, PartialEq, Eq, Structural)]
pub struct TransferPlan {
    /// Whether the bytes are appended to the file (else it is written anew).
    pub append: bool,
    /// The byte the response starts at.
    pub start_byte: u64,
    /// The size of the whole file, where the response gives its length.
    pub total_bytes: Option<u64>,
}

/// What to do with a download response of HTTP status `status` (whose display text
/// is `status_text`) to a request from `start_byte` on: a status that is not a
/// success is a download error (its message the prefix and the status); a partial
/// response (206) continues the file, any other starts it anew, the server having
/// ignored the range.
pub fn accept_download_response(
    status: u16,
    status_text: &str,
    start_byte: u64,
    content_length: Option<u64>,
    error_prefix: &str,
) -> (r: Result<TransferPlan, FuseError>)
    requires
        content_length matches Some(l) ==> (if status == 206 { start_byte as int } else { 0int }) + l
            <= u64::MAX,
    ensures
        !(200 <= status <= 299) ==> (r matches Err(FuseError::DownloadError(m)) && m@ == error_prefix@
            + status_text@),
        200 <= status <= 299 ==> ({
            let start = if status == 206 { start_byte } else { 0u64 };
            r == Ok::<TransferPlan, FuseError>(
                TransferPlan {
                    append: start > 0,
                    start_byte: start,
                    total_bytes: match content_length {
                        Some(l) => Some((start + l) as u64),
                        None => None,
                    },
                },
            )
        }),
{
    if !(200 <= status && status <= 299) && status != 206 {
        return Err(FuseError::DownloadError(text::concat2(error_prefix, status_text)));
    }
    let is_partial = status == 206;
    let start = if start_byte > 0 && !is_partial { 0 } else { start_byte };
    let total_bytes = match content_length {
        Some(l) => Some(start + l),
        None => None,
    };
    Ok(TransferPlan { append: start > 0 && is_partial, start_byte: start, total_bytes })
}

/// How a client that always keeps what it has writes a response: it continues the
/// file from `start_byte` (appending when there is something to continue), even
/// when the server ignored the range and sent the whole file.
pub open spec fn appending_plan(start_byte: u64, content_length: Option<u64>) -> TransferPlan {
    TransferPlan {
        append: start_byte > 0,
        start_byte,
        total_bytes: match content_length {
            Some(l) => Some((start_byte + l) as u64),
            None => None,
        },
    }
}

fn appending_plan_of(start_byte: u64, content_length: Option<u64>) -> (r: TransferPlan)
    requires
        content_length matches Some(l) ==> start_byte + l <= u64::MAX,
    ensures
        r == appending_plan(start_byte, content_length),
{
    TransferPlan {
        append: start_byte > 0,
        start_byte,
        total_bytes: match content_length {
            Some(l) => Some(start_byte + l),
            None => None,
        },
    }
}

/// What a client that keeps appending (Unsloth's) does with a download response to
/// a request from `start_byte` on: a status that is not a success is a download
/// error (its message the prefix and the status); any success continues the file
/// from `start_byte`.
pub fn accept_appending_response(
    status: u16,
    status_text: &str,
    start_byte: u64,
    content_length: Option<u64>,
    error_prefix: &str,
) -> (r: Result<TransferPlan, FuseError>)
    requires
        content_length matches Some(l) ==> start_byte + l <= u64::MAX,
    ensures
        !(200 <= status <= 299) ==> (r matches Err(FuseError::DownloadError(m)) && m@ == error_prefix@
            + status_text@),
        200 <= status <= 299 ==> r == Ok::<TransferPlan, FuseError>(appending_plan(start_byte, content_length)),
{
    if !(200 <= status && status <= 299) {
        return Err(FuseError::DownloadError(text::concat2(error_prefix, status_text)));
    }
    Ok(appending_plan_of(start_byte, content_length))
}

/// What the Hugging Face registry does with a download response to a request
/// from `start_byte` on: a status that is not a success is an internal error
/// "Download failed with status" and the status; any success continues the
/// partial file from `start_byte`.
pub fn accept_registry_response(
    status: u16,
    status_text: &str,
    start_byte: u64,
    content_length: Option<u64>,
) -> (r: Result<TransferPlan, FuseError>)
    requires
        content_length matches Some(l) ==> start_byte + l <= u64::MAX,
    ensures
        !(200 <= status <= 299) ==> (r matches Err(FuseError::InternalError(m)) && m@
            == "Download failed with status "@ + status_text@),
        200 <= status <= 299 ==> r == Ok::<TransferPlan, FuseError>(appending_plan(start_byte, content_length)),
{
    if !(200 <= status && status <= 299) {
        return Err(FuseError::InternalError(text::concat2("Download failed with status ", status_text)));
    }
    Ok(appending_plan_of(start_byte, content_length))
}

} // verus!
