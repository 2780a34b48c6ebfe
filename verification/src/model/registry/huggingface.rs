//! HuggingFace model registry: listings of a repository's files and where a
//! download of one of them comes from and goes to.
use vstd::prelude::*;
use crate::text::{self, has_suffix, replace_char};

verus! {

/// Options for downloading a file from HuggingFace.
#[derive(Debug, Clone)]
pub struct HfDownloadOptions {
    pub repo_id: String,
    pub filename: Option<String>,
    pub revision: Option<String>,
    pub auth_token: Option<String>,
    pub resume: bool,
}

/// A file of a HuggingFace repository, as the model API lists it.
#[derive(Debug, Clone)]
pub struct HfFileInfo {
    pub filename: String,
    pub size: Option<u64>,
    pub lfs: Option<HfLfsInfo>,
}

/// Git LFS details of a file.
#[derive(Debug, Clone)]
pub struct HfLfsInfo {
    pub sha256: Option<String>,
    pub size: Option<u64>,
}

/// What the model API returns for a repository.
#[derive(Debug, Clone)]
pub struct HfModelInfo {
    pub model_id: String,
    pub siblings: Option<Vec<HfFileInfo>>,
    pub tags: Option<Vec<String>>,
}

pub open spec fn is_gguf_file(f: HfFileInfo) -> bool {
    has_suffix(f.filename@, ".gguf"@)
}

/// The GGUF files of a repository listing, in listing order (none without a listing).
pub fn gguf_files(info: HfModelInfo) -> (r: Vec<HfFileInfo>)
    ensures
        r@ == match info.siblings {
            Some(s) => s@.filter(|f: HfFileInfo| is_gguf_file(f)),
            None => Seq::<HfFileInfo>::empty(),
        },
{
    match info.siblings {
        None => Vec::new(),
        Some(files) => {
            let ghost all = files@;
            let ghost pred = |f: HfFileInfo| is_gguf_file(f);
            let mut kept: Vec<HfFileInfo> = Vec::new();
            for f in it: files
                invariant
                    it.seq() == all,
                    pred == (|f: HfFileInfo| is_gguf_file(f)),
                    kept@ == it.seq().take(it.index() as int).filter(pred),
            {
                let ghost k = it.index() as int;
                proof {
                    assert(it.seq().take(k + 1).drop_last() =~= it.seq().take(k));
                    reveal_with_fuel(Seq::filter, 1);
                }
                if text::ends_with(f.filename.as_str(), ".gguf") {
                    kept.push(f);
                }
            }
            assert(all.take(all.len() as int) =~= all);
            kept
        },
    }
}

/// The file a download fetches: the one named, or `model.gguf`.
pub open spec fn download_filename(opts: HfDownloadOptions) -> Seq<char> {
    match opts.filename {
        Some(f) => f@,
        None => "model.gguf"@,
    }
}

/// The revision a download fetches: the one named, or `main`.
pub open spec fn download_revision(opts: HfDownloadOptions) -> Seq<char> {
    match opts.revision {
        Some(r) => r@,
        None => "main"@,
    }
}

impl HfDownloadOptions {
    /// The file this download fetches.
    pub fn file_name(&self) -> (r: &str)
        ensures
            r@ == download_filename(*self),
    {
        match &self.filename {
            Some(f) => f.as_str(),
            None => "model.gguf",
        }
    }

    /// Where HuggingFace serves the file: `https://huggingface.co/{repo}/resolve/{revision}/{file}`.
    pub fn url(&self) -> (r: String)
        ensures
            r@ == "https://huggingface.co/"@ + self.repo_id@ + "/resolve/"@ + download_revision(
                *self,
            ) + "/"@ + download_filename(*self),
    {
        let rev = match &self.revision {
            Some(v) => v.as_str(),
            None => "main",
        };
        let mut r = text::concat4(
            "https://huggingface.co/",
            self.repo_id.as_str(),
            "/resolve/",
            rev,
        );
        r.append("/");
        r.append(self.file_name());
        r
    }

    /// The name the file takes while it is being downloaded.
    pub fn partial_name(&self) -> (r: String)
        ensures
            r@ == download_filename(*self) + ".partial"@,
    {
        text::concat2(self.file_name(), ".partial")
    }

    /// The `Authorization` header value, when a token is given.
    pub fn authorization(&self) -> (r: Option<String>)
        ensures
            match self.auth_token {
                Some(t) => r matches Some(h) && h@ == "Bearer "@ + t@,
                None => r is None,
            },
    {
        match &self.auth_token {
            Some(t) => Some(text::concat2("Bearer ", t.as_str())),
            None => None,
        }
    }
}

/// The `Range` header that resumes a download after `start` bytes.
pub fn range_header(start: u64) -> (r: String)
    ensures
        r@ == "bytes="@ + text::decimal(start as nat) + "-"@,
{
    let d = text::u64_to_decimal(start);
    text::concat3("bytes=", d.as_str(), "-")
}

/// Name of a repository's cache directory: its id with `/` replaced by `--`.
pub fn cache_dir_name(repo_id: &str) -> (r: String)
    ensures
        r@ == replace_char(repo_id@, '/', "--"@),
{
    text::replace_char_exec(repo_id, '/', "--")
}

/// The HuggingFace registry's local side: where downloaded repositories are kept.
pub struct HfModelRegistry {
    pub cache_dir: String,
}

impl HfModelRegistry {
    pub fn new(cache_dir: &str) -> (r: HfModelRegistry)
        ensures
            r.cache_dir@ == cache_dir@,
    {
        HfModelRegistry { cache_dir: text::owned(cache_dir) }
    }

    /// Where a repository's files are kept: its cache directory name under the
    /// cache directory.
    pub fn model_cache_dir(&self, repo_id: &str) -> (r: String)
        ensures
            r@ == text::joined(self.cache_dir@, replace_char(repo_id@, '/', "--"@)),
    {
        let name = cache_dir_name(repo_id);
        text::join_path(self.cache_dir.as_str(), name.as_str())
    }
}

} // verus!
