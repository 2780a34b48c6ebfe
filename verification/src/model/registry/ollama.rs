//! Ollama model references (`model:tag`, such as `llama3.2:7b` or `mistral:latest`)
//! and manifests.
use vstd::prelude::*;
use crate::text::{self, first_index, has_substring, replace_char};

verus! {

/// Base URL of Ollama's library registry.
pub const OLLAMA_REGISTRY_BASE: &'static str = "https://registry.ollama.ai/v2/library";

/// Parsed Ollama model reference.
#[derive(Debug, Clone)]
pub struct OllamaModelRef {
    pub name: String,
    pub tag: String,
}

/// The name and tag a reference parses to: split at the first `:`; without one, the
/// whole text is the name and the tag is `latest`.
pub open spec fn parse_ref(s: Seq<char>) -> (Seq<char>, Seq<char>) {
    match first_index(s, ':') {
        Some(i) => (s.take(i), s.skip(i + 1)),
        None => (s, "latest"@),
    }
}

impl OllamaModelRef {
    /// Parses a reference like `"llama3.2:7b"` or `"mistral"`.
    pub fn parse(model_ref: &str) -> (r: OllamaModelRef)
        ensures
            (r.name@, r.tag@) == parse_ref(model_ref@),
    {
        let v = text::chars_of(model_ref);
        match text::find_char(&v, ':') {
            Some(i) => {
                let n = v.len();
                assert(i < n);
                OllamaModelRef {
                    name: text::string_of_range(&v, 0, i),
                    tag: text::string_of_range(&v, i + 1, n),
                }
            },
            None => {
                proof {
                    reveal_strlit("latest");
                }
                OllamaModelRef { name: text::owned(model_ref), tag: text::owned("latest") }
            },
        }
    }

    /// The full reference, `name:tag`.
    pub fn full_ref(&self) -> (r: String)
        ensures
            r@ == self.name@ + ":"@ + self.tag@,
    {
        text::concat3(self.name.as_str(), ":", self.tag.as_str())
    }

    /// Where the registry serves this model's manifest.
    pub fn manifest_url(&self) -> (r: String)
        ensures
            r@ == OLLAMA_REGISTRY_BASE@ + "/"@ + self.name@ + "/manifests/"@ + self.tag@,
    {
        let mut r = text::concat4(OLLAMA_REGISTRY_BASE, "/", self.name.as_str(), "/manifests/");
        r.append(self.tag.as_str());
        r
    }

    /// Where the registry serves one of this model's blobs.
    pub fn blob_url(&self, digest: &str) -> (r: String)
        ensures
            r@ == OLLAMA_REGISTRY_BASE@ + "/"@ + self.name@ + "/blobs/"@ + digest@,
    {
        let mut r = text::concat4(OLLAMA_REGISTRY_BASE, "/", self.name.as_str(), "/blobs/");
        r.append(digest);
        r
    }

    /// Name of this model's cache directory, `ollama-{name}-{tag}`.
    pub fn cache_dir_name(&self) -> (r: String)
        ensures
            r@ == "ollama-"@ + self.name@ + "-"@ + self.tag@,
    {
        text::concat4("ollama-", self.name.as_str(), "-", self.tag.as_str())
    }
}

/// The file name a blob is stored under: its digest with `:` replaced by `-`.
pub fn blob_file_name(digest: &str) -> (r: String)
    ensures
        r@ == replace_char(digest@, ':', "-"@),
{
    text::replace_char_exec(digest, ':', "-")
}

/// A layer of an Ollama manifest.
#[derive(Debug, Clone)]
pub struct OllamaLayer {
    pub digest: String,
    pub size: u64,
    pub media_type: String,
}

/// Ollama manifest (simplified).
#[derive(Debug, Clone)]
pub struct OllamaManifest {
    pub schema_version: Option<u32>,
    pub layers: Vec<OllamaLayer>,
}

/// A layer that holds model weights: its media type mentions `model`.
pub open spec fn is_model_layer(l: OllamaLayer) -> bool {
    has_substring(l.media_type@, "model"@)
}

impl OllamaManifest {
    /// The first layer that holds the model weights (GGUF), if any.
    pub fn model_layer(&self) -> (r: Option<&OllamaLayer>)
        ensures
            match r {
                Some(l) => exists|i: int|
                    0 <= i < self.layers@.len() && self.layers@[i] == *l && is_model_layer(*l)
                        && forall|j: int| 0 <= j < i ==> !is_model_layer(#[trigger] self.layers@[j]),
                None => forall|j: int|
                    0 <= j < self.layers@.len() ==> !is_model_layer(#[trigger] self.layers@[j]),
            },
    {
        let mut i: usize = 0;
        while i < self.layers.len()
            invariant
                i <= self.layers@.len(),
                forall|j: int| 0 <= j < i ==> !is_model_layer(#[trigger] self.layers@[j]),
            decreases self.layers.len() - i,
        {
            if text::contains(self.layers[i].media_type.as_str(), "model") {
                return Some(&self.layers[i]);
            }
            i = i + 1;
        }
        None
    }
}

/// The Ollama registry's local side: where downloaded models are kept.
pub struct OllamaRegistry {
    pub cache_dir: String,
}

impl OllamaRegistry {
    pub fn new(cache_dir: &str) -> (r: OllamaRegistry)
        ensures
            r.cache_dir@ == cache_dir@,
    {
        OllamaRegistry { cache_dir: text::owned(cache_dir) }
    }

    /// Where a model's files are kept: `ollama-{name}-{tag}` under the cache
    /// directory.
    pub fn model_cache_dir(&self, model_ref: &OllamaModelRef) -> (r: String)
        ensures
            r@ == text::joined(self.cache_dir@, "ollama-"@ + model_ref.name@ + "-"@ + model_ref.tag@),
    {
        let name = model_ref.cache_dir_name();
        text::join_path(self.cache_dir.as_str(), name.as_str())
    }
}

} // verus!
