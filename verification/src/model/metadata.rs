//! What is recorded of a downloaded model. Times are milliseconds since the Unix
//! epoch (UTC), read from the clock by the caller.
use vstd::prelude::*;
use crate::model::source::ModelSource;
use crate::text;

verus! {

/// serde_json's JSON value, carried as custom metadata and never looked into.
#[verifier::external_type_specification]
#[verifier::external_body]
pub struct ExJsonValue(serde_json::Value);

/// serde_json's `Value::clone`, which `derive(Clone)` writes: the copy is the same
/// value.
pub assume_specification[ <serde_json::Value as Clone>::clone ](v: &serde_json::Value) -> (r: serde_json::Value)
    ensures
        r == *v,
;

/// Model metadata with all recorded fields.
#[derive(Debug, Clone)]
pub struct ModelMetadata {
    /// Unique identifier of the model.
    pub id: String,
    /// Human-readable model name.
    pub name: String,
    /// Where the model came from.
    pub source: ModelSource,
    /// Model version.
    pub version: String,
    /// When the model was downloaded (ms since the epoch).
    pub downloaded_at: i64,
    /// When the model was last updated (ms since the epoch).
    pub updated_at: Option<i64>,
    /// Total size in bytes.
    pub size_bytes: u64,
    /// Model architecture (`transformer`, `llama`, ...).
    pub architecture: Option<String>,
    /// Number of parameters.
    pub parameter_count: Option<usize>,
    /// Quantization method, if quantized.
    pub quantization: Option<String>,
    /// Format downloaded (`gguf`, `pytorch`, ...).
    pub format: Option<String>,
    /// Tags for categorization.
    pub tags: Vec<String>,
    /// Custom fields: each key once, in the order first set.
    pub custom_metadata: Vec<(String, serde_json::Value)>,
    /// Model file paths, relative to the models directory.
    pub file_paths: Vec<String>,
    /// Configuration file path.
    pub config_path: Option<String>,
    /// Tokenizer file path.
    pub tokenizer_path: Option<String>,
}

/// The text of an optional string.
pub open spec fn opt_text(o: Option<String>) -> Option<Seq<char>> {
    match o {
        Some(s) => Some(s@),
        None => None,
    }
}

/// The keys of custom metadata.
pub open spec fn custom_keys(s: Seq<(String, serde_json::Value)>) -> Seq<Seq<char>> {
    Seq::new(s.len(), |i: int| s[i].0@)
}

/// No custom key occurs twice.
pub open spec fn keys_unique(s: Seq<(String, serde_json::Value)>) -> bool {
    forall|i: int, j: int| 0 <= i < j < s.len() ==> s[i].0@ != s[j].0@
}

impl ModelMetadata {
    /// Metadata of a model downloaded at `now_ms`, with nothing optional set.
    pub fn new(id: &str, name: &str, source: ModelSource, version: &str, size_bytes: u64, now_ms: i64) -> (r:
        ModelMetadata)
        ensures
            r.id@ == id@,
            r.name@ == name@,
            r.source == source,
            r.version@ == version@,
            r.downloaded_at == now_ms,
            r.updated_at is None,
            r.size_bytes == size_bytes,
            r.architecture is None,
            r.parameter_count is None,
            r.quantization is None,
            r.format is None,
            r.tags@.len() == 0,
            r.custom_metadata@.len() == 0,
            r.file_paths@.len() == 0,
            r.config_path is None,
            r.tokenizer_path is None,
    {
        ModelMetadata {
            id: text::owned(id),
            name: text::owned(name),
            source,
            version: text::owned(version),
            downloaded_at: now_ms,
            updated_at: None,
            size_bytes,
            architecture: None,
            parameter_count: None,
            quantization: None,
            format: None,
            tags: Vec::new(),
            custom_metadata: Vec::new(),
            file_paths: Vec::new(),
            config_path: None,
            tokenizer_path: None,
        }
    }

    /// Sets the architecture.
    pub fn with_architecture(self, architecture: &str) -> (r: ModelMetadata)
        ensures
            opt_text(r.architecture) == Some(architecture@),
            r == (ModelMetadata { architecture: r.architecture, ..self }),
    {
        ModelMetadata { architecture: Some(text::owned(architecture)), ..self }
    }

    /// Sets the parameter count.
    pub fn with_parameter_count(self, count: usize) -> (r: ModelMetadata)
        ensures
            r == (ModelMetadata { parameter_count: Some(count), ..self }),
    {
        ModelMetadata { parameter_count: Some(count), ..self }
    }

    /// Sets the quantization method.
    pub fn with_quantization(self, quantization: &str) -> (r: ModelMetadata)
        ensures
            opt_text(r.quantization) == Some(quantization@),
            r == (ModelMetadata { quantization: r.quantization, ..self }),
    {
        ModelMetadata { quantization: Some(text::owned(quantization)), ..self }
    }

    /// Sets the format.
    pub fn with_format(self, format: &str) -> (r: ModelMetadata)
        ensures
            opt_text(r.format) == Some(format@),
            r == (ModelMetadata { format: r.format, ..self }),
    {
        ModelMetadata { format: Some(text::owned(format)), ..self }
    }

    /// Adds a tag after the others.
    pub fn with_tag(self, tag: &str) -> (r: ModelMetadata)
        ensures
            r.tags@.len() == self.tags@.len() + 1,
            r.tags@.drop_last() == self.tags@,
            r.tags@.last()@ == tag@,
            r == (ModelMetadata { tags: r.tags, ..self }),
    {
        let mut m = self;
        m.tags.push(text::owned(tag));
        m
    }

    /// Adds tags after the others, in order.
    pub fn with_tags(self, tags: Vec<String>) -> (r: ModelMetadata)
        ensures
            r.tags@ == self.tags@ + tags@,
            r == (ModelMetadata { tags: r.tags, ..self }),
    {
        let mut m = self;
        let mut extra = tags;
        m.tags.append(&mut extra);
        m
    }

    /// Sets a custom field: replaces the value where the key is present, else adds
    /// the key after the others.
    pub fn with_custom_metadata(self, key: &str, value: serde_json::Value) -> (r: ModelMetadata)
        requires
            keys_unique(self.custom_metadata@),
        ensures
            keys_unique(r.custom_metadata@),
            custom_keys(self.custom_metadata@).contains(key@) ==> custom_keys(r.custom_metadata@)
                == custom_keys(self.custom_metadata@),
            !custom_keys(self.custom_metadata@).contains(key@) ==> custom_keys(r.custom_metadata@)
                == custom_keys(self.custom_metadata@).push(key@),
            forall|i: int|
                0 <= i < r.custom_metadata@.len() ==> (#[trigger] r.custom_metadata@[i]).1 == if r.custom_metadata@[i].0@
                    == key@ {
                    value
                } else {
                    self.custom_metadata@[i].1
                },
            r == (ModelMetadata { custom_metadata: r.custom_metadata, ..self }),
    {
        let ghost orig = self;
        let mut m = self;
        let ghost old_entries = m.custom_metadata@;
        let mut i: usize = 0;
        while i < m.custom_metadata.len()
            invariant
                m == orig,
                orig == self,
                keys_unique(old_entries),
                m.custom_metadata@ == old_entries,
                i <= old_entries.len(),
                forall|j: int| 0 <= j < i ==> old_entries[j].0@ != key@,
            decreases m.custom_metadata.len() - i,
        {
            if text::str_eq(m.custom_metadata[i].0.as_str(), key) {
                let entry = (text::owned(key), value);
                m.custom_metadata.set(i, entry);
                proof {
                    assert(custom_keys(old_entries)[i as int] == key@);
                    assert(custom_keys(old_entries).contains(key@));
                    assert(custom_keys(m.custom_metadata@) =~= custom_keys(old_entries));
                    assert forall|a: int, b: int| 0 <= a < b < m.custom_metadata@.len() implies m.custom_metadata@[a].0@
                        != m.custom_metadata@[b].0@ by {
                        assert(custom_keys(m.custom_metadata@)[a] == custom_keys(old_entries)[a]);
                        assert(custom_keys(m.custom_metadata@)[b] == custom_keys(old_entries)[b]);
                    }
                }
                return m;
            }
            i = i + 1;
        }
        proof {
            assert(!custom_keys(old_entries).contains(key@)) by {
                if custom_keys(old_entries).contains(key@) {
                    let j = choose|j: int| 0 <= j < old_entries.len() && custom_keys(old_entries)[j] == key@;
                    assert(old_entries[j].0@ != key@);
                }
            }
        }
        m.custom_metadata.push((text::owned(key), value));
        proof {
            assert(custom_keys(m.custom_metadata@) =~= custom_keys(old_entries).push(key@));
            assert forall|a: int| 0 <= a < old_entries.len() implies old_entries[a].0@ != key@ by {
                assert(custom_keys(old_entries)[a] == old_entries[a].0@);
            }
        }
        m
    }

    /// Adds a file path after the others.
    pub fn with_file_path(self, path: &str) -> (r: ModelMetadata)
        ensures
            r.file_paths@.len() == self.file_paths@.len() + 1,
            r.file_paths@.drop_last() == self.file_paths@,
            r.file_paths@.last()@ == path@,
            r == (ModelMetadata { file_paths: r.file_paths, ..self }),
    {
        let mut m = self;
        m.file_paths.push(text::owned(path));
        m
    }

    /// Sets the configuration file path.
    pub fn with_config_path(self, path: &str) -> (r: ModelMetadata)
        ensures
            opt_text(r.config_path) == Some(path@),
            r == (ModelMetadata { config_path: r.config_path, ..self }),
    {
        ModelMetadata { config_path: Some(text::owned(path)), ..self }
    }

    /// Sets the tokenizer file path.
    pub fn with_tokenizer_path(self, path: &str) -> (r: ModelMetadata)
        ensures
            opt_text(r.tokenizer_path) == Some(path@),
            r == (ModelMetadata { tokenizer_path: r.tokenizer_path, ..self }),
    {
        ModelMetadata { tokenizer_path: Some(text::owned(path)), ..self }
    }

    /// Records an update at `now_ms`.
    pub fn mark_updated(&mut self, now_ms: i64)
        ensures
            *final(self) == (ModelMetadata { updated_at: Some(now_ms), ..*old(self) }),
    {
        self.updated_at = Some(now_ms);
    }

    /// Whether the model was updated since it was downloaded.
    pub fn has_been_updated(&self) -> (r: bool)
        ensures
            r == self.updated_at is Some,
    {
        self.updated_at.is_some()
    }

    /// Time since the download at `now_ms`, in milliseconds.
    pub fn age(&self, now_ms: i64) -> (r: i64)
        requires
            i64::MIN <= now_ms - self.downloaded_at <= i64::MAX,
        ensures
            r == now_ms - self.downloaded_at,
    {
        now_ms - self.downloaded_at
    }

    /// Time since the last update at `now_ms`, in milliseconds; `None` when never
    /// updated.
    pub fn time_since_update(&self, now_ms: i64) -> (r: Option<i64>)
        requires
            self.updated_at matches Some(u) ==> i64::MIN <= now_ms - u <= i64::MAX,
        ensures
            match self.updated_at {
                Some(u) => r == Some((now_ms - u) as i64),
                None => r is None,
            },
    {
        match self.updated_at {
            Some(u) => Some(now_ms - u),
            None => None,
        }
    }
}

} // verus!
