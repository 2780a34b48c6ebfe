//! Model management: listing recorded models, filtered by provider and ordered by
//! name, size or time.
use vstd::prelude::*;
use crate::model::formats::keys::{self, key_lt, KeyOrder};
use crate::error::FuseError;
use crate::model::metadata::{opt_text, ModelMetadata};
use crate::model::source::{ModelSource, Provider};
use crate::text::{self, has_substring, has_suffix};

verus! {

/// How a model listing is ordered.
#[derive(Debug, Clone, Copy, PartialEq, Eq, Structural)]
pub enum SortBy {
    /// By model name.
    Name,
    /// By size, largest first.
    Size,
    /// By download time, newest first.
    Downloaded,
    /// By update time, newest first; models never updated come before the others.
    Updated,
}

impl Default for SortBy {
    fn default() -> (r: SortBy)
        ensures
            r == SortBy::Name,
    {
        SortBy::Name
    }
}

/// Whether `a` goes strictly before `b` in a listing ordered `by`.
pub open spec fn goes_before(by: SortBy, a: ModelMetadata, b: ModelMetadata) -> bool {
    match by {
        SortBy::Name => key_lt(a.name@, b.name@),
        SortBy::Size => a.size_bytes > b.size_bytes,
        SortBy::Downloaded => a.downloaded_at > b.downloaded_at,
        SortBy::Updated => match (a.updated_at, b.updated_at) {
            (Some(x), Some(y)) => x > y,
            (None, Some(_)) => true,
            _ => false,
        },
    }
}

/// `a` may stand before `b`: `b` does not go strictly before `a`.
pub open spec fn in_order(by: SortBy, a: ModelMetadata, b: ModelMetadata) -> bool {
    !goes_before(by, b, a)
}

/// The models recorded from `p`, or all of them when there is no filter, in order.
pub open spec fn from_provider(s: Seq<ModelMetadata>, p: Option<Provider>) -> Seq<ModelMetadata>
    decreases s.len(),
{
    if s.len() == 0 {
        Seq::empty()
    } else {
        let rest = from_provider(s.drop_last(), p);
        match p {
            Some(q) => if s.last().source.provider == q {
                rest.push(s.last())
            } else {
                rest
            },
            None => rest.push(s.last()),
        }
    }
}

/// Where a stable sort puts `x` among ordered models: after every model that `x`
/// does not go before.
pub open spec fn insert_by(by: SortBy, s: Seq<ModelMetadata>, x: ModelMetadata) -> Seq<ModelMetadata>
    decreases s.len(),
{
    if s.len() == 0 {
        seq![x]
    } else if goes_before(by, x, s.last()) {
        insert_by(by, s.drop_last(), x).push(s.last())
    } else {
        s.push(x)
    }
}

/// The stable sort (`sort_by`) of the models in the order `by`.
pub open spec fn sorted_by(by: SortBy, s: Seq<ModelMetadata>) -> Seq<ModelMetadata>
    decreases s.len(),
{
    if s.len() == 0 {
        Seq::empty()
    } else {
        insert_by(by, sorted_by(by, s.drop_last()), s.last())
    }
}

/// Whether `a` goes strictly before `b` in the order `by`.
fn is_before(by: SortBy, a: &ModelMetadata, b: &ModelMetadata) -> (r: bool)
    ensures
        r == goes_before(by, *a, *b),
{
    match by {
        SortBy::Name => match keys::compare_keys(a.name.as_str(), b.name.as_str()) {
            KeyOrder::Less => true,
            _ => false,
        },
        SortBy::Size => a.size_bytes > b.size_bytes,
        SortBy::Downloaded => a.downloaded_at > b.downloaded_at,
        SortBy::Updated => match (a.updated_at, b.updated_at) {
            (Some(x), Some(y)) => x > y,
            (None, Some(_)) => true,
            _ => false,
        },
    }
}

/// Puts `x` into ordered models after every model that it does not go before.
fn insert_by_order(by: SortBy, out: &mut Vec<ModelMetadata>, x: ModelMetadata)
    ensures
        final(out)@ == insert_by(by, old(out)@, x),
{
    let ghost s = out@;
    let mut i: usize = out.len();
    assert(s.take(i as int) =~= s);
    assert(s.skip(i as int) =~= Seq::<ModelMetadata>::empty());
    assert(insert_by(by, s, x) + Seq::<ModelMetadata>::empty() =~= insert_by(by, s, x));
    while i > 0 && is_before(by, &x, &out[i - 1])
        invariant
            out@ == s,
            i <= s.len(),
            insert_by(by, s, x) == insert_by(by, s.take(i as int), x) + s.skip(i as int),
        decreases i,
    {
        proof {
            let t = s.take(i as int);
            assert(t.drop_last() =~= s.take(i - 1));
            assert(t.last() == s[i - 1]);
            assert(insert_by(by, t, x) == insert_by(by, s.take(i - 1), x).push(s[i - 1]));
            assert(s.skip(i - 1) =~= seq![s[i - 1]] + s.skip(i as int));
            assert(insert_by(by, s.take(i - 1), x).push(s[i - 1]) + s.skip(i as int) =~= insert_by(
                by,
                s.take(i - 1),
                x,
            ) + s.skip(i - 1));
        }
        i = i - 1;
    }
    proof {
        let t = s.take(i as int);
        if i > 0 {
            assert(t.last() == s[i - 1]);
        }
        assert(insert_by(by, t, x) == t.push(x));
        assert(t.push(x) + s.skip(i as int) =~= s.insert(i as int, x));
    }
    out.insert(i, x);
}

/// The recorded models from the given provider (all of them without a filter),
/// ordered as `sort_by` says; models that compare equal keep their order.
pub fn list_filtered(models: Vec<ModelMetadata>, source_filter: Option<Provider>, sort_by: SortBy) -> (r:
    Vec<ModelMetadata>)
    ensures
        r@ == sorted_by(sort_by, from_provider(models@, source_filter)),
{
    let ghost input = models@;
    let mut kept: Vec<ModelMetadata> = Vec::new();
    for m in it: models
        invariant
            it.seq() == input,
            kept@ == from_provider(input.take(it.index() as int), source_filter),
    {
        let ghost k = it.index() as int;
        assert(input.take(k + 1).drop_last() =~= input.take(k));
        assert(input.take(k + 1).last() == m);
        let keep = match source_filter {
            Some(p) => m.source.provider == p,
            None => true,
        };
        if keep {
            kept.push(m);
        }
    }
    assert(input.take(input.len() as int) =~= input);
    let ghost filtered = kept@;
    let mut out: Vec<ModelMetadata> = Vec::new();
    for m in it: kept
        invariant
            it.seq() == filtered,
            out@ == sorted_by(sort_by, filtered.take(it.index() as int)),
    {
        let ghost k = it.index() as int;
        assert(filtered.take(k + 1).drop_last() =~= filtered.take(k));
        assert(filtered.take(k + 1).last() == m);
        insert_by_order(sort_by, &mut out, m);
    }
    assert(filtered.take(filtered.len() as int) =~= filtered);
    out
}

/// Going before is asymmetric, and where `a` goes before `c`, any `b` goes after
/// `a` or before `c`.
proof fn lemma_order_weak(by: SortBy, a: ModelMetadata, b: ModelMetadata, c: ModelMetadata)
    ensures
        goes_before(by, a, b) ==> !goes_before(by, b, a),
        goes_before(by, a, c) ==> goes_before(by, a, b) || goes_before(by, b, c),
{
    if by == SortBy::Name {
        if key_lt(a.name@, b.name@) {
            keys::lemma_key_lt_asym(a.name@, b.name@);
        }
        if key_lt(a.name@, c.name@) && !key_lt(a.name@, b.name@) {
            if a.name@ != b.name@ {
                keys::lemma_key_lt_total(a.name@, b.name@);
                keys::lemma_key_lt_trans(b.name@, a.name@, c.name@);
            }
        }
    }
}

proof fn lemma_insert_by(by: SortBy, s: Seq<ModelMetadata>, x: ModelMetadata)
    requires
        forall|i: int, j: int| 0 <= i < j < s.len() ==> in_order(by, s[i], s[j]),
    ensures
        ({
            let r = insert_by(by, s, x);
            &&& forall|i: int, j: int| 0 <= i < j < r.len() ==> in_order(by, r[i], r[j])
            &&& r.to_multiset() == s.to_multiset().insert(x)
        }),
    decreases s.len(),
{
    broadcast use vstd::seq_lib::group_to_multiset_ensures;

    if s.len() == 0 {
        assert(seq![x] =~= Seq::<ModelMetadata>::empty().push(x));
    } else if goes_before(by, x, s.last()) {
        let p = s.drop_last();
        lemma_insert_by(by, p, x);
        let q = insert_by(by, p, x);
        let r = q.push(s.last());
        assert(s =~= p.push(s.last()));
        assert forall|i: int, j: int| 0 <= i < j < r.len() implies in_order(by, r[i], r[j]) by {
            if j == r.len() - 1 {
                assert(q.to_multiset().count(r[i]) > 0) by {
                    assert(q.contains(r[i]));
                }
                assert(q.to_multiset() == p.to_multiset().insert(x));
                if r[i] != x {
                    assert(p.to_multiset().count(r[i]) > 0);
                    assert(p.contains(r[i]));
                    let k = choose|k: int| 0 <= k < p.len() && p[k] == r[i];
                    assert(s[k] == p[k]);
                    assert(in_order(by, s[k], s[s.len() - 1]));
                } else {
                    lemma_order_weak(by, x, s.last(), x);
                }
            }
        }
    } else {
        let r = s.push(x);
        assert forall|i: int, j: int| 0 <= i < j < r.len() implies in_order(by, r[i], r[j]) by {
            if j == r.len() - 1 && i < s.len() - 1 {
                assert(in_order(by, s[i], s[s.len() - 1]));
                lemma_order_weak(by, x, s[s.len() - 1], s[i]);
            }
        }
    }
}

/// A listing is ordered: no model goes strictly before one listed ahead of it.
pub proof fn lemma_sorted_by_ordered(by: SortBy, s: Seq<ModelMetadata>)
    ensures
        forall|i: int, j: int|
            0 <= i < j < sorted_by(by, s).len() ==> in_order(
                by,
                #[trigger] sorted_by(by, s)[i],
                #[trigger] sorted_by(by, s)[j],
            ),
    decreases s.len(),
{
    if s.len() > 0 {
        lemma_sorted_by_ordered(by, s.drop_last());
        lemma_insert_by(by, sorted_by(by, s.drop_last()), s.last());
    }
}

/// Ordering a listing keeps exactly the models it was given.
pub proof fn lemma_sorted_by_permutes(by: SortBy, s: Seq<ModelMetadata>)
    ensures
        sorted_by(by, s).to_multiset() == s.to_multiset(),
    decreases s.len(),
{
    broadcast use vstd::seq_lib::group_to_multiset_ensures;

    if s.len() > 0 {
        lemma_sorted_by_permutes(by, s.drop_last());
        lemma_sorted_by_ordered(by, s.drop_last());
        lemma_insert_by(by, sorted_by(by, s.drop_last()), s.last());
        assert(s =~= s.drop_last().push(s.last()));
    } else {
        assert(sorted_by(by, s) =~= s);
    }
}

/// A filtered listing holds only models from the provider asked for, and every
/// model from it.
pub proof fn lemma_from_provider_exact(s: Seq<ModelMetadata>, p: Provider)
    ensures
        forall|i: int|
            0 <= i < from_provider(s, Some(p)).len() ==> (#[trigger] from_provider(s, Some(p))[i]).source.provider
                == p,
        forall|i: int|
            0 <= i < s.len() && (#[trigger] s[i]).source.provider == p ==> from_provider(
                s,
                Some(p),
            ).contains(s[i]),
    decreases s.len(),
{
    if s.len() > 0 {
        lemma_from_provider_exact(s.drop_last(), p);
        let rest = from_provider(s.drop_last(), Some(p));
        assert forall|i: int| 0 <= i < s.len() && (#[trigger] s[i]).source.provider == p implies from_provider(
            s,
            Some(p),
        ).contains(s[i]) by {
            if i < s.len() - 1 {
                assert(s.drop_last()[i] == s[i]);
                let k = choose|k: int| 0 <= k < rest.len() && rest[k] == s[i];
                assert(from_provider(s, Some(p))[k] == s[i]);
            } else {
                assert(from_provider(s, Some(p))[rest.len() as int] == s[i]);
            }
        }
    }
}

/// Whether a pull of `name` from `source` may go ahead, given whether a model of
/// that name is recorded: a recorded name, a remote source and a local source are
/// refused.
pub fn check_pull(source: &ModelSource, name: &str, exists: bool) -> (r: Result<(), FuseError>)
    ensures
        exists ==> (r matches Err(FuseError::ValidationError(m)) && m@ == "Model "@ + name@
            + " already exists. Use 'fuse update "@ + name@ + "' to pull the latest version."@),
        !exists && source.provider == Provider::Remote ==> (r matches Err(FuseError::FeatureDisabled(m))
            && m@ == "Remote model pulling will be implemented in task 6"@),
        !exists && source.provider == Provider::Local ==> (r matches Err(FuseError::ValidationError(m))
            && m@ == "Cannot pull from local source. Model is already local."@),
        !exists && (source.provider == Provider::HuggingFace || source.provider == Provider::Unsloth)
            ==> r is Ok,
{
    if exists {
        let head = text::concat3("Model ", name, " already exists. Use 'fuse update ");
        return Err(FuseError::ValidationError(text::concat3(head.as_str(), name, "' to pull the latest version.")));
    }
    match source.provider {
        Provider::HuggingFace | Provider::Unsloth => Ok(()),
        Provider::Remote => Err(
            FuseError::FeatureDisabled(text::owned("Remote model pulling will be implemented in task 6")),
        ),
        Provider::Local => Err(
            FuseError::ValidationError(text::owned("Cannot pull from local source. Model is already local.")),
        ),
    }
}

/// Whether an update of a recorded model may go ahead: a model that is not recorded
/// is not found, and a local model cannot be updated.
pub fn check_update(name: &str, recorded: Option<&ModelMetadata>) -> (r: Result<(), FuseError>)
    ensures
        recorded is None ==> (r matches Err(FuseError::ModelNotFound(m)) && m@ == name@),
        recorded matches Some(md) ==> (md.source.provider == Provider::Local <==> (r matches Err(
            FuseError::ValidationError(m),
        ) && m@ == "Cannot update local models"@)) && (md.source.provider != Provider::Local
            ==> r is Ok),
{
    match recorded {
        None => Err(FuseError::ModelNotFound(text::owned(name))),
        Some(md) => if md.source.provider == Provider::Local {
            Err(FuseError::ValidationError(text::owned("Cannot update local models")))
        } else {
            Ok(())
        },
    }
}

/// The sum of the sizes of the downloaded files that could be read.
pub open spec fn size_sum(sizes: Seq<Option<u64>>) -> nat
    decreases sizes.len(),
{
    if sizes.len() == 0 {
        0
    } else {
        size_sum(sizes.drop_last()) + match sizes.last() {
            Some(n) => n as nat,
            None => 0,
        }
    }
}

/// Total size of a download: the sizes of the files whose size could be read.
pub fn total_size(sizes: &Vec<Option<u64>>) -> (r: u64)
    requires
        size_sum(sizes@) <= u64::MAX,
    ensures
        r == size_sum(sizes@),
{
    let mut total: u64 = 0;
    let mut i: usize = 0;
    while i < sizes.len()
        invariant
            i <= sizes@.len(),
            total == size_sum(sizes@.take(i as int)),
            size_sum(sizes@) <= u64::MAX,
        decreases sizes.len() - i,
    {
        proof {
            lemma_size_sum_prefix(sizes@, i as int);
            lemma_size_sum_prefix(sizes@, i + 1);
            assert(sizes@.take(i + 1).drop_last() =~= sizes@.take(i as int));
            assert(sizes@.take(i + 1).last() == sizes@[i as int]);
        }
        match sizes[i] {
            Some(n) => {
                total = total + n;
            },
            None => {},
        }
        i = i + 1;
    }
    assert(sizes@.take(sizes@.len() as int) =~= sizes@);
    total
}

proof fn lemma_size_sum_prefix(s: Seq<Option<u64>>, n: int)
    requires
        0 <= n <= s.len(),
    ensures
        size_sum(s.take(n)) <= size_sum(s),
    decreases s.len(),
{
    if n < s.len() {
        lemma_size_sum_prefix(s.drop_last(), n);
        assert(s.drop_last().take(n) =~= s.take(n));
    } else {
        assert(s.take(n) =~= s);
    }
}

/// A file that configures the model: its path ends with `config.json`.
pub open spec fn is_config_file(path: Seq<char>) -> bool {
    has_suffix(path, "config.json"@)
}

/// A tokenizer file: not a configuration file, with `tokenizer` in its path, ending
/// with `.json`.
pub open spec fn is_tokenizer_file(path: Seq<char>) -> bool {
    !is_config_file(path) && has_substring(path, "tokenizer"@) && has_suffix(path, ".json"@)
}

/// The configuration path the downloaded files give: the last configuration file,
/// or what was set before.
pub open spec fn config_after(before: Option<Seq<char>>, files: Seq<Seq<char>>) -> Option<Seq<char>>
    decreases files.len(),
{
    if files.len() == 0 {
        before
    } else if is_config_file(files.last()) {
        Some(files.last())
    } else {
        config_after(before, files.drop_last())
    }
}

/// The tokenizer path the downloaded files give: the last tokenizer file, or what
/// was set before.
pub open spec fn tokenizer_after(before: Option<Seq<char>>, files: Seq<Seq<char>>) -> Option<Seq<char>>
    decreases files.len(),
{
    if files.len() == 0 {
        before
    } else if is_tokenizer_file(files.last()) {
        Some(files.last())
    } else {
        tokenizer_after(before, files.drop_last())
    }
}

/// Records the downloaded files: each one's path, and the configuration and
/// tokenizer files among them.
pub fn with_downloaded_files(metadata: ModelMetadata, files: Vec<String>) -> (r: ModelMetadata)
    ensures
        text::string_views(r.file_paths@) == text::string_views(metadata.file_paths@) + text::string_views(
            files@,
        ),
        opt_text(r.config_path) == config_after(opt_text(metadata.config_path), text::string_views(files@)),
        opt_text(r.tokenizer_path) == tokenizer_after(
            opt_text(metadata.tokenizer_path),
            text::string_views(files@),
        ),
        r == (ModelMetadata {
            file_paths: r.file_paths,
            config_path: r.config_path,
            tokenizer_path: r.tokenizer_path,
            ..metadata
        }),
{
    let ghost fv = text::string_views(files@);
    let ghost orig = metadata;
    let mut m = metadata;
    let mut i: usize = 0;
    while i < files.len()
        invariant
            i <= files@.len(),
            fv == text::string_views(files@),
            text::string_views(m.file_paths@) == text::string_views(orig.file_paths@) + fv.take(i as int),
            opt_text(m.config_path) == config_after(opt_text(orig.config_path), fv.take(i as int)),
            opt_text(m.tokenizer_path) == tokenizer_after(opt_text(orig.tokenizer_path), fv.take(i as int)),
            m == (ModelMetadata {
                file_paths: m.file_paths,
                config_path: m.config_path,
                tokenizer_path: m.tokenizer_path,
                ..orig
            }),
        decreases files.len() - i,
    {
        let path = files[i].as_str();
        proof {
            assert(fv.take(i + 1).drop_last() =~= fv.take(i as int));
            assert(fv.take(i + 1).last() == path@);
        }
        let ghost before = m.file_paths@;
        m = m.with_file_path(path);
        proof {
            assert(text::string_views(m.file_paths@) =~= text::string_views(before).push(path@));
            assert(text::string_views(orig.file_paths@) + fv.take(i + 1) =~= (text::string_views(
                orig.file_paths@,
            ) + fv.take(i as int)).push(path@));
        }
        if text::ends_with(path, "config.json") {
            m = m.with_config_path(path);
        } else if text::contains(path, "tokenizer") && text::ends_with(path, ".json") {
            m = m.with_tokenizer_path(path);
        }
        i = i + 1;
    }
    proof {
        assert(fv.take(fv.len() as int) =~= fv);
    }
    m
}

/// What a pull from Hugging Face records: the model under `name`, at the source's
/// version (`main` without one), of the downloaded size, with the model's tags and
/// library (as architecture), and the downloaded files.
pub fn huggingface_metadata(
    name: &str,
    source: ModelSource,
    total_size: u64,
    tags: Option<Vec<String>>,
    library_name: Option<String>,
    files: Vec<String>,
    now_ms: i64,
) -> (r: ModelMetadata)
    ensures
        r.id@ == name@,
        r.name@ == name@,
        r.source == source,
        r.version@ == match source.version {
            Some(v) => v@,
            None => "main"@,
        },
        r.size_bytes == total_size,
        r.downloaded_at == now_ms,
        r.updated_at is None,
        r.tags@ == match tags {
            Some(t) => t@,
            None => Seq::empty(),
        },
        opt_text(r.architecture) == opt_text(library_name),
        r.parameter_count is None,
        r.quantization is None,
        r.format is None,
        r.custom_metadata@.len() == 0,
        text::string_views(r.file_paths@) == text::string_views(files@),
        opt_text(r.config_path) == config_after(None, text::string_views(files@)),
        opt_text(r.tokenizer_path) == tokenizer_after(None, text::string_views(files@)),
{
    let version = match &source.version {
        Some(v) => text::owned(v.as_str()),
        None => text::owned("main"),
    };
    let mut m = ModelMetadata::new(name, name, source, version.as_str(), total_size, now_ms);
    match tags {
        Some(t) => {
            m = m.with_tags(t);
        },
        None => {},
    }
    match library_name {
        Some(l) => {
            m = m.with_architecture(l.as_str());
        },
        None => {},
    }
    proof {
        assert(text::string_views(m.file_paths@) =~= Seq::<Seq<char>>::empty());
    }
    let r = with_downloaded_files(m, files);
    proof {
        assert(text::string_views(m.file_paths@) + text::string_views(files@) =~= text::string_views(files@));
    }
    r
}

/// What a pull from Unsloth records: the model under `name` with the model's own
/// name, its version (`latest` without one), the downloaded size, its tags,
/// architecture and parameter count, and the downloaded files.
pub fn unsloth_metadata(
    name: &str,
    source: ModelSource,
    model_name: &str,
    version: Option<String>,
    total_size: u64,
    tags: Option<Vec<String>>,
    architecture: Option<String>,
    parameters: Option<usize>,
    files: Vec<String>,
    now_ms: i64,
) -> (r: ModelMetadata)
    ensures
        r.id@ == name@,
        r.name@ == model_name@,
        r.source == source,
        r.version@ == match version {
            Some(v) => v@,
            None => "latest"@,
        },
        r.size_bytes == total_size,
        r.downloaded_at == now_ms,
        r.updated_at is None,
        r.tags@ == match tags {
            Some(t) => t@,
            None => Seq::empty(),
        },
        opt_text(r.architecture) == opt_text(architecture),
        r.parameter_count == parameters,
        r.quantization is None,
        r.format is None,
        r.custom_metadata@.len() == 0,
        text::string_views(r.file_paths@) == text::string_views(files@),
        opt_text(r.config_path) == config_after(None, text::string_views(files@)),
        opt_text(r.tokenizer_path) == tokenizer_after(None, text::string_views(files@)),
{
    let v = match &version {
        Some(v) => text::owned(v.as_str()),
        None => text::owned("latest"),
    };
    let mut m = ModelMetadata::new(name, model_name, source, v.as_str(), total_size, now_ms);
    match tags {
        Some(t) => {
            m = m.with_tags(t);
        },
        None => {},
    }
    match architecture {
        Some(a) => {
            m = m.with_architecture(a.as_str());
        },
        None => {},
    }
    match parameters {
        Some(p) => {
            m = m.with_parameter_count(p);
        },
        None => {},
    }
    proof {
        assert(text::string_views(m.file_paths@) =~= Seq::<Seq<char>>::empty());
    }
    let r = with_downloaded_files(m, files);
    proof {
        assert(text::string_views(m.file_paths@) + text::string_views(files@) =~= text::string_views(files@));
    }
    r
}

} // verus!
