//! Merging models: the checks a merge request must pass, the parameter count of an
//! average merge, and what the merged model records.
use vstd::prelude::*;
use crate::error::FuseError;
use crate::model::metadata::{custom_keys, opt_text, ModelMetadata};
use crate::model::source::ModelSource;
use crate::text::{self, decimal, joined};

verus! {

/// How a merge combines its models (the weights and interpolation parameters of the
/// weighted and SLERP strategies are the caller's).
#[derive(Debug, Clone, Copy, PartialEq, Eq, Structural)]
pub enum StrategyKind {
    Average,
    Weighted,
    Slerp,
    Custom,
}

/// Merges models inside a workspace.
pub struct ModelMerger {
    pub workspace_dir: String,
}

impl ModelMerger {
    pub fn new(workspace_dir: &str) -> (r: ModelMerger)
        ensures
            r.workspace_dir@ == workspace_dir@,
    {
        ModelMerger { workspace_dir: text::owned(workspace_dir) }
    }

    /// Where a merged model goes when no output path is given:
    /// `{workspace}/models/{output_name}`.
    pub fn default_output_path(&self, output_name: &str) -> (r: String)
        ensures
            r@ == joined(joined(self.workspace_dir@, "models"@), output_name@),
    {
        let models = text::join_path(self.workspace_dir.as_str(), "models");
        text::join_path(models.as_str(), output_name)
    }
}

/// A merge needs at least two models.
pub fn check_model_count(n_models: usize) -> (r: Result<(), FuseError>)
    ensures
        n_models >= 2 ==> r is Ok,
        n_models < 2 ==> (r matches Err(FuseError::ValidationError(m)) && m@
            == "At least 2 models are required for merging"@),
{
    if n_models < 2 {
        Err(FuseError::ValidationError(text::owned("At least 2 models are required for merging")))
    } else {
        Ok(())
    }
}

/// The counts a strategy asks for: SLERP merges exactly two models, a weighted merge
/// has one weight per model.
pub fn check_strategy_counts(kind: StrategyKind, n_models: usize, n_weights: usize) -> (r: Result<
    (),
    FuseError,
>)
    ensures
        kind == StrategyKind::Slerp && n_models != 2 ==> (r matches Err(
            FuseError::ValidationError(m),
        ) && m@ == "SLERP merging requires exactly 2 models"@),
        kind == StrategyKind::Weighted && n_weights != n_models ==> (r matches Err(
            FuseError::ValidationError(m),
        ) && m@ == "Weighted merging requires "@ + decimal(n_models as nat) + " weights but "@
            + decimal(n_weights as nat) + " provided"@),
        !(kind == StrategyKind::Slerp && n_models != 2) && !(kind == StrategyKind::Weighted
            && n_weights != n_models) ==> r is Ok,
{
    match kind {
        StrategyKind::Slerp => {
            if n_models != 2 {
                return Err(
                    FuseError::ValidationError(text::owned("SLERP merging requires exactly 2 models")),
                );
            }
        },
        StrategyKind::Weighted => {
            if n_weights != n_models {
                let a = text::u64_to_decimal(n_models as u64);
                let b = text::u64_to_decimal(n_weights as u64);
                let mut m = text::concat4("Weighted merging requires ", a.as_str(), " weights but ", b.as_str());
                m.append(" provided");
                return Err(FuseError::ValidationError(m));
            }
        },
        _ => {},
    }
    Ok(())
}

/// Sum of the models' parameter counts, unknown counts as zero.
pub open spec fn total_parameters(counts: Seq<Option<usize>>) -> int
    decreases counts.len(),
{
    if counts.len() == 0 {
        0
    } else {
        total_parameters(counts.drop_last()) + match counts.last() {
            Some(c) => c as int,
            None => 0,
        }
    }
}

proof fn lemma_total_prefix(counts: Seq<Option<usize>>, k: int)
    requires
        0 <= k <= counts.len(),
    ensures
        total_parameters(counts.take(k)) <= total_parameters(counts),
    decreases counts.len(),
{
    if k < counts.len() {
        assert(counts.drop_last().take(k) =~= counts.take(k));
        lemma_total_prefix(counts.drop_last(), k);
    } else {
        assert(counts.take(k) =~= counts);
    }
}

/// The parameter count of an average merge: the models' total, and the total
/// divided by the number of models.
pub fn average_parameters(counts: &Vec<Option<usize>>) -> (r: (u64, u64))
    requires
        counts@.len() > 0,
        total_parameters(counts@) <= u64::MAX,
    ensures
        r.0 == total_parameters(counts@),
        r.1 == total_parameters(counts@) / (counts@.len() as int),
{
    let mut total: u64 = 0;
    let mut k: usize = 0;
    while k < counts.len()
        invariant
            k <= counts@.len(),
            total == total_parameters(counts@.take(k as int)),
            total_parameters(counts@) <= u64::MAX,
        decreases counts.len() - k,
    {
        assert(counts@.take(k + 1).drop_last() =~= counts@.take(k as int));
        proof {
            lemma_total_prefix(counts@, k + 1);
        }
        let c: u64 = match counts[k] {
            Some(c) => c as u64,
            None => 0,
        };
        total = total + c;
        k = k + 1;
    }
    assert(counts@.take(counts@.len() as int) =~= counts@);
    (total, total / (counts.len() as u64))
}

/// The names of the merged models, separated by commas.
pub open spec fn comma_list(names: Seq<String>) -> Seq<char>
    decreases names.len(),
{
    if names.len() == 0 {
        Seq::empty()
    } else if names.len() == 1 {
        names[0]@
    } else {
        comma_list(names.drop_last()) + ", "@ + names.last()@
    }
}

/// The file an average merge writes.
pub open spec fn average_merge_text(
    names: Seq<String>,
    total: u64,
    average: u64,
    generated: Seq<char>,
) -> Seq<char> {
    "# Merged Model (Average)\n# Merged from: "@ + comma_list(names) + "\n# Total parameters: "@
        + decimal(total as nat) + "\n# Average parameters: "@ + decimal(average as nat)
        + "\n# Generated: "@ + generated + "\n"@
}

/// What an average merge writes as the merged model, given the generation time.
pub fn average_merge_content(names: &Vec<String>, total: u64, average: u64, generated: &str) -> (r:
    String)
    ensures
        r@ == average_merge_text(names@, total, average, generated@),
{
    let mut out = text::owned("# Merged Model (Average)\n# Merged from: ");
    let ghost start = out@;
    let mut k: usize = 0;
    while k < names.len()
        invariant
            k <= names@.len(),
            out@ == start + comma_list(names@.take(k as int)),
        decreases names.len() - k,
    {
        assert(names@.take(k + 1).drop_last() =~= names@.take(k as int));
        if k > 0 {
            out.append(", ");
        }
        out.append(names[k].as_str());
        proof {
            if k == 0 {
                assert(names@.take(1).len() == 1);
            }
        }
        assert(out@ =~= start + comma_list(names@.take(k + 1)));
        k = k + 1;
    }
    assert(names@.take(names@.len() as int) =~= names@);
    out.append("\n# Total parameters: ");
    let t = text::u64_to_decimal(total);
    out.append(t.as_str());
    out.append("\n# Average parameters: ");
    let a = text::u64_to_decimal(average);
    out.append(a.as_str());
    out.append("\n# Generated: ");
    out.append(generated);
    out.append("\n");
    assert(out@ =~= average_merge_text(names@, total, average, generated@));
    out
}

pub open spec fn views(v: Seq<String>) -> Seq<Seq<char>> {
    Seq::new(v.len(), |i: int| v[i]@)
}

/// The tags of a merged model: `merged`, then every source model's tags in order.
pub open spec fn merged_tag_list(tags: Seq<Vec<String>>) -> Seq<Seq<char>>
    decreases tags.len(),
{
    if tags.len() == 0 {
        seq!["merged"@]
    } else {
        merged_tag_list(tags.drop_last()) + views(tags.last()@)
    }
}

/// The tags of a merged model.
pub fn merged_tags(tags: &Vec<Vec<String>>) -> (r: Vec<String>)
    ensures
        views(r@) == merged_tag_list(tags@),
{
    let mut out: Vec<String> = Vec::new();
    out.push(text::owned("merged"));
    assert(views(out@) =~= merged_tag_list(tags@.take(0)));
    let mut k: usize = 0;
    while k < tags.len()
        invariant
            k <= tags@.len(),
            views(out@) == merged_tag_list(tags@.take(k as int)),
        decreases tags.len() - k,
    {
        assert(tags@.take(k + 1).drop_last() =~= tags@.take(k as int));
        let ghost before = views(out@);
        let src = &tags[k];
        let mut j: usize = 0;
        while j < src.len()
            invariant
                j <= src@.len(),
                views(out@) == before + views(src@.take(j as int)),
            decreases src.len() - j,
        {
            let ghost prev = out@;
            out.push(text::owned(src[j].as_str()));
            assert(views(out@) =~= views(prev).push(src@[j as int]@));
            assert(views(src@.take(j + 1)) =~= views(src@.take(j as int)).push(src@[j as int]@));
            j = j + 1;
        }
        assert(src@.take(src@.len() as int) =~= src@);
        assert(views(out@) =~= merged_tag_list(tags@.take(k + 1)));
        k = k + 1;
    }
    assert(tags@.take(tags@.len() as int) =~= tags@);
    out
}

/// The JSON value serde_json makes of a list of strings.
pub uninterp spec fn json_string_list(items: Seq<Seq<char>>) -> serde_json::Value;

/// The JSON value serde_json makes of a string.
pub uninterp spec fn json_string(text: Seq<char>) -> serde_json::Value;

/// serde_json's `to_value` on a list of strings (a JSON array of them); its result
/// is named `json_string_list` of the strings.
#[verifier::external_body]
fn strings_to_json(items: Vec<String>) -> (r: serde_json::Value)
    ensures
        r == json_string_list(views(items@)),
{
    serde_json::to_value(items).unwrap_or(serde_json::Value::Null)
}

/// serde_json's `Value::String`; its result is named `json_string` of the text.
#[verifier::external_body]
fn string_to_json(text: String) -> (r: serde_json::Value)
    ensures
        r == json_string(text@),
{
    serde_json::Value::String(text)
}

/// The decimal text of a signed number.
pub open spec fn signed_decimal(n: int) -> Seq<char> {
    if n < 0 {
        "-"@ + decimal((-n) as nat)
    } else {
        decimal(n as nat)
    }
}

fn i64_to_decimal(n: i64) -> (r: String)
    ensures
        r@ == signed_decimal(n as int),
{
    if n < 0 {
        let magnitude: u64 = if n == i64::MIN { 9223372036854775808u64 } else { (-n) as u64 };
        let digits = text::u64_to_decimal(magnitude);
        text::concat2("-", digits.as_str())
    } else {
        text::u64_to_decimal(n as u64)
    }
}

/// A copy of a list of strings.
fn copy_strings(v: &Vec<String>) -> (r: Vec<String>)
    ensures
        views(r@) == views(v@),
{
    let mut out: Vec<String> = Vec::new();
    let mut i: usize = 0;
    while i < v.len()
        invariant
            i <= v@.len(),
            out@.len() == i,
            views(out@) == views(v@.take(i as int)),
        decreases v.len() - i,
    {
        let ghost before = out@;
        out.push(text::owned(v[i].as_str()));
        proof {
            assert forall|j: int| 0 <= j < i + 1 implies views(out@)[j] == views(v@.take(i + 1))[j] by {
                if j < i {
                    assert(out@[j] == before[j]);
                    assert(views(before)[j] == views(v@.take(i as int))[j]);
                }
            }
            assert(views(out@) =~= views(v@.take(i + 1)));
        }
        i = i + 1;
    }
    assert(v@.take(v@.len() as int) =~= v@);
    out
}

/// The tag list depends on the tags' text only.
proof fn lemma_merged_tag_list_views(a: Seq<Vec<String>>, b: Seq<Vec<String>>)
    requires
        a.len() == b.len(),
        forall|i: int| 0 <= i < a.len() ==> views(#[trigger] a[i]@) == views(b[i]@),
    ensures
        merged_tag_list(a) == merged_tag_list(b),
    decreases a.len(),
{
    if a.len() > 0 {
        lemma_merged_tag_list_views(a.drop_last(), b.drop_last());
        assert(views(a.last()@) == views(b.last()@));
    }
}

/// A copy of a model source.
pub fn copy_source(s: &ModelSource) -> (r: ModelSource)
    ensures
        r.provider == s.provider,
        r.repository@ == s.repository@,
        opt_text(r.version) == opt_text(s.version),
        opt_text(r.url) == opt_text(s.url),
{
    ModelSource {
        provider: s.provider,
        repository: s.repository.clone(),
        version: match &s.version {
            Some(v) => Some(v.clone()),
            None => None,
        },
        url: match &s.url {
            Some(u) => Some(u.clone()),
            None => None,
        },
    }
}

/// What is recorded of a merged model: it is named `output_name` with the id
/// `merged_{timestamp_secs}`, takes the first model's source, architecture and
/// tokenizer, has the merge's size and parameter count, the tags `merged` and those
/// of the models, and records the strategy, the models' names and the merge time
/// (`timestamp_text`) as custom fields.
pub fn merged_metadata(
    models: &Vec<ModelMetadata>,
    output_name: &str,
    output_size_bytes: u64,
    total_parameters: u64,
    strategy: serde_json::Value,
    timestamp_secs: i64,
    timestamp_text: &str,
    now_ms: i64,
) -> (r: ModelMetadata)
    requires
        models@.len() > 0,
    ensures
        r.id@ == "merged_"@ + signed_decimal(timestamp_secs as int),
        r.name@ == output_name@,
        r.source.provider == models@[0].source.provider,
        r.source.repository@ == models@[0].source.repository@,
        opt_text(r.source.version) == opt_text(models@[0].source.version),
        opt_text(r.source.url) == opt_text(models@[0].source.url),
        r.version@ == "merged"@,
        r.downloaded_at == now_ms,
        r.updated_at == Some(now_ms),
        r.size_bytes == output_size_bytes,
        opt_text(r.architecture) == opt_text(models@[0].architecture),
        r.parameter_count == Some(#[verifier::truncate] (total_parameters as usize)),
        r.quantization is None,
        r.format is None,
        views(r.tags@) == merged_tag_list(Seq::new(models@.len(), |i: int| models@[i].tags)),
        custom_keys(r.custom_metadata@) == seq!["merge_strategy"@, "source_models"@, "merge_timestamp"@],
        r.custom_metadata@[0].1 == strategy,
        r.custom_metadata@[1].1 == json_string_list(Seq::new(models@.len(), |i: int| models@[i].name@)),
        r.custom_metadata@[2].1 == json_string(timestamp_text@),
        views(r.file_paths@) == seq![output_name@ + ".bin"@],
        opt_text(r.config_path) == Some(output_name@ + "_config.json"@),
        opt_text(r.tokenizer_path) == opt_text(models@[0].tokenizer_path),
{
    let first = &models[0];
    let mut all_tags: Vec<Vec<String>> = Vec::new();
    let mut names: Vec<String> = Vec::new();
    let mut k: usize = 0;
    while k < models.len()
        invariant
            k <= models@.len(),
            all_tags@.len() == k,
            names@.len() == k,
            forall|i: int| 0 <= i < k ==> views(#[trigger] all_tags@[i]@) == views(models@[i].tags@),
            views(names@) == Seq::new(k as nat, |i: int| models@[i].name@),
        decreases models.len() - k,
    {
        let ghost before = all_tags@;
        let ghost names_before = names@;
        all_tags.push(copy_strings(&models[k].tags));
        names.push(text::owned(models[k].name.as_str()));
        proof {
            assert forall|i: int| 0 <= i < k + 1 implies views(#[trigger] all_tags@[i]@) == views(models@[i].tags@) by {
                if i < k {
                    assert(all_tags@[i] == before[i]);
                }
            }
            assert forall|j: int| 0 <= j < k + 1 implies views(names@)[j] == models@[j].name@ by {
                if j < k {
                    assert(names@[j] == names_before[j]);
                    assert(views(names_before)[j] == Seq::new(k as nat, |i: int| models@[i].name@)[j]);
                }
            }
            assert(views(names@) =~= Seq::new((k + 1) as nat, |i: int| models@[i].name@));
        }
        k = k + 1;
    }
    let tags = merged_tags(&all_tags);
    proof {
        lemma_merged_tag_list_views(all_tags@, Seq::new(models@.len(), |i: int| models@[i].tags));
    }
    let suffix = i64_to_decimal(timestamp_secs);
    let id = text::concat2("merged_", suffix.as_str());
    let mut custom: Vec<(String, serde_json::Value)> = Vec::new();
    custom.push((text::owned("merge_strategy"), strategy));
    custom.push((text::owned("source_models"), strings_to_json(names)));
    custom.push((text::owned("merge_timestamp"), string_to_json(text::owned(timestamp_text))));
    proof {
        assert(custom_keys(custom@) =~= seq!["merge_strategy"@, "source_models"@, "merge_timestamp"@]);
    }
    let mut file_paths: Vec<String> = Vec::new();
    file_paths.push(text::concat2(output_name, ".bin"));
    proof {
        assert(views(file_paths@) =~= seq![output_name@ + ".bin"@]);
    }
    ModelMetadata {
        id,
        name: text::owned(output_name),
        source: copy_source(&first.source),
        version: text::owned("merged"),
        downloaded_at: now_ms,
        updated_at: Some(now_ms),
        size_bytes: output_size_bytes,
        architecture: match &first.architecture {
            Some(a) => Some(text::owned(a.as_str())),
            None => None,
        },
        parameter_count: Some(#[verifier::truncate] (total_parameters as usize)),
        quantization: None,
        format: None,
        tags,
        custom_metadata: custom,
        file_paths,
        config_path: Some(text::concat2(output_name, "_config.json")),
        tokenizer_path: match &first.tokenizer_path {
            Some(t) => Some(text::owned(t.as_str())),
            None => None,
        },
    }
}

} // verus!
