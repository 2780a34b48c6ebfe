//! Layer-level model tooling: layer listings, checks on layer edits, validation
//! reports and the formats reports are written in.
use vstd::prelude::*;
use crate::error::FuseError;
use crate::text::{self, has_substring, lowercase};

pub mod report;
pub mod sizes;

verus! {

/// One layer of a model.
#[derive(Debug, Clone)]
pub struct LayerInfo {
    pub id: String,
    pub name: String,
    pub layer_type: String,
    pub size_bytes: u64,
    pub parameters: u64,
    pub input_shape: Vec<usize>,
    pub output_shape: Vec<usize>,
    pub activation: Option<String>,
    pub trainable: bool,
    pub position: usize,
}

impl LayerInfo {
    /// The layer's size in the largest binary unit it reaches (B, KB, MB, GB),
    /// with two decimals from KB on.
    pub fn format_size(&self) -> (r: String)
        ensures
            r@ == sizes::size_text(self.size_bytes as nat),
    {
        sizes::format_size_text(self.size_bytes)
    }
}

/// Lists the layers of a model.
pub struct LayerInspector;

impl LayerInspector {
    pub fn new() -> LayerInspector {
        LayerInspector
    }

    /// The layer listing reported while real inspection is not available: an
    /// embedding, two transformer blocks and an output head.
    pub fn generate_mock_layers(&self, wide: bool) -> (r: Vec<LayerInfo>)
        ensures
            r@.len() == 4,
            forall|i: int| 0 <= i < 4 ==> #[trigger] r@[i].position == i && r@[i].trainable,
            r@[0].size_bytes == 512_000_000 && r@[0].parameters == 128_000_000,
            r@[1].size_bytes == 1_024_000_000 && r@[1].parameters == 256_000_000,
            r@[2].size_bytes == 1_024_000_000 && r@[2].parameters == 256_000_000,
            r@[3].size_bytes == 256_000_000 && r@[3].parameters == 64_000_000,
    {
        vec![
            LayerInfo {
                id: text::owned("layer_0"),
                name: text::owned("embedding"),
                layer_type: text::owned("Embedding"),
                size_bytes: 512_000_000,
                parameters: 128_000_000,
                input_shape: vec![1, 512],
                output_shape: vec![1, 512, 768],
                activation: None,
                trainable: true,
                position: 0,
            },
            LayerInfo {
                id: text::owned("layer_1"),
                name: text::owned("transformer_0"),
                layer_type: text::owned("TransformerBlock"),
                size_bytes: 1_024_000_000,
                parameters: 256_000_000,
                input_shape: vec![1, 512, 768],
                output_shape: vec![1, 512, 768],
                activation: Some(text::owned("GELU")),
                trainable: true,
                position: 1,
            },
            LayerInfo {
                id: text::owned("layer_2"),
                name: text::owned("transformer_1"),
                layer_type: text::owned("TransformerBlock"),
                size_bytes: 1_024_000_000,
                parameters: 256_000_000,
                input_shape: vec![1, 512, 768],
                output_shape: vec![1, 512, 768],
                activation: Some(text::owned("GELU")),
                trainable: true,
                position: 2,
            },
            LayerInfo {
                id: text::owned("layer_3"),
                name: text::owned("output_head"),
                layer_type: text::owned("Linear"),
                size_bytes: 256_000_000,
                parameters: 64_000_000,
                input_shape: vec![1, 512, 768],
                output_shape: vec![1, 512, 50257],
                activation: None,
                trainable: true,
                position: 3,
            },
        ]
    }
}

impl Default for LayerInspector {
    fn default() -> LayerInspector {
        LayerInspector::new()
    }
}

/// Kinds of layer that can be added.
#[derive(Debug, Clone, Copy, PartialEq, Eq, Structural)]
pub enum LayerType {
    GeoRestriction,
    ContentFilter,
    Custom,
}

/// Configuration of a layer to add. Of its parameters the checks read only whether
/// they form an object and, if so, its keys.
#[derive(Debug, Clone)]
pub struct LayerConfig {
    pub name: String,
    /// The keys of the parameter object; `None` when the parameters are not an object.
    pub parameter_keys: Option<Vec<String>>,
}

pub open spec fn has_key(keys: Seq<String>, k: Seq<char>) -> bool {
    exists|i: int| 0 <= i < keys.len() && #[trigger] keys[i]@ == k
}

/// Whether some key is `k`.
fn contains_key(keys: &Vec<String>, k: &str) -> (r: bool)
    ensures
        r == has_key(keys@, k@),
{
    let mut i: usize = 0;
    while i < keys.len()
        invariant
            i <= keys@.len(),
            forall|j: int| 0 <= j < i ==> #[trigger] keys@[j]@ != k@,
        decreases keys.len() - i,
    {
        if text::str_eq(keys[i].as_str(), k) {
            return true;
        }
        i = i + 1;
    }
    false
}

/// The message a layer configuration is refused with, if any.
pub open spec fn config_problem(t: LayerType, c: LayerConfig) -> Option<Seq<char>> {
    match t {
        LayerType::GeoRestriction => match c.parameter_keys {
            None => Some("Geo-restriction config must be an object"@),
            Some(k) => if !has_key(k@, "allowed_countries"@) && !has_key(k@, "blocked_countries"@) {
                Some("Geo-restriction must specify allowed_countries or blocked_countries"@)
            } else {
                None
            },
        },
        LayerType::ContentFilter => match c.parameter_keys {
            None => Some("Content filter config must be an object"@),
            Some(k) => if !has_key(k@, "filter_rules"@) {
                Some("Content filter must specify filter_rules"@)
            } else {
                None
            },
        },
        LayerType::Custom => if c.name@.len() == 0 {
            Some("Custom layer must have a name"@)
        } else {
            None
        },
    }
}

/// Adds and removes layers.
pub struct LayerManipulator;

impl LayerManipulator {
    pub fn new() -> LayerManipulator {
        LayerManipulator
    }

    /// Checks a layer configuration: geo-restriction needs an object with
    /// `allowed_countries` or `blocked_countries`, a content filter an object with
    /// `filter_rules`, a custom layer a name.
    pub fn validate_layer_config(&self, layer_type: &LayerType, config: &LayerConfig) -> (r: Result<
        (),
        FuseError,
    >)
        ensures
            match config_problem(*layer_type, *config) {
                None => r is Ok,
                Some(m) => r matches Err(FuseError::ValidationError(e)) && e@ == m,
            },
    {
        match layer_type {
            LayerType::GeoRestriction => match &config.parameter_keys {
                None => Err(
                    FuseError::ValidationError(text::owned("Geo-restriction config must be an object")),
                ),
                Some(keys) => {
                    if !contains_key(keys, "allowed_countries") && !contains_key(
                        keys,
                        "blocked_countries",
                    ) {
                        Err(
                            FuseError::ValidationError(
                                text::owned(
                                    "Geo-restriction must specify allowed_countries or blocked_countries",
                                ),
                            ),
                        )
                    } else {
                        Ok(())
                    }
                },
            },
            LayerType::ContentFilter => match &config.parameter_keys {
                None => Err(
                    FuseError::ValidationError(text::owned("Content filter config must be an object")),
                ),
                Some(keys) => {
                    if !contains_key(keys, "filter_rules") {
                        Err(
                            FuseError::ValidationError(
                                text::owned("Content filter must specify filter_rules"),
                            ),
                        )
                    } else {
                        Ok(())
                    }
                },
            },
            LayerType::Custom => {
                if config.name.as_str().is_empty() {
                    Err(FuseError::ValidationError(text::owned("Custom layer must have a name")))
                } else {
                    Ok(())
                }
            },
        }
    }

    /// Checks that a layer may be removed: embeddings and output layers may not.
    pub fn validate_layer_removal(&self, layer_id: &str) -> (r: Result<(), FuseError>)
        ensures
            (has_substring(layer_id@, "embedding"@) || has_substring(layer_id@, "output"@)) ==> (r matches Err(
                FuseError::ValidationError(m),
            ) && m@ == "Cannot remove critical layer: "@ + layer_id@),
            !(has_substring(layer_id@, "embedding"@) || has_substring(layer_id@, "output"@)) ==> r is Ok,
    {
        if text::contains(layer_id, "embedding") || text::contains(layer_id, "output") {
            Err(FuseError::ValidationError(text::concat2("Cannot remove critical layer: ", layer_id)))
        } else {
            Ok(())
        }
    }
}

impl Default for LayerManipulator {
    fn default() -> LayerManipulator {
        LayerManipulator::new()
    }
}

/// Severity of a validation issue.
#[derive(Debug, Clone, Copy, PartialEq, Eq, Structural)]
pub enum IssueSeverity {
    Error,
    Warning,
    Info,
}

/// One finding of a validation.
#[derive(Debug, Clone)]
pub struct ValidationIssue {
    pub severity: IssueSeverity,
    pub layer_id: Option<String>,
    pub message: String,
    pub suggestion: Option<String>,
}

/// The outcome of validating a model.
#[derive(Debug, Clone)]
pub struct ValidationReport {
    pub model_name: String,
    pub is_valid: bool,
    pub issues: Vec<ValidationIssue>,
    pub layer_count: usize,
    pub total_parameters: u64,
    pub total_size_bytes: u64,
    pub architecture_valid: bool,
    pub tensor_shapes_valid: bool,
    pub connections_valid: bool,
}

/// How many issues have a severity.
pub open spec fn count_severity(s: Seq<ValidationIssue>, sev: IssueSeverity) -> nat
    decreases s.len(),
{
    if s.len() == 0 {
        0
    } else {
        count_severity(s.drop_last(), sev) + if s.last().severity == sev {
            1nat
        } else {
            0nat
        }
    }
}

proof fn lemma_count_bound(s: Seq<ValidationIssue>, sev: IssueSeverity)
    ensures
        count_severity(s, sev) <= s.len(),
    decreases s.len(),
{
    if s.len() > 0 {
        lemma_count_bound(s.drop_last(), sev);
    }
}

fn count_of(issues: &Vec<ValidationIssue>, sev: IssueSeverity) -> (r: usize)
    ensures
        r == count_severity(issues@, sev),
{
    let mut n: usize = 0;
    let mut i: usize = 0;
    while i < issues.len()
        invariant
            i <= issues@.len(),
            n == count_severity(issues@.take(i as int), sev),
        decreases issues.len() - i,
    {
        assert(issues@.take(i + 1).drop_last() =~= issues@.take(i as int));
        proof {
            lemma_count_bound(issues@.take(i as int), sev);
        }
        if issues[i].severity == sev {
            n = n + 1;
        }
        i = i + 1;
    }
    assert(issues@.take(issues@.len() as int) =~= issues@);
    n
}

impl ValidationReport {
    /// The model's total size in MB, or in GB from 1 GB on, with two decimals.
    pub fn format_size(&self) -> (r: String)
        ensures
            r@ == sizes::large_size_text(self.total_size_bytes as nat),
    {
        sizes::format_large_size_text(self.total_size_bytes)
    }

    /// Issues of severity `Error`.
    pub fn error_count(&self) -> (r: usize)
        ensures
            r == count_severity(self.issues@, IssueSeverity::Error),
    {
        count_of(&self.issues, IssueSeverity::Error)
    }

    /// Issues of severity `Warning`.
    pub fn warning_count(&self) -> (r: usize)
        ensures
            r == count_severity(self.issues@, IssueSeverity::Warning),
    {
        count_of(&self.issues, IssueSeverity::Warning)
    }
}

fn info_issue(message: &str) -> (r: ValidationIssue)
    ensures
        r.severity == IssueSeverity::Info,
        r.message@ == message@,
        r.layer_id is None,
        r.suggestion is None,
{
    ValidationIssue {
        severity: IssueSeverity::Info,
        layer_id: None,
        message: text::owned(message),
        suggestion: None,
    }
}

/// Validates models.
pub struct ModelValidator;

impl ModelValidator {
    pub fn new() -> ModelValidator {
        ModelValidator
    }

    /// The architecture check: it passes, noting so.
    fn validate_architecture(&self, issues: &mut Vec<ValidationIssue>) -> (r: bool)
        ensures
            r,
            final(issues)@.len() == old(issues)@.len() + 1,
            final(issues)@.drop_last() == old(issues)@,
            final(issues)@.last().severity == IssueSeverity::Info,
            final(issues)@.last().message@ == "Architecture validation passed"@,
            final(issues)@.last().layer_id is None && final(issues)@.last().suggestion is None,
    {
        issues.push(info_issue("Architecture validation passed"));
        assert(issues@.drop_last() =~= old(issues)@);
        true
    }

    /// The tensor shape check: it passes, noting so.
    fn validate_tensor_shapes(&self, issues: &mut Vec<ValidationIssue>) -> (r: bool)
        ensures
            r,
            final(issues)@.len() == old(issues)@.len() + 1,
            final(issues)@.drop_last() == old(issues)@,
            final(issues)@.last().severity == IssueSeverity::Info,
            final(issues)@.last().message@ == "Tensor shape validation passed"@,
            final(issues)@.last().layer_id is None && final(issues)@.last().suggestion is None,
    {
        issues.push(info_issue("Tensor shape validation passed"));
        assert(issues@.drop_last() =~= old(issues)@);
        true
    }

    /// The connection check: it passes, noting so.
    fn validate_connections(&self, issues: &mut Vec<ValidationIssue>) -> (r: bool)
        ensures
            r,
            final(issues)@.len() == old(issues)@.len() + 1,
            final(issues)@.drop_last() == old(issues)@,
            final(issues)@.last().severity == IssueSeverity::Info,
            final(issues)@.last().message@ == "Connection validation passed"@,
            final(issues)@.last().layer_id is None && final(issues)@.last().suggestion is None,
    {
        issues.push(info_issue("Connection validation passed"));
        assert(issues@.drop_last() =~= old(issues)@);
        true
    }

    /// The report on a model file that exists. Architecture, tensor shapes and
    /// connections pass with an informational issue each; the model is valid when
    /// all three pass and no issue is an error. `file_name` is the file's name, if it
    /// has one in UTF-8.
    pub fn validate_existing(&self, file_name: Option<&str>) -> (r: ValidationReport)
        ensures
            r.model_name@ == match file_name {
                Some(n) => n@,
                None => "unknown"@,
            },
            r.issues@.len() == 3,
            forall|i: int| 0 <= i < 3 ==> #[trigger] r.issues@[i].severity == IssueSeverity::Info,
            r.issues@[0].message@ == "Architecture validation passed"@,
            r.issues@[1].message@ == "Tensor shape validation passed"@,
            r.issues@[2].message@ == "Connection validation passed"@,
            forall|i: int| 0 <= i < 3 ==> (#[trigger] r.issues@[i]).layer_id is None && r.issues@[i].suggestion is None,
            r.architecture_valid && r.tensor_shapes_valid && r.connections_valid,
            r.is_valid == (r.architecture_valid && r.tensor_shapes_valid && r.connections_valid
                && count_severity(r.issues@, IssueSeverity::Error) == 0),
            r.layer_count == 4,
            r.total_parameters == 704_000_000,
            r.total_size_bytes == 2_816_000_000,
    {
        let mut issues: Vec<ValidationIssue> = Vec::new();
        let architecture_valid = self.validate_architecture(&mut issues);
        let tensor_shapes_valid = self.validate_tensor_shapes(&mut issues);
        let connections_valid = self.validate_connections(&mut issues);
        let errors = count_of(&issues, IssueSeverity::Error);
        let is_valid = architecture_valid && tensor_shapes_valid && connections_valid && errors == 0;
        let name = match file_name {
            Some(n) => text::owned(n),
            None => text::owned("unknown"),
        };
        ValidationReport {
            model_name: name,
            is_valid,
            issues,
            layer_count: 4,
            total_parameters: 704_000_000,
            total_size_bytes: 2_816_000_000,
            architecture_valid,
            tensor_shapes_valid,
            connections_valid,
        }
    }
}

impl Default for ModelValidator {
    fn default() -> ModelValidator {
        ModelValidator::new()
    }
}

/// Formats a report is written in.
#[derive(Debug, Clone, Copy, PartialEq, Eq, Structural)]
pub enum ReportFormat {
    AsciiTable,
    Json,
    Html,
    Markdown,
}

/// The format a (lowercase) name selects.
pub open spec fn format_named(s: Seq<char>) -> Option<ReportFormat> {
    if s == "ascii"@ || s == "table"@ {
        Some(ReportFormat::AsciiTable)
    } else if s == "json"@ {
        Some(ReportFormat::Json)
    } else if s == "html"@ {
        Some(ReportFormat::Html)
    } else if s == "md"@ || s == "markdown"@ {
        Some(ReportFormat::Markdown)
    } else {
        None
    }
}

pub open spec fn extension_of(f: ReportFormat) -> Seq<char> {
    match f {
        ReportFormat::AsciiTable => "txt"@,
        ReportFormat::Json => "json"@,
        ReportFormat::Html => "html"@,
        ReportFormat::Markdown => "md"@,
    }
}

/// Reading back the extension of a format gives the format, for every format whose
/// extension is also one of its names (all but the ASCII table, written as `txt`,
/// which names no format).
pub proof fn lemma_extension_round_trip(f: ReportFormat)
    ensures
        text::ascii_only(extension_of(f)),
        format_named(text::ascii_lower(extension_of(f))) == if f == ReportFormat::AsciiTable {
            None
        } else {
            Some(f)
        },
{
    reveal_strlit("txt");
    reveal_strlit("json");
    reveal_strlit("html");
    reveal_strlit("md");
    reveal_strlit("ascii");
    reveal_strlit("table");
    reveal_strlit("markdown");
    let e = extension_of(f);
    text::lemma_ascii_lower_keeps(e);
    assert(text::ascii_lower(e) == e);
    assert("html"@[0] != "json"@[0]);
}

impl ReportFormat {
    /// The format a name selects, in any case.
    pub fn parse_format(s: &str) -> (r: Option<ReportFormat>)
        ensures
            r == format_named(lowercase(s@)),
            text::ascii_only(s@) ==> r == format_named(text::ascii_lower(s@)),
    {
        let l = text::to_lowercase(s);
        let l = l.as_str();
        if text::str_eq(l, "ascii") || text::str_eq(l, "table") {
            Some(ReportFormat::AsciiTable)
        } else if text::str_eq(l, "json") {
            Some(ReportFormat::Json)
        } else if text::str_eq(l, "html") {
            Some(ReportFormat::Html)
        } else if text::str_eq(l, "md") || text::str_eq(l, "markdown") {
            Some(ReportFormat::Markdown)
        } else {
            None
        }
    }

    /// The file extension of the format.
    pub fn extension(&self) -> (r: &'static str)
        ensures
            r@ == extension_of(*self),
    {
        match self {
            ReportFormat::AsciiTable => "txt",
            ReportFormat::Json => "json",
            ReportFormat::Html => "html",
            ReportFormat::Markdown => "md",
        }
    }
}

/// Writes reports under a workspace's `.fuse/report` directory.
pub struct ReportGenerator {
    pub report_dir: String,
}

impl ReportGenerator {
    /// A generator for the workspace at `workspace_dir`.
    pub fn new(workspace_dir: &str) -> (r: Result<ReportGenerator, FuseError>)
        ensures
            r matches Ok(g) && g.report_dir@ == text::joined(workspace_dir@, ".fuse/report"@),
    {
        Ok(ReportGenerator { report_dir: text::join_path(workspace_dir, ".fuse/report") })
    }

    /// The file name of a saved report: `{model}_{kind}.{extension}`, where the
    /// kind is `layers` for inspections and `validation` for validations.
    pub fn report_file_name(model_name: &str, inspection: bool, format: ReportFormat) -> (r: String)
        ensures
            r@ == model_name@ + (if inspection {
                "_layers."@
            } else {
                "_validation."@
            }) + extension_of(format),
    {
        let kind = if inspection {
            "_layers."
        } else {
            "_validation."
        };
        text::concat3(model_name, kind, format.extension())
    }
}

/// The layer tools together.
pub struct LayerService {
    pub inspector: LayerInspector,
    pub manipulator: LayerManipulator,
    pub validator: ModelValidator,
    pub report_generator: ReportGenerator,
}

impl LayerService {
    pub fn new(workspace_dir: &str) -> (r: Result<LayerService, FuseError>)
        ensures
            r matches Ok(s) && s.report_generator.report_dir@ == text::joined(
                workspace_dir@,
                ".fuse/report"@,
            ),
    {
        let report_generator = ReportGenerator::new(workspace_dir)?;
        Ok(
            LayerService {
                inspector: LayerInspector::new(),
                manipulator: LayerManipulator::new(),
                validator: ModelValidator::new(),
                report_generator,
            },
        )
    }
}

} // verus!
