//! Model Context Protocol: configuration of the server, the tools it offers and how a
//! request's method names one of them.
use vstd::prelude::*;
use crate::error::FuseError;
use crate::text;

verus! {

/// MCP protocol version.
pub const MCP_VERSION: &'static str = "1.0.0";

/// Configuration for the MCP server.
#[derive(Debug, Clone)]
pub struct McpConfig {
    pub host: String,
    pub port: u16,
    pub auth_required: bool,
    pub allowed_origins: Vec<String>,
    pub max_connections: usize,
    pub request_timeout_secs: u64,
}

impl Default for McpConfig {
    fn default() -> (r: McpConfig)
        ensures
            r.host@ == "127.0.0.1"@,
            r.port == 3000,
            !r.auth_required,
            r.allowed_origins@.len() == 1,
            r.allowed_origins@[0]@ == "*"@,
            r.max_connections == 100,
            r.request_timeout_secs == 30,
    {
        McpConfig {
            host: text::owned("127.0.0.1"),
            port: 3000,
            auth_required: false,
            allowed_origins: vec![text::owned("*")],
            max_connections: 100,
            request_timeout_secs: 30,
        }
    }
}

/// MCP server status.
#[derive(Debug, Clone)]
pub enum McpStatus {
    Running { host: String, port: u16 },
    Stopped,
}

/// The MCP service: its configuration and whether its server runs. Starting and
/// stopping the server itself is the caller's work; it reports the outcome here.
#[derive(Debug)]
pub struct McpService {
    pub config: McpConfig,
    pub running: bool,
}

impl McpService {
    /// A service whose server is not running.
    pub fn new(config: McpConfig) -> (r: McpService)
        ensures
            r.config == config,
            !r.running,
    {
        McpService { config, running: false }
    }

    /// Records that the server was started.
    pub fn mark_started(&mut self)
        ensures
            final(self).running,
            final(self).config == old(self).config,
    {
        self.running = true;
    }

    /// Records that the server was stopped.
    pub fn mark_stopped(&mut self)
        ensures
            !final(self).running,
            final(self).config == old(self).config,
    {
        self.running = false;
    }

    /// Whether the server is running.
    pub fn is_running(&self) -> (r: bool)
        ensures
            r == self.running,
    {
        self.running
    }

    /// The status: running on the configured host and port, or stopped.
    pub fn status(&self) -> (r: McpStatus)
        ensures
            self.running ==> (r matches McpStatus::Running { host, port } && host@
                == self.config.host@ && port == self.config.port),
            !self.running ==> r is Stopped,
    {
        if self.is_running() {
            McpStatus::Running { host: text::owned(self.config.host.as_str()), port: self.config.port }
        } else {
            McpStatus::Stopped
        }
    }
}

/// The MCP tools and their arguments.
#[derive(Debug, Clone)]
pub enum Tool {
    PullModel { model_name: String, source: Option<String> },
    RunInference { model_name: String, prompt: String, max_tokens: Option<u32> },
    ListModels,
    InspectModel { model_name: String },
    QuantizeModel { model_name: String, method: String, format: Option<String> },
    ScanModel { model_name: String },
    MergeModels { models: Vec<String>, strategy: String },
}

/// Which tool a request calls, without its arguments.
#[derive(Debug, Clone, Copy, PartialEq, Eq, Structural)]
pub enum ToolKind {
    PullModel,
    RunInference,
    ListModels,
    InspectModel,
    QuantizeModel,
    ScanModel,
    MergeModels,
}

/// The method name that calls a tool.
pub open spec fn method_of(k: ToolKind) -> Seq<char> {
    match k {
        ToolKind::PullModel => "fuse.pull_model"@,
        ToolKind::RunInference => "fuse.run_inference"@,
        ToolKind::ListModels => "fuse.list_models"@,
        ToolKind::InspectModel => "fuse.inspect_model"@,
        ToolKind::QuantizeModel => "fuse.quantize_model"@,
        ToolKind::ScanModel => "fuse.scan_model"@,
        ToolKind::MergeModels => "fuse.merge_models"@,
    }
}

/// The tools in the order the server advertises them.
pub open spec fn all_tools() -> Seq<ToolKind> {
    seq![
        ToolKind::PullModel,
        ToolKind::RunInference,
        ToolKind::ListModels,
        ToolKind::InspectModel,
        ToolKind::QuantizeModel,
        ToolKind::ScanModel,
        ToolKind::MergeModels,
    ]
}

impl ToolKind {
    /// The method name that calls this tool.
    pub fn method_name(&self) -> (r: &'static str)
        ensures
            r@ == method_of(*self),
    {
        match self {
            ToolKind::PullModel => "fuse.pull_model",
            ToolKind::RunInference => "fuse.run_inference",
            ToolKind::ListModels => "fuse.list_models",
            ToolKind::InspectModel => "fuse.inspect_model",
            ToolKind::QuantizeModel => "fuse.quantize_model",
            ToolKind::ScanModel => "fuse.scan_model",
            ToolKind::MergeModels => "fuse.merge_models",
        }
    }

    /// What the tool does, as the server advertises it.
    pub fn description(&self) -> (r: &'static str)
        ensures
            r@ == description_of(*self),
    {
        match self {
            ToolKind::PullModel => "Pull a model from a registry",
            ToolKind::RunInference => "Run inference with a model",
            ToolKind::ListModels => "List all available models",
            ToolKind::InspectModel => "Inspect model architecture and metadata",
            ToolKind::QuantizeModel => "Quantize a model for efficiency",
            ToolKind::ScanModel => "Scan model for vulnerabilities",
            ToolKind::MergeModels => "Merge multiple models",
        }
    }
}

/// What each tool does, as the server advertises it.
pub open spec fn description_of(k: ToolKind) -> Seq<char> {
    match k {
        ToolKind::PullModel => "Pull a model from a registry"@,
        ToolKind::RunInference => "Run inference with a model"@,
        ToolKind::ListModels => "List all available models"@,
        ToolKind::InspectModel => "Inspect model architecture and metadata"@,
        ToolKind::QuantizeModel => "Quantize a model for efficiency"@,
        ToolKind::ScanModel => "Scan model for vulnerabilities"@,
        ToolKind::MergeModels => "Merge multiple models"@,
    }
}

/// The type of a tool parameter in the advertised schema.
#[derive(Debug, Clone, Copy, PartialEq, Eq, Structural)]
pub enum ParamType {
    String,
    Integer,
    /// An array of strings.
    StringArray,
}

/// One parameter of a tool: its name, its type, and whether it may be left out.
#[derive(Debug, Clone, Copy)]
pub struct ToolParam {
    pub name: &'static str,
    pub param_type: ParamType,
    pub optional: bool,
}

/// The parameters each tool takes, in the order its schema lists them.
pub open spec fn params_of(k: ToolKind) -> Seq<(Seq<char>, ParamType, bool)> {
    match k {
        ToolKind::PullModel => seq![("model_name"@, ParamType::String, false), ("source"@, ParamType::String, true)],
        ToolKind::RunInference => seq![
            ("model_name"@, ParamType::String, false),
            ("prompt"@, ParamType::String, false),
            ("max_tokens"@, ParamType::Integer, true),
        ],
        ToolKind::ListModels => seq![],
        ToolKind::InspectModel => seq![("model_name"@, ParamType::String, false)],
        ToolKind::QuantizeModel => seq![
            ("model_name"@, ParamType::String, false),
            ("method"@, ParamType::String, false),
            ("format"@, ParamType::String, true),
        ],
        ToolKind::ScanModel => seq![("model_name"@, ParamType::String, false)],
        ToolKind::MergeModels => seq![
            ("models"@, ParamType::StringArray, false),
            ("strategy"@, ParamType::String, false),
        ],
    }
}

/// A parameter as the schema lists it.
pub open spec fn param_view(p: ToolParam) -> (Seq<char>, ParamType, bool) {
    (p.name@, p.param_type, p.optional)
}

fn param(name: &'static str, param_type: ParamType, optional: bool) -> (r: ToolParam)
    ensures
        param_view(r) == (name@, param_type, optional),
{
    ToolParam { name, param_type, optional }
}

impl ToolKind {
    /// The parameters of the tool's schema, in order; the required ones are those
    /// that are not optional.
    pub fn parameters(&self) -> (r: Vec<ToolParam>)
        ensures
            r@.map_values(|p: ToolParam| param_view(p)) == params_of(*self),
    {
        let r = match self {
            ToolKind::PullModel => vec![param("model_name", ParamType::String, false), param("source", ParamType::String, true)],
            ToolKind::RunInference => vec![
                param("model_name", ParamType::String, false),
                param("prompt", ParamType::String, false),
                param("max_tokens", ParamType::Integer, true),
            ],
            ToolKind::ListModels => Vec::new(),
            ToolKind::InspectModel => vec![param("model_name", ParamType::String, false)],
            ToolKind::QuantizeModel => vec![
                param("model_name", ParamType::String, false),
                param("method", ParamType::String, false),
                param("format", ParamType::String, true),
            ],
            ToolKind::ScanModel => vec![param("model_name", ParamType::String, false)],
            ToolKind::MergeModels => vec![
                param("models", ParamType::StringArray, false),
                param("strategy", ParamType::String, false),
            ],
        };
        assert(r@.map_values(|p: ToolParam| param_view(p)) =~= params_of(*self));
        r
    }
}

/// The tools the server advertises, in order.
pub fn advertised_tools() -> (r: Vec<ToolKind>)
    ensures
        r@ == all_tools(),
{
    let r = vec![
        ToolKind::PullModel,
        ToolKind::RunInference,
        ToolKind::ListModels,
        ToolKind::InspectModel,
        ToolKind::QuantizeModel,
        ToolKind::ScanModel,
        ToolKind::MergeModels,
    ];
    assert(r@ =~= all_tools());
    r
}

/// The tool a request's method calls; an unknown method is an internal error.
pub fn tool_for_method(method: &str) -> (r: Result<ToolKind, FuseError>)
    ensures
        match r {
            Ok(k) => method_of(k) == method@,
            Err(e) => (forall|k: ToolKind| method_of(k) != method@) && (e matches FuseError::InternalError(m)
                && m@ == "Unknown MCP method: "@ + method@),
        },
{
    let tools = advertised_tools();
    let mut i: usize = 0;
    while i < tools.len()
        invariant
            tools@ == all_tools(),
            i <= tools@.len(),
            forall|j: int| 0 <= j < i ==> method_of(#[trigger] all_tools()[j]) != method@,
        decreases tools.len() - i,
    {
        if text::str_eq(tools[i].method_name(), method) {
            return Ok(tools[i]);
        }
        i = i + 1;
    }
    proof {
        assert forall|k: ToolKind| method_of(k) != method@ by {
            let j: int = match k {
                ToolKind::PullModel => 0,
                ToolKind::RunInference => 1,
                ToolKind::ListModels => 2,
                ToolKind::InspectModel => 3,
                ToolKind::QuantizeModel => 4,
                ToolKind::ScanModel => 5,
                ToolKind::MergeModels => 6,
            };
            assert(all_tools()[j] == k);
        }
    }
    Err(FuseError::InternalError(text::concat2("Unknown MCP method: ", method)))
}

proof fn lemma_method_letter(k: ToolKind)
    ensures
        method_of(k).len() > 5,
        method_of(k)[5] == match k {
            ToolKind::PullModel => 'p',
            ToolKind::RunInference => 'r',
            ToolKind::ListModels => 'l',
            ToolKind::InspectModel => 'i',
            ToolKind::QuantizeModel => 'q',
            ToolKind::ScanModel => 's',
            ToolKind::MergeModels => 'm',
        },
{
    match k {
        ToolKind::PullModel => reveal_strlit("fuse.pull_model"),
        ToolKind::RunInference => reveal_strlit("fuse.run_inference"),
        ToolKind::ListModels => reveal_strlit("fuse.list_models"),
        ToolKind::InspectModel => reveal_strlit("fuse.inspect_model"),
        ToolKind::QuantizeModel => reveal_strlit("fuse.quantize_model"),
        ToolKind::ScanModel => reveal_strlit("fuse.scan_model"),
        ToolKind::MergeModels => reveal_strlit("fuse.merge_models"),
    }
}

/// No two tools share a method name, so a method names at most one tool.
pub proof fn lemma_method_names_distinct(a: ToolKind, b: ToolKind)
    requires
        method_of(a) == method_of(b),
    ensures
        a == b,
{
    lemma_method_letter(a);
    lemma_method_letter(b);
}

} // verus!
