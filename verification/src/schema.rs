//! Types and configuration schema for the Fractal Code integration: cells, scaffolds, channel
//! configurations and the results of constitutional checks.

use crate::json::{Json, JsonView};
use crate::text::texts;
use vstd::prelude::*;

verus! {

/// What the elements of a list stand for.
pub open spec fn views<T: View>(list: Seq<T>) -> Seq<T::V> {
    list.map_values(|x: T| x@)
}

/// What an optional element stands for.
pub open spec fn opt_view<T: View>(o: Option<T>) -> Option<T::V> {
    match o {
        Some(x) => Some(x@),
        None => None,
    }
}

/// A Fractal cell, the fundamental unit of computation.
///
/// Every cell has an identity, input and output schemas, channel declarations, and bare JavaScript
/// logic that executes inside the sandbox.
#[derive(Debug, Clone)]
pub struct FractalCell {
    pub identity: CellIdentity,
    pub contract: CellContract,
    pub channels: Vec<TypedChannelConfig>,
    pub logic: String,
    pub lineage: CellLineage,
    pub signature: Option<String>,
}

#[derive(Debug, Clone)]
pub struct CellIdentity {
    pub name: String,
    pub cell_type: CellType,
    pub version: String,
}

#[derive(Debug, Clone, Copy, PartialEq, Eq, Structural)]
pub enum CellType {
    Transformer,
    Reactor,
    Keeper,
    Channel,
}

#[derive(Debug, Clone)]
pub struct CellContract {
    pub input: Json,
    pub output: Json,
}

#[derive(Debug, Clone)]
pub struct CellLineage {
    pub source: String,
    pub trigger: String,
    pub justification: String,
    pub signature: String,
}

/// A typed channel configuration: it declares what a cell can do, and is the input of the channel
/// mapper.
#[derive(Debug, Clone)]
pub struct TypedChannelConfig {
    pub name: String,
    pub kind: String,
    pub scope: Json,
}

/// Output from executing a single cell.
#[derive(Debug)]
pub struct CellOutput {
    pub data: Json,
    pub classification: ClassificationLevel,
    pub health: CellHealth,
}

#[derive(Debug, Clone, Copy, PartialEq, Eq, Structural)]
pub enum ClassificationLevel {
    Public,
    Internal,
    Pii,
    Secret,
}

#[derive(Debug, Clone, Copy, PartialEq, Eq, Structural)]
pub struct CellHealth {
    pub status: HealthStatus,
    pub budget_remaining: u64,
}

#[derive(Debug, Clone, Copy, PartialEq, Eq, Structural)]
pub enum HealthStatus {
    Healthy,
    Degraded,
    SafeMode,
}

/// A Fractal scaffold: a pipeline of cells connected by channels.
#[derive(Debug, Clone)]
pub struct FractalScaffold {
    pub name: String,
    pub cells: Vec<FractalCell>,
    /// Topological order of cell execution.
    pub execution_order: Vec<String>,
    /// Named pause points for human-in-the-loop review.
    pub pause_after: Vec<String>,
}

/// Constitutional check result, emitted by the prover gate.
#[derive(Debug, Clone)]
pub struct ConstitutionalCheck {
    pub structural_hash: String,
    pub pattern_scan: PatternScanResult,
    pub classification_valid: bool,
    pub declassifier_approved: Option<bool>,
    pub checks_passed: u8,
    pub checks_total: u8,
}

#[derive(Debug, Clone)]
pub struct PatternScanResult {
    pub passed: bool,
    pub violations: Vec<PatternViolation>,
}

#[derive(Debug, Clone)]
pub struct PatternViolation {
    pub pattern: String,
    pub location: Option<String>,
    pub severity: ViolationSeverity,
}

#[derive(Debug, Clone, Copy, PartialEq, Eq, Structural)]
pub enum ViolationSeverity {
    /// Hard constitutional violation: execution must be blocked.
    Block,
    /// Warn but allow.
    Warn,
}

/// Runner configuration.
#[derive(Debug, Clone)]
pub struct FractalConfig {
    pub runtime: RuntimeConfig,
    pub constitution: ConstitutionConfig,
    pub channels: ChannelDefaults,
    pub pipeline_defaults: PipelineDefaults,
}

#[derive(Debug, Clone)]
pub struct RuntimeConfig {
    pub wasm_engine: String,
    pub max_cell_memory_mb: u32,
    pub cell_timeout_secs: u32,
    pub max_pipeline_depth: u32,
}

#[derive(Debug, Clone)]
pub struct ConstitutionConfig {
    pub enabled: bool,
    pub banned_patterns: Vec<String>,
    pub require_signatures: bool,
    pub classification_mode: ClassificationMode,
}

#[derive(Debug, Clone, Copy, PartialEq, Eq, Structural)]
pub enum ClassificationMode {
    Strict,
    Permissive,
    Manual,
}

#[derive(Debug, Clone)]
pub struct ChannelDefaults {
    pub file: Option<FileDefaults>,
    pub http: Option<HttpDefaults>,
    pub git: Option<GitDefaults>,
}

#[derive(Debug, Clone)]
pub struct FileDefaults {
    pub default_allowed_paths: Vec<String>,
    pub max_file_size_bytes: u64,
}

#[derive(Debug, Clone)]
pub struct HttpDefaults {
    pub default_allowed_hosts: Vec<String>,
    pub default_allowed_methods: Vec<String>,
}

#[derive(Debug, Clone)]
pub struct GitDefaults {
    pub allowed_refs: Vec<String>,
    pub protected_refs: Vec<String>,
    pub require_signed_commits: bool,
}

#[derive(Debug, Clone)]
pub struct PipelineDefaults {
    pub auto_resume_on_approval: bool,
    pub store_intermediates: bool,
    pub notify_on_completion: bool,
}

#[verifier::ext_equal]
pub struct IdentityView {
    pub name: Seq<char>,
    pub cell_type: CellType,
    pub version: Seq<char>,
}

#[verifier::ext_equal]
pub struct ContractView {
    pub input: JsonView,
    pub output: JsonView,
}

#[verifier::ext_equal]
pub struct LineageView {
    pub source: Seq<char>,
    pub trigger: Seq<char>,
    pub justification: Seq<char>,
    pub signature: Seq<char>,
}

#[verifier::ext_equal]
pub struct ChannelView {
    pub name: Seq<char>,
    pub kind: Seq<char>,
    pub scope: JsonView,
}

#[verifier::ext_equal]
pub struct CellView {
    pub identity: IdentityView,
    pub contract: ContractView,
    pub channels: Seq<ChannelView>,
    pub logic: Seq<char>,
    pub lineage: LineageView,
    pub signature: Option<Seq<char>>,
}

#[verifier::ext_equal]
pub struct OutputView {
    pub data: JsonView,
    pub classification: ClassificationLevel,
    pub health: CellHealth,
}

#[verifier::ext_equal]
pub struct ScaffoldView {
    pub name: Seq<char>,
    pub cells: Seq<CellView>,
    pub execution_order: Seq<Seq<char>>,
    pub pause_after: Seq<Seq<char>>,
}

#[verifier::ext_equal]
pub struct ViolationView {
    pub pattern: Seq<char>,
    pub location: Option<Seq<char>>,
    pub severity: ViolationSeverity,
}

#[verifier::ext_equal]
pub struct ScanView {
    pub passed: bool,
    pub violations: Seq<ViolationView>,
}

#[verifier::ext_equal]
pub struct CheckView {
    pub structural_hash: Seq<char>,
    pub pattern_scan: ScanView,
    pub classification_valid: bool,
    pub declassifier_approved: Option<bool>,
    pub checks_passed: u8,
    pub checks_total: u8,
}

impl View for CellIdentity {
    type V = IdentityView;

    open spec fn view(&self) -> IdentityView {
        IdentityView { name: self.name@, cell_type: self.cell_type, version: self.version@ }
    }
}

impl View for CellContract {
    type V = ContractView;

    open spec fn view(&self) -> ContractView {
        ContractView { input: self.input@, output: self.output@ }
    }
}

impl View for CellLineage {
    type V = LineageView;

    open spec fn view(&self) -> LineageView {
        LineageView {
            source: self.source@,
            trigger: self.trigger@,
            justification: self.justification@,
            signature: self.signature@,
        }
    }
}

impl View for TypedChannelConfig {
    type V = ChannelView;

    open spec fn view(&self) -> ChannelView {
        ChannelView { name: self.name@, kind: self.kind@, scope: self.scope@ }
    }
}

impl View for FractalCell {
    type V = CellView;

    open spec fn view(&self) -> CellView {
        CellView {
            identity: self.identity@,
            contract: self.contract@,
            channels: views(self.channels@),
            logic: self.logic@,
            lineage: self.lineage@,
            signature: opt_view(self.signature),
        }
    }
}

impl View for CellOutput {
    type V = OutputView;

    open spec fn view(&self) -> OutputView {
        OutputView {
            data: self.data@,
            classification: self.classification,
            health: self.health,
        }
    }
}

impl View for FractalScaffold {
    type V = ScaffoldView;

    open spec fn view(&self) -> ScaffoldView {
        ScaffoldView {
            name: self.name@,
            cells: views(self.cells@),
            execution_order: texts(self.execution_order@),
            pause_after: texts(self.pause_after@),
        }
    }
}

impl View for PatternViolation {
    type V = ViolationView;

    open spec fn view(&self) -> ViolationView {
        ViolationView {
            pattern: self.pattern@,
            location: opt_view(self.location),
            severity: self.severity,
        }
    }
}

impl View for PatternScanResult {
    type V = ScanView;

    open spec fn view(&self) -> ScanView {
        ScanView { passed: self.passed, violations: views(self.violations@) }
    }
}

impl View for ConstitutionalCheck {
    type V = CheckView;

    open spec fn view(&self) -> CheckView {
        CheckView {
            structural_hash: self.structural_hash@,
            pattern_scan: self.pattern_scan@,
            classification_valid: self.classification_valid,
            declassifier_approved: self.declassifier_approved,
            checks_passed: self.checks_passed,
            checks_total: self.checks_total,
        }
    }
}

impl Clone for CellOutput {
    fn clone(&self) -> (r: CellOutput)
        ensures
            r@ == self@,
    {
        CellOutput {
            data: self.data.clone(),
            classification: self.classification,
            health: self.health,
        }
    }
}

impl ClassificationLevel {
    /// How sensitive a level is.
    pub open spec fn spec_rank(self) -> u8 {
        match self {
            ClassificationLevel::Public => 0,
            ClassificationLevel::Internal => 1,
            ClassificationLevel::Pii => 2,
            ClassificationLevel::Secret => 3,
        }
    }

    /// How sensitive a level is, from 0 for public to 3 for secret.
    pub fn rank(&self) -> (r: u8)
        ensures
            r == self.spec_rank(),
    {
        match self {
            ClassificationLevel::Public => 0,
            ClassificationLevel::Internal => 1,
            ClassificationLevel::Pii => 2,
            ClassificationLevel::Secret => 3,
        }
    }

    /// Whether a level is at least as sensitive as another.
    pub open spec fn spec_dominates(self, other: ClassificationLevel) -> bool {
        self.spec_rank() >= other.spec_rank()
    }

    /// Taint inheritance: an output level must be at least the highest input level.
    pub fn dominates(&self, other: &ClassificationLevel) -> (r: bool)
        ensures
            r == self.spec_dominates(*other),
    {
        self.rank() >= other.rank()
    }

    /// How a schema tags data of the level.
    pub open spec fn spec_tag(self) -> Seq<char> {
        match self {
            ClassificationLevel::Public => "<public>"@,
            ClassificationLevel::Internal => "<internal>"@,
            ClassificationLevel::Pii => "<pii>"@,
            ClassificationLevel::Secret => "<secret>"@,
        }
    }

    /// How a schema tags data of the level.
    pub fn tag(&self) -> (r: &'static str)
        ensures
            r@ == self.spec_tag(),
    {
        match self {
            ClassificationLevel::Public => "<public>",
            ClassificationLevel::Internal => "<internal>",
            ClassificationLevel::Pii => "<pii>",
            ClassificationLevel::Secret => "<secret>",
        }
    }

    /// The name of the level.
    pub open spec fn spec_name(self) -> Seq<char> {
        match self {
            ClassificationLevel::Public => "Public"@,
            ClassificationLevel::Internal => "Internal"@,
            ClassificationLevel::Pii => "Pii"@,
            ClassificationLevel::Secret => "Secret"@,
        }
    }

    /// The name of the level.
    pub fn name(&self) -> (r: &'static str)
        ensures
            r@ == self.spec_name(),
    {
        match self {
            ClassificationLevel::Public => "Public",
            ClassificationLevel::Internal => "Internal",
            ClassificationLevel::Pii => "Pii",
            ClassificationLevel::Secret => "Secret",
        }
    }
}

impl CellType {
    /// The name of the cell type.
    pub open spec fn spec_name(self) -> Seq<char> {
        match self {
            CellType::Transformer => "Transformer"@,
            CellType::Reactor => "Reactor"@,
            CellType::Keeper => "Keeper"@,
            CellType::Channel => "Channel"@,
        }
    }

    /// The name of the cell type.
    pub fn name(&self) -> (r: &'static str)
        ensures
            r@ == self.spec_name(),
    {
        match self {
            CellType::Transformer => "Transformer",
            CellType::Reactor => "Reactor",
            CellType::Keeper => "Keeper",
            CellType::Channel => "Channel",
        }
    }

    /// The tag of the cell type in documents.
    pub open spec fn spec_tag(self) -> Seq<char> {
        match self {
            CellType::Transformer => "transformer"@,
            CellType::Reactor => "reactor"@,
            CellType::Keeper => "keeper"@,
            CellType::Channel => "channel"@,
        }
    }

    /// The tag of the cell type in documents.
    pub fn tag(&self) -> (r: &'static str)
        ensures
            r@ == self.spec_tag(),
    {
        match self {
            CellType::Transformer => "transformer",
            CellType::Reactor => "reactor",
            CellType::Keeper => "keeper",
            CellType::Channel => "channel",
        }
    }
}

impl ViolationSeverity {
    /// The name of the severity.
    pub open spec fn spec_name(self) -> Seq<char> {
        match self {
            ViolationSeverity::Block => "Block"@,
            ViolationSeverity::Warn => "Warn"@,
        }
    }

    /// The name of the severity.
    pub fn name(&self) -> (r: &'static str)
        ensures
            r@ == self.spec_name(),
    {
        match self {
            ViolationSeverity::Block => "Block",
            ViolationSeverity::Warn => "Warn",
        }
    }
}

impl Default for ClassificationMode {
    fn default() -> (r: ClassificationMode)
        ensures
            r == ClassificationMode::Strict,
    {
        ClassificationMode::Strict
    }
}

/// The default of a switch that is on unless it is turned off.
pub fn default_true() -> (r: bool)
    ensures
        r,
{
    true
}

/// The default WebAssembly engine.
pub fn default_wasm_engine() -> (r: String)
    ensures
        r@ == "wasmtime"@,
{
    "wasmtime".to_owned()
}

/// The default memory of a cell, in megabytes.
pub fn default_max_memory() -> (r: u32)
    ensures
        r == 256,
{
    256
}

/// The default time a cell may take, in seconds.
pub fn default_timeout() -> (r: u32)
    ensures
        r == 300,
{
    300
}

/// The default depth of a pipeline.
pub fn default_max_depth() -> (r: u32)
    ensures
        r == 20,
{
    20
}

} // verus!
