//! Response programs: typed, bounded actor programs and their validation.
use vstd::prelude::*;
use crate::contracts::{AtomValueType, ResponseValueSelector, SemanticRole};
use crate::text::utf8;

verus! {

pub const MAX_PROJECT_STATUS_CODE: u64 = 1_000_000;
pub const MAX_UNIQUE_CONSENSUS_VARIANTS: usize = 64;
pub const MAX_CONSENSUS_LAYOUTS: usize = 16;
pub const MAX_RESPONSE_RENDER_SEGMENTS: usize = 64;
pub const MAX_RESPONSE_RENDER_DYNAMIC_SEGMENTS: usize = 64;
pub const MAX_ADAPTER_WAVE_CELLS: usize = 32;
pub const MAX_ADAPTER_WAVE_SUBCENTERS: usize = 16;
pub const MAX_ADAPTER_WAVE_EXACT_BUDGET: usize = 16;
pub const MAX_ADAPTER_WAVE_ANCHOR_ATOMS: usize = 32;
pub const MAX_ADAPTER_WAVE_FINGERPRINTS: usize = 64;

/// The schema of every response program.
pub const RESPONSE_PROGRAM_SCHEMA: &'static str = "nando.response-program.v1";

#[derive(Debug, PartialEq, Eq)]
pub struct ResponseAdapterWaveSubcenter {
    pub center_delta_micro: Vec<i32>,
    pub threshold_micro: i64,
}

#[derive(Debug, PartialEq, Eq)]
pub struct ResponseAdapterWaveRoute {
    pub cells: u16,
    pub center_delta_micro: Vec<i32>,
    pub threshold_micro: i64,
    pub anchor_atom_ids: Vec<u64>,
    pub positive_fingerprint_ids: Vec<u64>,
    pub subcenters: Vec<ResponseAdapterWaveSubcenter>,
}

#[derive(Debug, PartialEq, Eq)]
pub struct ResponseAdapterWaveConsensus {
    pub routes: Vec<ResponseAdapterWaveRoute>,
    pub exact_budget: u16,
}

#[derive(Debug, PartialEq, Eq)]
pub struct ResponseConsensusVariant {
    pub program: ResponseProgram,
    pub allowed_layout_sha256: Vec<String>,
    pub required_request_atom_ids: Vec<u64>,
}

#[derive(Debug, PartialEq, Eq)]
pub enum ResponseArgument {
    Role { name: String, role: SemanticRole, value_type: Option<AtomValueType> },
    Integer { name: String, value: u64 },
    String { name: String, value: String },
    Boolean { name: String, value: bool },
}

#[derive(Debug, PartialEq, Eq, PartialOrd, Ord)]
pub enum CustomToolResultProjection {
    OutputField { output_field: String },
    OutputAndContinuation { output_field: String, continuation_field: String, continuation_prefix: String },
    JsonStringifyResult,
}

#[derive(Clone, Copy, Debug, PartialEq, Eq, PartialOrd, Ord, Hash, Structural)]
pub enum ValueProjectionFormat {
    PlainText,
    CanonicalJson,
}

#[derive(Debug, PartialEq, Eq, PartialOrd, Ord)]
pub enum CollectionOutputRenderer {
    Direct,
    RenderTemplate { prefix: String, suffix: String },
    RenderSequence { segments: Vec<ResponseRenderSegment> },
    RequestTemplate { marker: RequestTemplateMarker },
}

impl CollectionOutputRenderer {
    pub fn is_direct(&self) -> (r: bool)
        ensures
            r == (*self is Direct),
    {
        matches!(self, CollectionOutputRenderer::Direct)
    }
}

impl Default for CollectionOutputRenderer {
    fn default() -> (r: Self)
        ensures
            r is Direct,
    {
        CollectionOutputRenderer::Direct
    }
}

#[derive(Clone, Copy, Debug, PartialEq, Eq, PartialOrd, Ord, Hash, Structural)]
pub enum RequestTemplateMarker {
    BracedValue,
    BracedResult,
    BracedCount,
    BracedStatus,
    BracedItems,
    DoubleBracedValue,
    AngleValue,
    AngleResult,
    PercentS,
}

pub open spec fn spec_marker_token(m: RequestTemplateMarker) -> &'static str {
    match m {
        RequestTemplateMarker::BracedValue => "{value}",
        RequestTemplateMarker::BracedResult => "{result}",
        RequestTemplateMarker::BracedCount => "{count}",
        RequestTemplateMarker::BracedStatus => "{status}",
        RequestTemplateMarker::BracedItems => "{items}",
        RequestTemplateMarker::DoubleBracedValue => "{{value}}",
        RequestTemplateMarker::AngleValue => "<value>",
        RequestTemplateMarker::AngleResult => "<result>",
        RequestTemplateMarker::PercentS => "%s",
    }
}

impl RequestTemplateMarker {
    /// The placeholder text that the marker stands for in a request template.
    pub fn token(self) -> (r: &'static str)
        ensures
            r == spec_marker_token(self),
    {
        match self {
            RequestTemplateMarker::BracedValue => "{value}",
            RequestTemplateMarker::BracedResult => "{result}",
            RequestTemplateMarker::BracedCount => "{count}",
            RequestTemplateMarker::BracedStatus => "{status}",
            RequestTemplateMarker::BracedItems => "{items}",
            RequestTemplateMarker::DoubleBracedValue => "{{value}}",
            RequestTemplateMarker::AngleValue => "<value>",
            RequestTemplateMarker::AngleResult => "<result>",
            RequestTemplateMarker::PercentS => "%s",
        }
    }
}

#[derive(Debug, PartialEq, Eq, PartialOrd, Ord)]
pub enum ResponseRenderSegment {
    Static { text: String },
    Primary,
    Selected { selector: ResponseValueSelector, format: ValueProjectionFormat },
}

#[derive(Debug, PartialEq, Eq, PartialOrd, Ord)]
pub enum ResponseScalarLiteral {
    String(String),
    Integer(i64),
    Boolean(bool),
    Null,
}

#[derive(Clone, Copy, Debug, PartialEq, Eq, PartialOrd, Ord, Hash, Structural)]
pub enum CollectionScalarType {
    String,
    Integer,
    Boolean,
}

#[derive(Clone, Copy, Debug, PartialEq, Eq, PartialOrd, Ord, Hash, Structural)]
pub enum CollectionAggregateOperation {
    Sum,
    Min,
    Max,
}

#[derive(Debug, PartialEq, Eq, PartialOrd, Ord)]
pub enum CollectionProgramStep {
    SelectTurnOutput { output_ordinal: u16 },
    SelectOnlyArrayField,
    SelectField { field: String },
    FilterUniqueFieldEquals { value: ResponseScalarLiteral },
    FilterUniqueFieldEqualsRequestValue { value_type: CollectionScalarType },
    FilterUniqueFieldEqualsSelectedValue { selector: ResponseValueSelector, value_type: CollectionScalarType },
    FilterFieldEquals { field: String, value: ResponseScalarLiteral },
    ProjectField { field: String },
    ProjectUniqueFieldByType { value_type: CollectionScalarType },
    ProjectOnlyNonFilterField,
    AggregateUniqueIntegerField { operation: CollectionAggregateOperation },
    Count,
}

#[derive(Clone, Copy, Debug, PartialEq, Eq, PartialOrd, Ord, Hash, Structural)]
pub enum ProjectStatusMapping {
    ZeroIsSuccess,
    ZeroIsPass,
    ZeroIsOk,
    ZeroIsTrue,
}

#[derive(Clone, Copy, Debug, PartialEq, Eq, PartialOrd, Ord, Hash, Structural)]
pub enum ProjectStatusValue {
    Success,
    Failure,
}

pub open spec fn spec_status_text(v: ProjectStatusValue) -> &'static str {
    match v {
        ProjectStatusValue::Success => "success",
        ProjectStatusValue::Failure => "failure",
    }
}

impl ProjectStatusValue {
    pub fn canonical_text(self) -> (r: &'static str)
        ensures
            r == spec_status_text(self),
    {
        match self {
            ProjectStatusValue::Success => "success",
            ProjectStatusValue::Failure => "failure",
        }
    }
}

#[derive(Debug, PartialEq, Eq)]
pub enum ResponseOperation {
    UniqueConsensus { variants: Vec<ResponseConsensusVariant>, adapter_wave: Option<ResponseAdapterWaveConsensus> },
    AdvancePlan { function_name: String },
    FunctionCallFromRoles { function_name: String, selector: ResponseValueSelector, arguments: Vec<ResponseArgument> },
    CustomToolCallFromRoles {
        custom_tool_name: String,
        inner_tool_name: String,
        selector: ResponseValueSelector,
        arguments: Vec<ResponseArgument>,
        projection: CustomToolResultProjection,
    },
    ProjectSelectedValue {
        selector: ResponseValueSelector,
        format: ValueProjectionFormat,
        renderer: CollectionOutputRenderer,
        completion_state: String,
    },
    ProjectStatus {
        selector: ResponseValueSelector,
        mapping: ProjectStatusMapping,
        renderer: CollectionOutputRenderer,
        completion_state: String,
    },
    ComposeCollection {
        steps: Vec<CollectionProgramStep>,
        format: ValueProjectionFormat,
        renderer: CollectionOutputRenderer,
        completion_state: String,
        max_items: usize,
    },
    CopyAfterPrefix { prefixes: Vec<String>, trim: bool, allow_multiline: bool },
    TestResultSummary { required_intent_phrases: Vec<String>, forbidden_intent_terms: Vec<String> },
    WaitOnYieldedCell { function_name: String, yield_time_ms: u64, max_tokens: u64 },
    WaitOnAnyYieldedCell { function_name: String, yield_time_ms: u64, max_tokens: u64 },
    WaitOnYieldedSurfaces { surfaces: Vec<String>, function_name: String, yield_time_ms: u64, max_tokens: u64 },
}

#[derive(Debug, PartialEq, Eq)]
pub struct ResponseProgram {
    pub schema: String,
    pub operation: ResponseOperation,
    pub max_output_bytes: usize,
}

/// The selector reads its value from the request rather than from provider output.
pub open spec fn spec_selector_reads_request(s: ResponseValueSelector) -> bool {
    s is RequestReferencedJsonField || s is RequestReferencedJsonFieldOrdinal || s is RequestLastToken
        || s is RequestUniqueLiteral
}

pub fn response_value_selector_reads_request(selector: &ResponseValueSelector) -> (r: bool)
    ensures
        r == spec_selector_reads_request(*selector),
{
    match selector {
        ResponseValueSelector::RequestReferencedJsonField { .. } => true,
        ResponseValueSelector::RequestReferencedJsonFieldOrdinal { .. } => true,
        ResponseValueSelector::RequestLastToken => true,
        ResponseValueSelector::RequestUniqueLiteral => true,
        _ => false,
    }
}

/// Request-derived values need a semantic applicability guard before use.
pub fn response_value_selector_requires_semantic_applicability_guard(selector: &ResponseValueSelector) -> (r: bool)
    ensures
        r == spec_selector_reads_request(*selector),
{
    response_value_selector_reads_request(selector)
}

/// The renderer interpolates a request-derived selected value.
pub open spec fn spec_renderer_requires_guard(r: CollectionOutputRenderer) -> bool {
    match r {
        CollectionOutputRenderer::RenderSequence { segments } =>
            exists|i: int| 0 <= i < segments@.len() && #[trigger] segment_reads_request(segments@[i]),
        _ => false,
    }
}

pub open spec fn segment_reads_request(s: ResponseRenderSegment) -> bool {
    match s {
        ResponseRenderSegment::Selected { selector, .. } => spec_selector_reads_request(selector),
        _ => false,
    }
}

#[verifier::loop_isolation(false)]
fn renderer_requires_semantic_applicability_guard(r: &CollectionOutputRenderer) -> (res: bool)
    ensures
        res == spec_renderer_requires_guard(*r),
{
    match r {
        CollectionOutputRenderer::RenderSequence { segments } => {
            let mut i: usize = 0;
            while i < segments.len()
                invariant
                    i <= segments@.len(),
                    forall|k: int| 0 <= k < i ==> !#[trigger] segment_reads_request(segments@[k]),
                decreases segments@.len() - i,
            {
                if let ResponseRenderSegment::Selected { selector, .. } = &segments[i] {
                    if response_value_selector_reads_request(selector) {
                        assert(segment_reads_request(segments@[i as int]));
                        return true;
                    }
                }
                i = i + 1;
            }
            false
        },
        _ => false,
    }
}

/// A literal string argument that is not empty.
pub open spec fn nonempty_string_argument(a: ResponseArgument) -> bool {
    match a {
        ResponseArgument::String { value, .. } => value@.len() > 0,
        _ => false,
    }
}

fn any_nonempty_string_argument(args: &[ResponseArgument]) -> (r: bool)
    ensures
        r == exists|i: int| 0 <= i < args@.len() && #[trigger] nonempty_string_argument(args@[i]),
{
    let mut i: usize = 0;
    while i < args.len()
        invariant
            i <= args@.len(),
            forall|k: int| 0 <= k < i ==> !#[trigger] nonempty_string_argument(args@[k]),
        decreases args@.len() - i,
    {
        if let ResponseArgument::String { value, .. } = &args[i] {
            if !value.as_str().is_empty() {
                assert(nonempty_string_argument(args@[i as int]));
                return true;
            }
        }
        i = i + 1;
    }
    false
}

/// Whether running the program depends on request-derived values, which
/// then need a semantic applicability guard.
pub open spec fn spec_program_requires_guard(p: ResponseProgram) -> bool
    decreases p, 0int,
{
    match p.operation {
        ResponseOperation::UniqueConsensus { variants, .. } => {
            proof {
                assert(decreases_to!(p => p.operation));
                assert(decreases_to!(p.operation => p.operation->variants));
                assert(decreases_to!(p.operation->variants => p.operation->variants@));
            }
            variants_require_guard_from(variants@, 0)
        },
        ResponseOperation::FunctionCallFromRoles { selector, arguments, .. } =>
            spec_selector_reads_request(selector)
            || exists|i: int| 0 <= i < arguments@.len() && #[trigger] nonempty_string_argument(arguments@[i]),
        ResponseOperation::CustomToolCallFromRoles { selector, arguments, .. } =>
            spec_selector_reads_request(selector)
            || exists|i: int| 0 <= i < arguments@.len() && #[trigger] nonempty_string_argument(arguments@[i]),
        ResponseOperation::ProjectSelectedValue { selector, renderer, .. } =>
            spec_selector_reads_request(selector) || spec_renderer_requires_guard(renderer),
        ResponseOperation::ProjectStatus { selector, renderer, .. } =>
            spec_selector_reads_request(selector) || spec_renderer_requires_guard(renderer),
        _ => false,
    }
}

/// Some variant from `i` on requires a guard.
pub open spec fn variants_require_guard_from(vs: Seq<ResponseConsensusVariant>, i: int) -> bool
    decreases vs, vs.len() - i,
{
    if i < 0 || i >= vs.len() {
        false
    } else {
        proof {
            assert(decreases_to!(vs => vs[i]));
            assert(decreases_to!(vs[i] => vs[i].program));
        }
        spec_program_requires_guard(vs[i].program) || variants_require_guard_from(vs, i + 1)
    }
}

#[verifier::loop_isolation(false)]
pub fn response_program_requires_semantic_applicability_guard(program: &ResponseProgram) -> (r: bool)
    ensures
        r == spec_program_requires_guard(*program),
    decreases program,
{
    match &program.operation {
        ResponseOperation::UniqueConsensus { variants, .. } => {
            let mut i: usize = 0;
            while i < variants.len()
                invariant
                    i <= variants@.len(),
                    variants_require_guard_from(variants@, 0) == variants_require_guard_from(variants@, i as int),
                decreases variants@.len() - i,
            {
                proof {
                    assert(decreases_to!(*program => program.operation));
                    assert(decreases_to!(program.operation => program.operation->variants));
                    assert(decreases_to!(program.operation->variants => variants@));
                    assert(decreases_to!(variants@ => variants@[i as int]));
                    assert(decreases_to!(variants@[i as int] => variants@[i as int].program));
                }
                if response_program_requires_semantic_applicability_guard(&variants[i].program) {
                    return true;
                }
                i = i + 1;
            }
            false
        },
        ResponseOperation::FunctionCallFromRoles { selector, arguments, .. } =>
            response_value_selector_requires_semantic_applicability_guard(selector)
            || any_nonempty_string_argument(arguments.as_slice()),
        ResponseOperation::CustomToolCallFromRoles { selector, arguments, .. } =>
            response_value_selector_requires_semantic_applicability_guard(selector)
            || any_nonempty_string_argument(arguments.as_slice()),
        ResponseOperation::ProjectSelectedValue { selector, renderer, .. } =>
            response_value_selector_requires_semantic_applicability_guard(selector)
            || renderer_requires_semantic_applicability_guard(renderer),
        ResponseOperation::ProjectStatus { selector, renderer, .. } =>
            response_value_selector_requires_semantic_applicability_guard(selector)
            || renderer_requires_semantic_applicability_guard(renderer),
        _ => false,
    }
}

/// The largest output budget among the variants.
pub open spec fn variants_budget_max(vs: Seq<ResponseConsensusVariant>) -> usize
    decreases vs.len(),
{
    if vs.len() == 0 {
        0
    } else {
        let m = variants_budget_max(vs.drop_last());
        let x = vs.last().program.max_output_bytes;
        if x > m { x } else { m }
    }
}

/// The output budget of a consensus: the largest budget of its variants,
/// or 16384 when there is none.
pub open spec fn consensus_budget(vs: Seq<ResponseConsensusVariant>) -> usize {
    if vs.len() == 0 { 16_384 } else { variants_budget_max(vs) }
}

/// The program is a response program of the current schema.
pub open spec fn has_program_schema(p: ResponseProgram) -> bool {
    p.schema@ == RESPONSE_PROGRAM_SCHEMA@
}

fn program_schema() -> (s: String)
    ensures
        s@ == RESPONSE_PROGRAM_SCHEMA@,
{
    RESPONSE_PROGRAM_SCHEMA.to_owned()
}

impl ResponseProgram {
    /// A consensus over the variants, with the largest variant budget.
    pub fn unique_consensus(variants: Vec<ResponseConsensusVariant>) -> (r: Self)
        ensures
            has_program_schema(r),
            r.operation == (ResponseOperation::UniqueConsensus { variants, adapter_wave: None }),
            r.max_output_bytes == consensus_budget(variants@),
            variants@.len() == 0 ==> r.max_output_bytes == 16_384,
            variants@.len() > 0 ==> exists|j: int| 0 <= j < variants@.len()
                && (#[trigger] variants@[j]).program.max_output_bytes == r.max_output_bytes,
            forall|j: int| 0 <= j < variants@.len() ==> (#[trigger] variants@[j]).program.max_output_bytes <= r.max_output_bytes,
    {
        proof {
            lemma_consensus_budget_covers_variants(variants@);
            if variants@.len() > 0 {
                lemma_consensus_budget_attained(variants@);
            }
        }
        let mut m: usize = 0;
        let mut i: usize = 0;
        while i < variants.len()
            invariant
                i <= variants@.len(),
                m == variants_budget_max(variants@.take(i as int)),
            decreases variants@.len() - i,
        {
            assert(variants@.take(i + 1).drop_last() =~= variants@.take(i as int));
            let x = variants[i].program.max_output_bytes;
            if x > m {
                m = x;
            }
            i = i + 1;
        }
        assert(variants@.take(variants@.len() as int) =~= variants@);
        let max_output_bytes = if variants.len() == 0 { 16_384 } else { m };
        ResponseProgram {
            schema: program_schema(),
            operation: ResponseOperation::UniqueConsensus { variants, adapter_wave: None },
            max_output_bytes,
        }
    }

    /// Attaches an adapter wave to a consensus; other programs are unchanged.
    pub fn with_adapter_wave(self, adapter_wave: ResponseAdapterWaveConsensus) -> (r: Self)
        ensures
            r.schema == self.schema,
            r.max_output_bytes == self.max_output_bytes,
            match self.operation {
                ResponseOperation::UniqueConsensus { variants, .. } =>
                    r.operation == (ResponseOperation::UniqueConsensus { variants, adapter_wave: Some(adapter_wave) }),
                _ => r.operation == self.operation,
            },
    {
        let ResponseProgram { schema, operation, max_output_bytes } = self;
        let operation = match operation {
            ResponseOperation::UniqueConsensus { variants, .. } =>
                ResponseOperation::UniqueConsensus { variants, adapter_wave: Some(adapter_wave) },
            other => other,
        };
        ResponseProgram { schema, operation, max_output_bytes }
    }

    pub fn advance_plan(function_name: &str) -> (r: Self)
        ensures
            has_program_schema(r),
            r.operation matches ResponseOperation::AdvancePlan { function_name: f } && f@ == function_name@,
            r.max_output_bytes == 32_768,
    {
        ResponseProgram {
            schema: program_schema(),
            operation: ResponseOperation::AdvancePlan { function_name: function_name.to_owned() },
            max_output_bytes: 32_768,
        }
    }

    pub fn function_call_from_roles(
        function_name: &str,
        selector: ResponseValueSelector,
        arguments: Vec<ResponseArgument>,
    ) -> (r: Self)
        ensures
            has_program_schema(r),
            r.operation matches ResponseOperation::FunctionCallFromRoles { function_name: f, selector: s, arguments: a }
                && f@ == function_name@ && s == selector && a == arguments,
            r.max_output_bytes == 256,
    {
        ResponseProgram {
            schema: program_schema(),
            operation: ResponseOperation::FunctionCallFromRoles {
                function_name: function_name.to_owned(),
                selector,
                arguments,
            },
            max_output_bytes: 256,
        }
    }

    pub fn custom_tool_call_from_roles(
        custom_tool_name: &str,
        inner_tool_name: &str,
        selector: ResponseValueSelector,
        arguments: Vec<ResponseArgument>,
        projection: CustomToolResultProjection,
    ) -> (r: Self)
        ensures
            has_program_schema(r),
            r.operation matches ResponseOperation::CustomToolCallFromRoles {
                custom_tool_name: c, inner_tool_name: n, selector: s, arguments: a, projection: p,
            } && c@ == custom_tool_name@ && n@ == inner_tool_name@ && s == selector && a == arguments
                && p == projection,
            r.max_output_bytes == 4_096,
    {
        ResponseProgram {
            schema: program_schema(),
            operation: ResponseOperation::CustomToolCallFromRoles {
                custom_tool_name: custom_tool_name.to_owned(),
                inner_tool_name: inner_tool_name.to_owned(),
                selector,
                arguments,
                projection,
            },
            max_output_bytes: 4_096,
        }
    }

    pub fn project_selected_value(
        selector: ResponseValueSelector,
        format: ValueProjectionFormat,
        completion_state: &str,
    ) -> (r: Self)
        ensures
            has_program_schema(r),
            r.operation matches ResponseOperation::ProjectSelectedValue { selector: s, format: f, renderer: d, completion_state: c }
                && s == selector && f == format && d is Direct && c@ == completion_state@,
            r.max_output_bytes == 4_096,
    {
        ResponseProgram {
            schema: program_schema(),
            operation: ResponseOperation::ProjectSelectedValue {
                selector,
                format,
                renderer: CollectionOutputRenderer::Direct,
                completion_state: completion_state.to_owned(),
            },
            max_output_bytes: 4_096,
        }
    }

    /// Sets the renderer of a selected-value projection; other programs are unchanged.
    pub fn with_value_renderer(self, renderer: CollectionOutputRenderer) -> (r: Self)
        ensures
            r.schema == self.schema,
            r.max_output_bytes == self.max_output_bytes,
            match self.operation {
                ResponseOperation::ProjectSelectedValue { selector, format, completion_state, .. } =>
                    r.operation == (ResponseOperation::ProjectSelectedValue { selector, format, renderer, completion_state }),
                _ => r.operation == self.operation,
            },
    {
        let ResponseProgram { schema, operation, max_output_bytes } = self;
        let operation = match operation {
            ResponseOperation::ProjectSelectedValue { selector, format, completion_state, .. } =>
                ResponseOperation::ProjectSelectedValue { selector, format, renderer, completion_state },
            other => other,
        };
        ResponseProgram { schema, operation, max_output_bytes }
    }

    /// A status projection; its budget fits the longer status word, `failure`.
    pub fn project_status(
        selector: ResponseValueSelector,
        mapping: ProjectStatusMapping,
        completion_state: &str,
    ) -> (r: Self)
        ensures
            has_program_schema(r),
            r.operation matches ResponseOperation::ProjectStatus { selector: s, mapping: m, renderer: d, completion_state: c }
                && s == selector && m == mapping && d is Direct && c@ == completion_state@,
            r.max_output_bytes == utf8(spec_status_text(ProjectStatusValue::Failure)@).len(),
    {
        let text = ProjectStatusValue::Failure.canonical_text();
        let max_output_bytes = crate::text::byte_len(text);
        ResponseProgram {
            schema: program_schema(),
            operation: ResponseOperation::ProjectStatus {
                selector,
                mapping,
                renderer: CollectionOutputRenderer::Direct,
                completion_state: completion_state.to_owned(),
            },
            max_output_bytes,
        }
    }

    /// Sets the renderer of a status projection and widens the budget to 4096 bytes.
    pub fn with_status_renderer(self, renderer: CollectionOutputRenderer) -> (r: Self)
        ensures
            r.schema == self.schema,
            r.max_output_bytes == 4_096,
            match self.operation {
                ResponseOperation::ProjectStatus { selector, mapping, completion_state, .. } =>
                    r.operation == (ResponseOperation::ProjectStatus { selector, mapping, renderer, completion_state }),
                _ => r.operation == self.operation,
            },
    {
        let ResponseProgram { schema, operation, .. } = self;
        let operation = match operation {
            ResponseOperation::ProjectStatus { selector, mapping, completion_state, .. } =>
                ResponseOperation::ProjectStatus { selector, mapping, renderer, completion_state },
            other => other,
        };
        ResponseProgram { schema, operation, max_output_bytes: 4_096 }
    }

    pub fn compose_collection(
        steps: Vec<CollectionProgramStep>,
        format: ValueProjectionFormat,
        completion_state: &str,
    ) -> (r: Self)
        ensures
            has_program_schema(r),
            r.operation matches ResponseOperation::ComposeCollection {
                steps: s, format: f, renderer: d, completion_state: c, max_items: m,
            } && s == steps && f == format && d is Direct && c@ == completion_state@ && m == 1_024,
            r.max_output_bytes == 16_384,
    {
        ResponseProgram {
            schema: program_schema(),
            operation: ResponseOperation::ComposeCollection {
                steps,
                format,
                renderer: CollectionOutputRenderer::Direct,
                completion_state: completion_state.to_owned(),
                max_items: 1_024,
            },
            max_output_bytes: 16_384,
        }
    }

    /// Sets the renderer of a collection program; other programs are unchanged.
    pub fn with_collection_renderer(self, renderer: CollectionOutputRenderer) -> (r: Self)
        ensures
            r.schema == self.schema,
            r.max_output_bytes == self.max_output_bytes,
            match self.operation {
                ResponseOperation::ComposeCollection { steps, format, completion_state, max_items, .. } =>
                    r.operation == (ResponseOperation::ComposeCollection { steps, format, renderer, completion_state, max_items }),
                _ => r.operation == self.operation,
            },
    {
        let ResponseProgram { schema, operation, max_output_bytes } = self;
        let operation = match operation {
            ResponseOperation::ComposeCollection { steps, format, completion_state, max_items, .. } =>
                ResponseOperation::ComposeCollection { steps, format, renderer, completion_state, max_items },
            other => other,
        };
        ResponseProgram { schema, operation, max_output_bytes }
    }

    /// Copies the text after the first matching prefix, trimmed, on one line.
    pub fn copy_after_prefix(prefixes: Vec<String>) -> (r: Self)
        ensures
            has_program_schema(r),
            r.operation == (ResponseOperation::CopyAfterPrefix { prefixes, trim: true, allow_multiline: false }),
            r.max_output_bytes == 4_096,
    {
        ResponseProgram {
            schema: program_schema(),
            operation: ResponseOperation::CopyAfterPrefix { prefixes, trim: true, allow_multiline: false },
            max_output_bytes: 4_096,
        }
    }

    pub fn test_result_summary(required: Vec<String>, forbidden: Vec<String>) -> (r: Self)
        ensures
            has_program_schema(r),
            r.operation == (ResponseOperation::TestResultSummary {
                required_intent_phrases: required,
                forbidden_intent_terms: forbidden,
            }),
            r.max_output_bytes == 256,
    {
        ResponseProgram {
            schema: program_schema(),
            operation: ResponseOperation::TestResultSummary {
                required_intent_phrases: required,
                forbidden_intent_terms: forbidden,
            },
            max_output_bytes: 256,
        }
    }

    pub fn wait_on_yielded_cell() -> (r: Self)
        ensures
            has_program_schema(r),
            r.operation matches ResponseOperation::WaitOnYieldedCell { function_name: f, yield_time_ms: y, max_tokens: m }
                && f@ == "wait"@ && y == 1_000 && m == 5_000,
            r.max_output_bytes == 256,
    {
        ResponseProgram {
            schema: program_schema(),
            operation: ResponseOperation::WaitOnYieldedCell {
                function_name: "wait".to_owned(),
                yield_time_ms: 1_000,
                max_tokens: 5_000,
            },
            max_output_bytes: 256,
        }
    }

    pub fn wait_on_any_yielded_cell() -> (r: Self)
        ensures
            has_program_schema(r),
            r.operation matches ResponseOperation::WaitOnAnyYieldedCell { function_name: f, yield_time_ms: y, max_tokens: m }
                && f@ == "wait"@ && y == 1_000 && m == 5_000,
            r.max_output_bytes == 256,
    {
        ResponseProgram {
            schema: program_schema(),
            operation: ResponseOperation::WaitOnAnyYieldedCell {
                function_name: "wait".to_owned(),
                yield_time_ms: 1_000,
                max_tokens: 5_000,
            },
            max_output_bytes: 256,
        }
    }

    pub fn wait_on_yielded_surfaces(surfaces: Vec<String>) -> (r: Self)
        ensures
            has_program_schema(r),
            r.operation matches ResponseOperation::WaitOnYieldedSurfaces {
                surfaces: s, function_name: f, yield_time_ms: y, max_tokens: m,
            } && s == surfaces && f@ == "wait"@ && y == 1_000 && m == 5_000,
            r.max_output_bytes == 256,
    {
        ResponseProgram {
            schema: program_schema(),
            operation: ResponseOperation::WaitOnYieldedSurfaces {
                surfaces,
                function_name: "wait".to_owned(),
                yield_time_ms: 1_000,
                max_tokens: 5_000,
            },
            max_output_bytes: 256,
        }
    }
}

/// The budget that `unique_consensus` gives covers the budget of every
/// variant, so no variant exceeds its consensus.
pub proof fn lemma_consensus_budget_covers_variants(vs: Seq<ResponseConsensusVariant>)
    ensures
        forall|j: int| 0 <= j < vs.len() ==> (#[trigger] vs[j]).program.max_output_bytes <= consensus_budget(vs),
    decreases vs.len(),
{
    lemma_budget_max_covers(vs);
}

proof fn lemma_budget_max_covers(vs: Seq<ResponseConsensusVariant>)
    ensures
        forall|j: int| 0 <= j < vs.len() ==> (#[trigger] vs[j]).program.max_output_bytes <= variants_budget_max(vs),
    decreases vs.len(),
{
    if vs.len() > 0 {
        let init = vs.drop_last();
        lemma_budget_max_covers(init);
        assert forall|j: int| 0 <= j < vs.len() implies (#[trigger] vs[j]).program.max_output_bytes <= variants_budget_max(vs) by {
            if j < vs.len() - 1 {
                assert(vs[j] == init[j]);
            }
        }
    }
}

/// Every non-empty list of variants has a variant whose budget is the
/// consensus budget: the budget that `unique_consensus` gives is the
/// largest variant budget, never a value that no variant has.
pub proof fn lemma_consensus_budget_attained(vs: Seq<ResponseConsensusVariant>)
    requires
        vs.len() > 0,
    ensures
        exists|j: int| 0 <= j < vs.len() && (#[trigger] vs[j]).program.max_output_bytes == consensus_budget(vs),
    decreases vs.len(),
{
    lemma_budget_max_attained(vs);
}

proof fn lemma_budget_max_attained(vs: Seq<ResponseConsensusVariant>)
    requires
        vs.len() > 0,
    ensures
        exists|j: int| 0 <= j < vs.len() && (#[trigger] vs[j]).program.max_output_bytes == variants_budget_max(vs),
    decreases vs.len(),
{
    let init = vs.drop_last();
    let last = vs.len() - 1;
    if init.len() == 0 {
        assert(variants_budget_max(init) == 0);
        assert(vs[last].program.max_output_bytes == variants_budget_max(vs));
    } else {
        lemma_budget_max_attained(init);
        if vs[last].program.max_output_bytes > variants_budget_max(init) {
            assert(vs[last].program.max_output_bytes == variants_budget_max(vs));
        } else {
            let j = choose|j: int| 0 <= j < init.len() && (#[trigger] init[j]).program.max_output_bytes
                == variants_budget_max(init);
            assert(vs[j] == init[j]);
            assert(vs[j].program.max_output_bytes == variants_budget_max(vs));
        }
    }
}

/// A consensus needs a semantic applicability guard exactly when one of its
/// variants does; in particular a consensus with a variant that projects a
/// value read from the request needs one.
pub proof fn lemma_consensus_guard_iff_some_variant(p: ResponseProgram)
    requires
        p.operation is UniqueConsensus,
    ensures
        spec_program_requires_guard(p) <==> exists|j: int| 0 <= j < p.operation->variants@.len()
            && spec_program_requires_guard(#[trigger] p.operation->variants@[j].program),
        forall|j: int| 0 <= j < p.operation->variants@.len()
            && (#[trigger] p.operation->variants@[j]).program.operation is ProjectSelectedValue
            && spec_selector_reads_request(p.operation->variants@[j].program.operation->ProjectSelectedValue_selector)
            ==> spec_program_requires_guard(p),
{
    let vs = p.operation->variants@;
    lemma_variants_guard_from(vs, 0);
    assert forall|j: int| 0 <= j < vs.len() && (#[trigger] vs[j]).program.operation is ProjectSelectedValue
        && spec_selector_reads_request(vs[j].program.operation->ProjectSelectedValue_selector)
        implies spec_program_requires_guard(p) by {
        assert(spec_program_requires_guard(vs[j].program));
    }
}

proof fn lemma_variants_guard_from(vs: Seq<ResponseConsensusVariant>, i: int)
    requires
        0 <= i <= vs.len(),
    ensures
        variants_require_guard_from(vs, i) <==> exists|j: int| i <= j < vs.len()
            && spec_program_requires_guard(#[trigger] vs[j].program),
    decreases vs.len() - i,
{
    if i < vs.len() {
        lemma_variants_guard_from(vs, i + 1);
        if spec_program_requires_guard(vs[i].program) {
            assert(exists|j: int| i <= j < vs.len() && spec_program_requires_guard(#[trigger] vs[j].program));
        }
        if exists|j: int| i <= j < vs.len() && spec_program_requires_guard(#[trigger] vs[j].program) {
            let j = choose|j: int| i <= j < vs.len() && spec_program_requires_guard(#[trigger] vs[j].program);
            if j > i {
                assert(exists|k: int| i + 1 <= k < vs.len() && spec_program_requires_guard(#[trigger] vs[k].program));
            }
        }
    }
}

// ---------------------------------------------------------------- copies

impl Clone for ResponseArgument {
    fn clone(&self) -> (r: Self)
        ensures
            r == *self,
    {
        match self {
            ResponseArgument::Role { name, role, value_type } =>
                ResponseArgument::Role { name: name.clone(), role: *role, value_type: *value_type },
            ResponseArgument::Integer { name, value } => ResponseArgument::Integer { name: name.clone(), value: *value },
            ResponseArgument::String { name, value } =>
                ResponseArgument::String { name: name.clone(), value: value.clone() },
            ResponseArgument::Boolean { name, value } => ResponseArgument::Boolean { name: name.clone(), value: *value },
        }
    }
}

impl Clone for CustomToolResultProjection {
    fn clone(&self) -> (r: Self)
        ensures
            r == *self,
    {
        match self {
            CustomToolResultProjection::OutputField { output_field } =>
                CustomToolResultProjection::OutputField { output_field: output_field.clone() },
            CustomToolResultProjection::OutputAndContinuation { output_field, continuation_field, continuation_prefix } =>
                CustomToolResultProjection::OutputAndContinuation {
                    output_field: output_field.clone(),
                    continuation_field: continuation_field.clone(),
                    continuation_prefix: continuation_prefix.clone(),
                },
            CustomToolResultProjection::JsonStringifyResult => CustomToolResultProjection::JsonStringifyResult,
        }
    }
}

impl Clone for ResponseRenderSegment {
    fn clone(&self) -> (r: Self)
        ensures
            r == *self,
    {
        match self {
            ResponseRenderSegment::Static { text } => ResponseRenderSegment::Static { text: text.clone() },
            ResponseRenderSegment::Primary => ResponseRenderSegment::Primary,
            ResponseRenderSegment::Selected { selector, format } =>
                ResponseRenderSegment::Selected { selector: selector.clone(), format: *format },
        }
    }
}

impl Clone for ResponseScalarLiteral {
    fn clone(&self) -> (r: Self)
        ensures
            r == *self,
    {
        match self {
            ResponseScalarLiteral::String(v) => ResponseScalarLiteral::String(v.clone()),
            ResponseScalarLiteral::Integer(v) => ResponseScalarLiteral::Integer(*v),
            ResponseScalarLiteral::Boolean(v) => ResponseScalarLiteral::Boolean(*v),
            ResponseScalarLiteral::Null => ResponseScalarLiteral::Null,
        }
    }
}

impl Clone for CollectionProgramStep {
    fn clone(&self) -> (r: Self)
        ensures
            r == *self,
    {
        match self {
            CollectionProgramStep::SelectTurnOutput { output_ordinal } =>
                CollectionProgramStep::SelectTurnOutput { output_ordinal: *output_ordinal },
            CollectionProgramStep::SelectOnlyArrayField => CollectionProgramStep::SelectOnlyArrayField,
            CollectionProgramStep::SelectField { field } => CollectionProgramStep::SelectField { field: field.clone() },
            CollectionProgramStep::FilterUniqueFieldEquals { value } =>
                CollectionProgramStep::FilterUniqueFieldEquals { value: value.clone() },
            CollectionProgramStep::FilterUniqueFieldEqualsRequestValue { value_type } =>
                CollectionProgramStep::FilterUniqueFieldEqualsRequestValue { value_type: *value_type },
            CollectionProgramStep::FilterUniqueFieldEqualsSelectedValue { selector, value_type } =>
                CollectionProgramStep::FilterUniqueFieldEqualsSelectedValue {
                    selector: selector.clone(),
                    value_type: *value_type,
                },
            CollectionProgramStep::FilterFieldEquals { field, value } =>
                CollectionProgramStep::FilterFieldEquals { field: field.clone(), value: value.clone() },
            CollectionProgramStep::ProjectField { field } => CollectionProgramStep::ProjectField { field: field.clone() },
            CollectionProgramStep::ProjectUniqueFieldByType { value_type } =>
                CollectionProgramStep::ProjectUniqueFieldByType { value_type: *value_type },
            CollectionProgramStep::ProjectOnlyNonFilterField => CollectionProgramStep::ProjectOnlyNonFilterField,
            CollectionProgramStep::AggregateUniqueIntegerField { operation } =>
                CollectionProgramStep::AggregateUniqueIntegerField { operation: *operation },
            CollectionProgramStep::Count => CollectionProgramStep::Count,
        }
    }
}

/// `b` is a copy of the renderer `a`: the same renderer, its segments
/// (when it has them) the same in the same order.
pub open spec fn copy_of_renderer(a: CollectionOutputRenderer, b: CollectionOutputRenderer) -> bool {
    match a {
        CollectionOutputRenderer::RenderSequence { segments } =>
            b matches CollectionOutputRenderer::RenderSequence { segments: s } && s@ == segments@,
        _ => b == a,
    }
}

impl Clone for CollectionOutputRenderer {
    fn clone(&self) -> (r: Self)
        ensures
            copy_of_renderer(*self, r),
    {
        match self {
            CollectionOutputRenderer::Direct => CollectionOutputRenderer::Direct,
            CollectionOutputRenderer::RenderTemplate { prefix, suffix } =>
                CollectionOutputRenderer::RenderTemplate { prefix: prefix.clone(), suffix: suffix.clone() },
            CollectionOutputRenderer::RenderSequence { segments } => {
                let s = segments.clone();
                assert(s@ =~= segments@);
                CollectionOutputRenderer::RenderSequence { segments: s }
            },
            CollectionOutputRenderer::RequestTemplate { marker } =>
                CollectionOutputRenderer::RequestTemplate { marker: *marker },
        }
    }
}

/// `b` is a copy of the subcenter `a`.
pub open spec fn copy_of_subcenter(a: ResponseAdapterWaveSubcenter, b: ResponseAdapterWaveSubcenter) -> bool {
    &&& b.center_delta_micro@ == a.center_delta_micro@
    &&& b.threshold_micro == a.threshold_micro
}

impl Clone for ResponseAdapterWaveSubcenter {
    fn clone(&self) -> (r: Self)
        ensures
            copy_of_subcenter(*self, r),
    {
        let c = self.center_delta_micro.clone();
        assert(c@ =~= self.center_delta_micro@);
        ResponseAdapterWaveSubcenter { center_delta_micro: c, threshold_micro: self.threshold_micro }
    }
}

/// `b` is a copy of the route `a`: the same numbers, and copies of its
/// subcenters in the same order.
pub open spec fn copy_of_route(a: ResponseAdapterWaveRoute, b: ResponseAdapterWaveRoute) -> bool {
    &&& b.cells == a.cells
    &&& b.center_delta_micro@ == a.center_delta_micro@
    &&& b.threshold_micro == a.threshold_micro
    &&& b.anchor_atom_ids@ == a.anchor_atom_ids@
    &&& b.positive_fingerprint_ids@ == a.positive_fingerprint_ids@
    &&& b.subcenters@.len() == a.subcenters@.len()
    &&& forall|i: int| 0 <= i < a.subcenters@.len() ==> copy_of_subcenter(#[trigger] a.subcenters@[i], b.subcenters@[i])
}

impl Clone for ResponseAdapterWaveRoute {
    fn clone(&self) -> (r: Self)
        ensures
            copy_of_route(*self, r),
    {
        let c = self.center_delta_micro.clone();
        assert(c@ =~= self.center_delta_micro@);
        let a = self.anchor_atom_ids.clone();
        assert(a@ =~= self.anchor_atom_ids@);
        let f = self.positive_fingerprint_ids.clone();
        assert(f@ =~= self.positive_fingerprint_ids@);
        let s = self.subcenters.clone();
        assert forall|i: int| 0 <= i < self.subcenters@.len() implies copy_of_subcenter(
            #[trigger] self.subcenters@[i],
            s@[i],
        ) by {
            assert(cloned(self.subcenters[i], s[i]));
        }
        ResponseAdapterWaveRoute {
            cells: self.cells,
            center_delta_micro: c,
            threshold_micro: self.threshold_micro,
            anchor_atom_ids: a,
            positive_fingerprint_ids: f,
            subcenters: s,
        }
    }
}

/// `b` is a copy of the adapter wave `a`.
pub open spec fn copy_of_wave(a: ResponseAdapterWaveConsensus, b: ResponseAdapterWaveConsensus) -> bool {
    &&& b.exact_budget == a.exact_budget
    &&& b.routes@.len() == a.routes@.len()
    &&& forall|i: int| 0 <= i < a.routes@.len() ==> copy_of_route(#[trigger] a.routes@[i], b.routes@[i])
}

impl Clone for ResponseAdapterWaveConsensus {
    fn clone(&self) -> (r: Self)
        ensures
            copy_of_wave(*self, r),
    {
        let routes = self.routes.clone();
        assert forall|i: int| 0 <= i < self.routes@.len() implies copy_of_route(#[trigger] self.routes@[i], routes@[i]) by {
            assert(cloned(self.routes[i], routes[i]));
        }
        ResponseAdapterWaveConsensus { routes, exact_budget: self.exact_budget }
    }
}

/// Every adapter wave is a copy of itself.
pub proof fn lemma_copy_of_wave_reflexive(w: ResponseAdapterWaveConsensus)
    ensures
        copy_of_wave(w, w),
{
    assert forall|i: int| 0 <= i < w.routes@.len() implies copy_of_route(#[trigger] w.routes@[i], w.routes@[i]) by {
        let r = w.routes@[i];
        assert forall|k: int| 0 <= k < r.subcenters@.len() implies copy_of_subcenter(
            #[trigger] r.subcenters@[k],
            r.subcenters@[k],
        ) by {}
    }
}

/// `b` is a copy of the optional adapter wave `a`.
pub open spec fn copy_of_wave_option(a: Option<ResponseAdapterWaveConsensus>, b: Option<ResponseAdapterWaveConsensus>) -> bool {
    match a {
        None => b is None,
        Some(x) => b matches Some(y) && copy_of_wave(x, y),
    }
}

/// `b` is a copy of the operation `a`: the same operation with the same
/// fields, each list the same in the same order, and copies of its
/// consensus variants and adapter wave.
pub open spec fn copy_of_operation(a: ResponseOperation, b: ResponseOperation) -> bool
    decreases a,
{
    match a {
        ResponseOperation::UniqueConsensus { variants, adapter_wave } => match b {
            ResponseOperation::UniqueConsensus { variants: v, adapter_wave: w } => {
                &&& v@.len() == variants@.len()
                &&& forall|i: int| 0 <= i < variants@.len() ==> {
                    &&& (#[trigger] v@[i]).allowed_layout_sha256@ == variants@[i].allowed_layout_sha256@
                    &&& v@[i].required_request_atom_ids@ == variants@[i].required_request_atom_ids@
                    &&& v@[i].program.schema == variants@[i].program.schema
                    &&& v@[i].program.max_output_bytes == variants@[i].program.max_output_bytes
                    &&& copy_of_operation(variants@[i].program.operation, v@[i].program.operation)
                }
                &&& copy_of_wave_option(adapter_wave, w)
            },
            _ => false,
        },
        ResponseOperation::FunctionCallFromRoles { function_name, selector, arguments } =>
            b matches ResponseOperation::FunctionCallFromRoles { function_name: f, selector: s, arguments: x }
                && f == function_name && s == selector && x@ == arguments@,
        ResponseOperation::CustomToolCallFromRoles { custom_tool_name, inner_tool_name, selector, arguments, projection } =>
            b matches ResponseOperation::CustomToolCallFromRoles {
                custom_tool_name: c, inner_tool_name: n, selector: s, arguments: x, projection: p,
            } && c == custom_tool_name && n == inner_tool_name && s == selector && x@ == arguments@ && p == projection,
        ResponseOperation::ProjectSelectedValue { selector, format, renderer, completion_state } =>
            b matches ResponseOperation::ProjectSelectedValue { selector: s, format: f, renderer: d, completion_state: c }
                && s == selector && f == format && copy_of_renderer(renderer, d) && c == completion_state,
        ResponseOperation::ProjectStatus { selector, mapping, renderer, completion_state } =>
            b matches ResponseOperation::ProjectStatus { selector: s, mapping: m, renderer: d, completion_state: c }
                && s == selector && m == mapping && copy_of_renderer(renderer, d) && c == completion_state,
        ResponseOperation::ComposeCollection { steps, format, renderer, completion_state, max_items } =>
            b matches ResponseOperation::ComposeCollection {
                steps: x, format: f, renderer: d, completion_state: c, max_items: m,
            } && x@ == steps@ && f == format && copy_of_renderer(renderer, d) && c == completion_state && m == max_items,
        ResponseOperation::CopyAfterPrefix { prefixes, trim, allow_multiline } =>
            b matches ResponseOperation::CopyAfterPrefix { prefixes: p, trim: t, allow_multiline: m }
                && p@ == prefixes@ && t == trim && m == allow_multiline,
        ResponseOperation::TestResultSummary { required_intent_phrases, forbidden_intent_terms } =>
            b matches ResponseOperation::TestResultSummary { required_intent_phrases: r, forbidden_intent_terms: f }
                && r@ == required_intent_phrases@ && f@ == forbidden_intent_terms@,
        ResponseOperation::WaitOnYieldedSurfaces { surfaces, function_name, yield_time_ms, max_tokens } =>
            b matches ResponseOperation::WaitOnYieldedSurfaces {
                surfaces: x, function_name: f, yield_time_ms: y, max_tokens: m,
            } && x@ == surfaces@ && f == function_name && y == yield_time_ms && m == max_tokens,
        _ => b == a,
    }
}

/// `b` is a copy of the program `a`.
pub open spec fn copy_of_program(a: ResponseProgram, b: ResponseProgram) -> bool {
    &&& b.schema == a.schema
    &&& b.max_output_bytes == a.max_output_bytes
    &&& copy_of_operation(a.operation, b.operation)
}

/// `b` is a copy of the consensus variant `a`.
pub open spec fn copy_of_variant(a: ResponseConsensusVariant, b: ResponseConsensusVariant) -> bool {
    &&& b.allowed_layout_sha256@ == a.allowed_layout_sha256@
    &&& b.required_request_atom_ids@ == a.required_request_atom_ids@
    &&& copy_of_program(a.program, b.program)
}

impl Clone for ResponseProgram {
    fn clone(&self) -> (r: Self)
        ensures
            copy_of_program(*self, r),
    {
        clone_program(self)
    }
}

impl Clone for ResponseConsensusVariant {
    fn clone(&self) -> (r: Self)
        ensures
            copy_of_variant(*self, r),
    {
        let layouts = self.allowed_layout_sha256.clone();
        assert(layouts@ =~= self.allowed_layout_sha256@);
        let atoms = self.required_request_atom_ids.clone();
        assert(atoms@ =~= self.required_request_atom_ids@);
        ResponseConsensusVariant {
            program: clone_program(&self.program),
            allowed_layout_sha256: layouts,
            required_request_atom_ids: atoms,
        }
    }
}

impl Clone for ResponseOperation {
    fn clone(&self) -> (r: Self)
        ensures
            copy_of_operation(*self, r),
    {
        clone_operation(self)
    }
}

fn clone_program(p: &ResponseProgram) -> (r: ResponseProgram)
    ensures
        copy_of_program(*p, r),
    decreases p, 1int,
{
    ResponseProgram {
        schema: p.schema.clone(),
        operation: clone_operation(&p.operation),
        max_output_bytes: p.max_output_bytes,
    }
}

#[verifier::loop_isolation(false)]
fn clone_operation(op: &ResponseOperation) -> (r: ResponseOperation)
    ensures
        copy_of_operation(*op, r),
    decreases op, 0int,
{
    match op {
        ResponseOperation::UniqueConsensus { variants, adapter_wave } => {
            let mut out: Vec<ResponseConsensusVariant> = Vec::new();
            let mut i: usize = 0;
            while i < variants.len()
                invariant
                    i <= variants@.len(),
                    out@.len() == i,
                    forall|j: int| 0 <= j < i ==> copy_of_variant(#[trigger] variants@[j], out@[j]),
                decreases variants@.len() - i,
            {
                let v = &variants[i];
                proof {
                    assert(decreases_to!(*op => op->variants));
                    assert(decreases_to!(op->variants => variants@));
                    assert(decreases_to!(variants@ => variants@[i as int]));
                    assert(decreases_to!(variants@[i as int] => variants@[i as int].program));
                }
                let layouts = v.allowed_layout_sha256.clone();
                assert(layouts@ =~= v.allowed_layout_sha256@);
                let atoms = v.required_request_atom_ids.clone();
                assert(atoms@ =~= v.required_request_atom_ids@);
                out.push(ResponseConsensusVariant {
                    program: clone_program(&v.program),
                    allowed_layout_sha256: layouts,
                    required_request_atom_ids: atoms,
                });
                i = i + 1;
            }
            let w = adapter_wave.clone();
            proof {
                if adapter_wave.is_some() {
                    lemma_copy_of_wave_reflexive(adapter_wave.unwrap());
                }
            }
            let r = ResponseOperation::UniqueConsensus { variants: out, adapter_wave: w };
            assert forall|j: int| 0 <= j < variants@.len() implies {
                &&& (#[trigger] out@[j]).allowed_layout_sha256@ == variants@[j].allowed_layout_sha256@
                &&& out@[j].required_request_atom_ids@ == variants@[j].required_request_atom_ids@
                &&& out@[j].program.schema == variants@[j].program.schema
                &&& out@[j].program.max_output_bytes == variants@[j].program.max_output_bytes
                &&& copy_of_operation(variants@[j].program.operation, out@[j].program.operation)
            } by {
                assert(copy_of_variant(variants@[j], out@[j]));
            }
            r
        },
        ResponseOperation::AdvancePlan { function_name } =>
            ResponseOperation::AdvancePlan { function_name: function_name.clone() },
        ResponseOperation::FunctionCallFromRoles { function_name, selector, arguments } =>
            ResponseOperation::FunctionCallFromRoles {
                function_name: function_name.clone(),
                selector: selector.clone(),
                arguments: arguments.clone(),
            },
        ResponseOperation::CustomToolCallFromRoles { custom_tool_name, inner_tool_name, selector, arguments, projection } =>
            ResponseOperation::CustomToolCallFromRoles {
                custom_tool_name: custom_tool_name.clone(),
                inner_tool_name: inner_tool_name.clone(),
                selector: selector.clone(),
                arguments: arguments.clone(),
                projection: projection.clone(),
            },
        ResponseOperation::ProjectSelectedValue { selector, format, renderer, completion_state } =>
            ResponseOperation::ProjectSelectedValue {
                selector: selector.clone(),
                format: *format,
                renderer: renderer.clone(),
                completion_state: completion_state.clone(),
            },
        ResponseOperation::ProjectStatus { selector, mapping, renderer, completion_state } =>
            ResponseOperation::ProjectStatus {
                selector: selector.clone(),
                mapping: *mapping,
                renderer: renderer.clone(),
                completion_state: completion_state.clone(),
            },
        ResponseOperation::ComposeCollection { steps, format, renderer, completion_state, max_items } =>
            ResponseOperation::ComposeCollection {
                steps: steps.clone(),
                format: *format,
                renderer: renderer.clone(),
                completion_state: completion_state.clone(),
                max_items: *max_items,
            },
        ResponseOperation::CopyAfterPrefix { prefixes, trim, allow_multiline } =>
            ResponseOperation::CopyAfterPrefix { prefixes: prefixes.clone(), trim: *trim, allow_multiline: *allow_multiline },
        ResponseOperation::TestResultSummary { required_intent_phrases, forbidden_intent_terms } =>
            ResponseOperation::TestResultSummary {
                required_intent_phrases: required_intent_phrases.clone(),
                forbidden_intent_terms: forbidden_intent_terms.clone(),
            },
        ResponseOperation::WaitOnYieldedCell { function_name, yield_time_ms, max_tokens } =>
            ResponseOperation::WaitOnYieldedCell {
                function_name: function_name.clone(),
                yield_time_ms: *yield_time_ms,
                max_tokens: *max_tokens,
            },
        ResponseOperation::WaitOnAnyYieldedCell { function_name, yield_time_ms, max_tokens } =>
            ResponseOperation::WaitOnAnyYieldedCell {
                function_name: function_name.clone(),
                yield_time_ms: *yield_time_ms,
                max_tokens: *max_tokens,
            },
        ResponseOperation::WaitOnYieldedSurfaces { surfaces, function_name, yield_time_ms, max_tokens } =>
            ResponseOperation::WaitOnYieldedSurfaces {
                surfaces: surfaces.clone(),
                function_name: function_name.clone(),
                yield_time_ms: *yield_time_ms,
                max_tokens: *max_tokens,
            },
    }
}

} // verus!
