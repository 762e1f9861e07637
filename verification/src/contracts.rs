//! Relation-frame contracts: typed atoms, selectors, roles and the frozen split.
use std::collections::BTreeMap;

use vstd::prelude::*;
use crate::text::str_eq;
use crate::program::{
    ResponseProgram, ResponseAdapterWaveConsensus, ResponseArgument, CustomToolResultProjection,
    ValueProjectionFormat, CollectionOutputRenderer, ProjectStatusMapping, CollectionProgramStep,
    copy_of_renderer, copy_of_wave_option, lemma_copy_of_wave_reflexive,
};

verus! {

pub const INGRESS_EVENT_SCHEMA: &'static str = "nando.response-ingress-event.v1";
pub const RELATION_FRAME_SCHEMA: &'static str = "nando.response-relation-frame.v1";
pub const ROLE_HYPOTHESIS_SCHEMA: &'static str = "nando.response-role-hypothesis.v1";
pub const PROGRAM_CANDIDATE_SCHEMA: &'static str = "nando.response-program-candidate.v1";
pub const VERIFIER_RECEIPT_SCHEMA: &'static str = "nando.response-verifier-receipt.v1";

#[derive(Clone, Copy, Debug, PartialEq, Eq, Structural)]
pub enum TrafficClass {
    Ordinary,
    Controlled,
}

#[derive(Clone, Debug, PartialEq, Eq)]
pub struct IngressEvent {
    pub schema: String,
    pub event_id_sha256: String,
    pub client_intent_id_sha256: String,
    pub session_id_sha256: String,
    pub parent_event_id_sha256: Option<String>,
    pub observed_at_unix_nanos: u64,
    pub traffic_class: TrafficClass,
    pub request_shape_sha256: String,
    pub evidence_ref_sha256: Option<String>,
    pub input_tokens: u64,
}

#[derive(Clone, Debug, PartialEq, Eq, PartialOrd, Ord)]
pub enum RelationAtom {
    TypedSlot { slot_id: u16, value_type: AtomValueType, source: AtomSource, value_sha256: String },
    SlotEquality { left_slot: u16, right_slot: u16 },
    UniqueSlot { slot_id: u16 },
    ObservationSelector { slot_id: u16, selector: ResponseValueSelector },
    ObservationCallShape { value: String },
    ActionFunction { value: String },
    ActionCustomTool { value: String },
    ActionInnerTool { value: String },
    ActionRoleArgument { name: String, slot_id: u16, value_type: Option<AtomValueType> },
    ActionIntegerArgument { name: String, value: u64 },
    ActionStringArgument { name: String, value: String },
    ActionBooleanArgument { name: String, value: bool },
    PlanState { step_count: u16, completed_count: u16, active_index: u16 },
    ActionPlanAdvance,
    ActionResultProjection { output_field: String, continuation_field: String, continuation_prefix: String },
    ActionOutputProjection { output_field: String },
    ActionJsonResultProjection,
    ActionValueProjection { format: ValueProjectionFormat, renderer: CollectionOutputRenderer },
    ActionStatusProjection { mapping: ProjectStatusMapping },
    CollectionShape { array_fields: u16, row_fields: u16 },
    RequestPhaseAtom { atom_id: u64 },
    ClientCapabilityAtom { atom_id: u64 },
    ReconstructedClientCapabilityAtom { atom_id: u64 },
    ToolKind { value: String },
    OutputStatus { value: String },
    TypedEquality { left_role: String, right_role: String },
    Cardinality { role: String, count: u32 },
    TemporalEdge { predecessor: String, successor: String },
    ResponseShape { value: String },
    CompletionState { value: String },
}

#[derive(Clone, Copy, Debug, PartialEq, Eq, PartialOrd, Ord, Hash, Structural)]
pub enum AtomValueType {
    String,
    Integer,
    Boolean,
    Identifier,
    Collection,
}

#[derive(Debug, PartialEq, Eq, PartialOrd, Ord)]
pub enum ResponseValueSelector {
    /// A resumable execution handle grounded by the protocol outcome rather
    /// than by a physical JSON field or scalar ordinal.
    ContinuationHandle { value_type: AtomValueType },
    UniqueScalar { value_type: AtomValueType },
    UniqueTurnScalar { value_type: AtomValueType },
    ContentLinePrefix { prefix: String, value_type: AtomValueType },
    JsonField { field: String, value_type: AtomValueType },
    JsonScalarOrdinal { ordinal: u16, value_type: AtomValueType },
    UniqueTurnJsonField { field: String, value_type: AtomValueType },
    UniqueActiveTurnJsonField { field: String, value_type: AtomValueType },
    RequestReferencedJsonField { value_type: AtomValueType },
    RequestReferencedJsonFieldOrdinal { ordinal: u16, value_type: AtomValueType },
    TurnOutputLine { output_ordinal: u16, line_index: u16, value_type: AtomValueType },
    TurnOutputScalarOrdinal { output_ordinal: u16, scalar_ordinal: u16, value_type: AtomValueType },
    LatestTurnOutputLine { line_index: u16, value_type: AtomValueType },
    LatestTurnOutputScalarOrdinal { scalar_ordinal: u16, value_type: AtomValueType },
    LatestTurnOutputScalarFromEnd { reverse_ordinal: u16, value_type: AtomValueType },
    CommandOutputBody,
    RequestLastToken,
    RequestUniqueLiteral,
}

impl Clone for ResponseValueSelector {
    fn clone(&self) -> (r: Self)
        ensures
            r == *self,
    {
        match self {
            ResponseValueSelector::ContinuationHandle { value_type } =>
                ResponseValueSelector::ContinuationHandle { value_type: *value_type },
            ResponseValueSelector::UniqueScalar { value_type } =>
                ResponseValueSelector::UniqueScalar { value_type: *value_type },
            ResponseValueSelector::UniqueTurnScalar { value_type } =>
                ResponseValueSelector::UniqueTurnScalar { value_type: *value_type },
            ResponseValueSelector::ContentLinePrefix { prefix, value_type } =>
                ResponseValueSelector::ContentLinePrefix { prefix: prefix.clone(), value_type: *value_type },
            ResponseValueSelector::JsonField { field, value_type } =>
                ResponseValueSelector::JsonField { field: field.clone(), value_type: *value_type },
            ResponseValueSelector::JsonScalarOrdinal { ordinal, value_type } =>
                ResponseValueSelector::JsonScalarOrdinal { ordinal: *ordinal, value_type: *value_type },
            ResponseValueSelector::UniqueTurnJsonField { field, value_type } =>
                ResponseValueSelector::UniqueTurnJsonField { field: field.clone(), value_type: *value_type },
            ResponseValueSelector::UniqueActiveTurnJsonField { field, value_type } =>
                ResponseValueSelector::UniqueActiveTurnJsonField { field: field.clone(), value_type: *value_type },
            ResponseValueSelector::RequestReferencedJsonField { value_type } =>
                ResponseValueSelector::RequestReferencedJsonField { value_type: *value_type },
            ResponseValueSelector::RequestReferencedJsonFieldOrdinal { ordinal, value_type } =>
                ResponseValueSelector::RequestReferencedJsonFieldOrdinal { ordinal: *ordinal, value_type: *value_type },
            ResponseValueSelector::TurnOutputLine { output_ordinal, line_index, value_type } =>
                ResponseValueSelector::TurnOutputLine {
                    output_ordinal: *output_ordinal,
                    line_index: *line_index,
                    value_type: *value_type,
                },
            ResponseValueSelector::TurnOutputScalarOrdinal { output_ordinal, scalar_ordinal, value_type } =>
                ResponseValueSelector::TurnOutputScalarOrdinal {
                    output_ordinal: *output_ordinal,
                    scalar_ordinal: *scalar_ordinal,
                    value_type: *value_type,
                },
            ResponseValueSelector::LatestTurnOutputLine { line_index, value_type } =>
                ResponseValueSelector::LatestTurnOutputLine { line_index: *line_index, value_type: *value_type },
            ResponseValueSelector::LatestTurnOutputScalarOrdinal { scalar_ordinal, value_type } =>
                ResponseValueSelector::LatestTurnOutputScalarOrdinal {
                    scalar_ordinal: *scalar_ordinal,
                    value_type: *value_type,
                },
            ResponseValueSelector::LatestTurnOutputScalarFromEnd { reverse_ordinal, value_type } =>
                ResponseValueSelector::LatestTurnOutputScalarFromEnd {
                    reverse_ordinal: *reverse_ordinal,
                    value_type: *value_type,
                },
            ResponseValueSelector::CommandOutputBody => ResponseValueSelector::CommandOutputBody,
            ResponseValueSelector::RequestLastToken => ResponseValueSelector::RequestLastToken,
            ResponseValueSelector::RequestUniqueLiteral => ResponseValueSelector::RequestUniqueLiteral,
        }
    }
}

pub open spec fn spec_selector_denotes_continuation_handle(selector: ResponseValueSelector) -> bool {
    match selector {
        ResponseValueSelector::ContinuationHandle { .. } => true,
        ResponseValueSelector::ContentLinePrefix { prefix, .. } =>
            prefix@ == "Script running with cell ID "@ || prefix@ == "Process running with session ID "@,
        _ => false,
    }
}

/// Protocol-level continuation selectors identify a resumable execution even
/// when a legacy frame did not canonicalize its completion state to `pending`.
pub fn selector_denotes_continuation_handle(selector: &ResponseValueSelector) -> (r: bool)
    ensures
        r == spec_selector_denotes_continuation_handle(*selector),
{
    match selector {
        ResponseValueSelector::ContinuationHandle { .. } => true,
        ResponseValueSelector::ContentLinePrefix { prefix, .. } => {
            str_eq(prefix.as_str(), "Script running with cell ID ")
                || str_eq(prefix.as_str(), "Process running with session ID ")
        },
        _ => false,
    }
}

#[derive(Clone, Copy, Debug, PartialEq, Eq, PartialOrd, Ord, Hash, Structural)]
pub enum AtomSource {
    Request,
    Observation,
    Action,
    Outcome,
}

#[derive(Clone, Debug, PartialEq, Eq)]
pub struct RelationFrame {
    pub schema: String,
    pub frame_id_sha256: String,
    pub event_id_sha256: String,
    pub client_intent_id_sha256: String,
    pub session_id_sha256: String,
    pub observed_at_unix_nanos: u64,
    pub estimated_input_tokens: u64,
    pub extractor_version: String,
    pub verifier_label: Option<bool>,
    pub atoms: Vec<RelationAtom>,
    pub evidence_ref_sha256: String,
}

#[derive(Clone, Copy, Debug, PartialEq, Eq, PartialOrd, Ord, Hash, Structural)]
pub enum SemanticRole {
    Selector,
    SourceValue,
    TargetValue,
    RecordOrCellId,
    StatusOrResult,
    ContinuationHandle,
    Collection,
    OrderingKey,
    FormatTarget,
}

#[derive(Clone, Debug, PartialEq, Eq)]
pub struct RoleHypothesis {
    pub schema: String,
    pub hypothesis_id_sha256: String,
    pub frame_family_id: u64,
    pub bindings: BTreeMap<SemanticRole, usize>,
    pub competing_binding_count: usize,
    pub description_length_bytes: usize,
}

#[derive(Clone, Debug, PartialEq, Eq)]
pub struct GuardCandidate {
    pub required_atom_indices: Vec<usize>,
    pub forbidden_atom_indices: Vec<usize>,
    pub require_unique_selector: bool,
    pub max_evidence_age_ms: u64,
}

#[derive(Clone, Debug, PartialEq, Eq)]
pub struct ResponseProgramCandidate {
    pub schema: String,
    pub candidate_id_sha256: String,
    pub role_hypothesis_id_sha256: String,
    pub program: ResponseProgram,
    pub guard: GuardCandidate,
    pub phase_rank: u32,
    pub exact_checks: u32,
    pub description_length_bytes: usize,
}

#[derive(Clone, Debug, PartialEq, Eq)]
pub struct VerifierReceipt {
    pub schema: String,
    pub verifier_id: String,
    pub verifier_version: String,
    pub candidate_id_sha256: String,
    pub evidence_ref_sha256: String,
    pub output_sha256: String,
    pub verified_at_unix_nanos: u64,
    pub accepted: bool,
}

#[derive(Debug, PartialEq, Eq)]
pub struct VerifierConsensusVariant {
    pub verifier: VerifierProgram,
    pub allowed_layout_sha256: Vec<String>,
    pub required_request_atom_ids: Vec<u64>,
}

#[derive(Debug, PartialEq, Eq)]
pub enum VerifierProgram {
    UniqueConsensus { variants: Vec<VerifierConsensusVariant>, adapter_wave: Option<ResponseAdapterWaveConsensus> },
    AdvancePlan { function_name: String, require_explicit_tool_success: bool, require_canonical_plan: bool },
    FunctionCallFromRoles {
        function_name: String,
        selector: ResponseValueSelector,
        role_arguments: BTreeMap<String, SemanticRole>,
        role_argument_types: BTreeMap<String, AtomValueType>,
        integer_arguments: BTreeMap<String, u64>,
        string_arguments: BTreeMap<String, String>,
        boolean_arguments: BTreeMap<String, bool>,
        require_pending_state: bool,
        require_unique_handle: bool,
    },
    CustomToolCallFromRoles {
        custom_tool_name: String,
        inner_tool_name: String,
        selector: ResponseValueSelector,
        arguments: Vec<ResponseArgument>,
        projection: CustomToolResultProjection,
        require_pending_state: bool,
        require_unique_handle: bool,
    },
    ProjectSelectedValue {
        selector: ResponseValueSelector,
        format: ValueProjectionFormat,
        renderer: CollectionOutputRenderer,
        completion_state: String,
        require_unique_value: bool,
    },
    ContinueHandle { require_observation_action_equality: bool, require_pending_state: bool, require_unique_handle: bool },
    ProjectStatus {
        selector: ResponseValueSelector,
        mapping: ProjectStatusMapping,
        renderer: CollectionOutputRenderer,
        completion_state: String,
        require_unique_value: bool,
    },
    ComposeCollection {
        steps: Vec<CollectionProgramStep>,
        format: ValueProjectionFormat,
        renderer: CollectionOutputRenderer,
        completion_state: String,
        max_items: usize,
    },
}

#[derive(Clone, Copy, Debug, PartialEq, Eq, Structural)]
pub enum FrozenSplitError {
    EmptySupport,
    EmptyFuture,
    FutureNotAfterBoundary,
    SessionLeakage,
    IntentLeakage,
}

/// What `validate_frozen_future_split` decides for a support and a future partition.
pub open spec fn spec_frozen_future_split(
    support: Seq<RelationFrame>,
    future: Seq<RelationFrame>,
    boundary: u64,
) -> Result<(), FrozenSplitError> {
    if support.len() == 0 {
        Err(FrozenSplitError::EmptySupport)
    } else if future.len() == 0 {
        Err(FrozenSplitError::EmptyFuture)
    } else if (exists|i: int| 0 <= i < support.len() && #[trigger] support[i].observed_at_unix_nanos > boundary)
        || (exists|i: int| 0 <= i < future.len() && #[trigger] future[i].observed_at_unix_nanos <= boundary) {
        Err(FrozenSplitError::FutureNotAfterBoundary)
    } else if exists|i: int, j: int| 0 <= i < future.len() && 0 <= j < support.len()
        && #[trigger] future[i].session_id_sha256@ == #[trigger] support[j].session_id_sha256@ {
        Err(FrozenSplitError::SessionLeakage)
    } else if exists|i: int, j: int| 0 <= i < future.len() && 0 <= j < support.len()
        && #[trigger] future[i].client_intent_id_sha256@ == #[trigger] support[j].client_intent_id_sha256@ {
        Err(FrozenSplitError::IntentLeakage)
    } else {
        Ok(())
    }
}

fn any_after(rows: &[RelationFrame], boundary: u64) -> (r: bool)
    ensures
        r == exists|i: int| 0 <= i < rows@.len() && #[trigger] rows@[i].observed_at_unix_nanos > boundary,
{
    let mut i: usize = 0;
    while i < rows.len()
        invariant
            i <= rows@.len(),
            forall|k: int| 0 <= k < i ==> #[trigger] rows@[k].observed_at_unix_nanos <= boundary,
        decreases rows@.len() - i,
    {
        if rows[i].observed_at_unix_nanos > boundary {
            return true;
        }
        i = i + 1;
    }
    false
}

fn any_not_after(rows: &[RelationFrame], boundary: u64) -> (r: bool)
    ensures
        r == exists|i: int| 0 <= i < rows@.len() && #[trigger] rows@[i].observed_at_unix_nanos <= boundary,
{
    let mut i: usize = 0;
    while i < rows.len()
        invariant
            i <= rows@.len(),
            forall|k: int| 0 <= k < i ==> #[trigger] rows@[k].observed_at_unix_nanos > boundary,
        decreases rows@.len() - i,
    {
        if rows[i].observed_at_unix_nanos <= boundary {
            return true;
        }
        i = i + 1;
    }
    false
}

fn shares_session(future: &[RelationFrame], support: &[RelationFrame]) -> (r: bool)
    ensures
        r == exists|i: int, j: int| 0 <= i < future@.len() && 0 <= j < support@.len()
            && #[trigger] future@[i].session_id_sha256@ == #[trigger] support@[j].session_id_sha256@,
{
    let mut i: usize = 0;
    while i < future.len()
        invariant
            i <= future@.len(),
            forall|a: int, b: int| 0 <= a < i && 0 <= b < support@.len()
                ==> #[trigger] future@[a].session_id_sha256@ != #[trigger] support@[b].session_id_sha256@,
        decreases future@.len() - i,
    {
        let mut j: usize = 0;
        while j < support.len()
            invariant
                i < future@.len(),
                j <= support@.len(),
                forall|a: int, b: int| 0 <= a < i && 0 <= b < support@.len()
                    ==> #[trigger] future@[a].session_id_sha256@ != #[trigger] support@[b].session_id_sha256@,
                forall|b: int| 0 <= b < j ==> future@[i as int].session_id_sha256@ != #[trigger] support@[b].session_id_sha256@,
            decreases support@.len() - j,
        {
            if future[i].session_id_sha256 == support[j].session_id_sha256 {
                return true;
            }
            j = j + 1;
        }
        i = i + 1;
    }
    false
}

fn shares_intent(future: &[RelationFrame], support: &[RelationFrame]) -> (r: bool)
    ensures
        r == exists|i: int, j: int| 0 <= i < future@.len() && 0 <= j < support@.len()
            && #[trigger] future@[i].client_intent_id_sha256@ == #[trigger] support@[j].client_intent_id_sha256@,
{
    let mut i: usize = 0;
    while i < future.len()
        invariant
            i <= future@.len(),
            forall|a: int, b: int| 0 <= a < i && 0 <= b < support@.len()
                ==> #[trigger] future@[a].client_intent_id_sha256@ != #[trigger] support@[b].client_intent_id_sha256@,
        decreases future@.len() - i,
    {
        let mut j: usize = 0;
        while j < support.len()
            invariant
                i < future@.len(),
                j <= support@.len(),
                forall|a: int, b: int| 0 <= a < i && 0 <= b < support@.len()
                    ==> #[trigger] future@[a].client_intent_id_sha256@ != #[trigger] support@[b].client_intent_id_sha256@,
                forall|b: int| 0 <= b < j ==> future@[i as int].client_intent_id_sha256@ != #[trigger] support@[b].client_intent_id_sha256@,
            decreases support@.len() - j,
        {
            if future[i].client_intent_id_sha256 == support[j].client_intent_id_sha256 {
                return true;
            }
            j = j + 1;
        }
        i = i + 1;
    }
    false
}

/// Checks that the future partition lies strictly after the boundary and
/// shares neither a session nor a client intent with the support partition.
pub fn validate_frozen_future_split(
    support: &[RelationFrame],
    future: &[RelationFrame],
    boundary_unix_nanos: u64,
) -> (r: Result<(), FrozenSplitError>)
    ensures
        r == spec_frozen_future_split(support@, future@, boundary_unix_nanos),
{
    if support.len() == 0 {
        return Err(FrozenSplitError::EmptySupport);
    }
    if future.len() == 0 {
        return Err(FrozenSplitError::EmptyFuture);
    }
    if any_after(support, boundary_unix_nanos) || any_not_after(future, boundary_unix_nanos) {
        return Err(FrozenSplitError::FutureNotAfterBoundary);
    }
    if shares_session(future, support) {
        return Err(FrozenSplitError::SessionLeakage);
    }
    if shares_intent(future, support) {
        return Err(FrozenSplitError::IntentLeakage);
    }
    Ok(())
}

/// `b` is a copy of the verifier `a`: the same verifier with the same
/// fields, each list and map the same, and copies of its consensus variants,
/// adapter wave and renderer.
pub open spec fn copy_of_verifier(a: VerifierProgram, b: VerifierProgram) -> bool
    decreases a,
{
    match a {
        VerifierProgram::UniqueConsensus { variants, adapter_wave } => match b {
            VerifierProgram::UniqueConsensus { variants: v, adapter_wave: w } => {
                &&& v@.len() == variants@.len()
                &&& forall|i: int| 0 <= i < variants@.len() ==> {
                    &&& (#[trigger] v@[i]).allowed_layout_sha256@ == variants@[i].allowed_layout_sha256@
                    &&& v@[i].required_request_atom_ids@ == variants@[i].required_request_atom_ids@
                    &&& copy_of_verifier(variants@[i].verifier, v@[i].verifier)
                }
                &&& copy_of_wave_option(adapter_wave, w)
            },
            _ => false,
        },
        VerifierProgram::FunctionCallFromRoles {
            function_name, selector, role_arguments, role_argument_types, integer_arguments,
            string_arguments, boolean_arguments, require_pending_state, require_unique_handle,
        } => b matches VerifierProgram::FunctionCallFromRoles {
            function_name: f, selector: s, role_arguments: ra, role_argument_types: rt, integer_arguments: ia,
            string_arguments: sa, boolean_arguments: ba, require_pending_state: p, require_unique_handle: u,
        } && f == function_name && s == selector && ra@ == role_arguments@ && rt@ == role_argument_types@
            && ia@ == integer_arguments@ && sa@ == string_arguments@ && ba@ == boolean_arguments@
            && p == require_pending_state && u == require_unique_handle,
        VerifierProgram::CustomToolCallFromRoles {
            custom_tool_name, inner_tool_name, selector, arguments, projection,
            require_pending_state, require_unique_handle,
        } => b matches VerifierProgram::CustomToolCallFromRoles {
            custom_tool_name: c, inner_tool_name: n, selector: s, arguments: x, projection: j,
            require_pending_state: p, require_unique_handle: u,
        } && c == custom_tool_name && n == inner_tool_name && s == selector && x@ == arguments@
            && j == projection && p == require_pending_state && u == require_unique_handle,
        VerifierProgram::ProjectSelectedValue { selector, format, renderer, completion_state, require_unique_value } =>
            b matches VerifierProgram::ProjectSelectedValue {
                selector: s, format: f, renderer: d, completion_state: c, require_unique_value: u,
            } && s == selector && f == format && copy_of_renderer(renderer, d) && c == completion_state
                && u == require_unique_value,
        VerifierProgram::ProjectStatus { selector, mapping, renderer, completion_state, require_unique_value } =>
            b matches VerifierProgram::ProjectStatus {
                selector: s, mapping: m, renderer: d, completion_state: c, require_unique_value: u,
            } && s == selector && m == mapping && copy_of_renderer(renderer, d) && c == completion_state
                && u == require_unique_value,
        VerifierProgram::ComposeCollection { steps, format, renderer, completion_state, max_items } =>
            b matches VerifierProgram::ComposeCollection {
                steps: x, format: f, renderer: d, completion_state: c, max_items: m,
            } && x@ == steps@ && f == format && copy_of_renderer(renderer, d) && c == completion_state && m == max_items,
        _ => b == a,
    }
}

/// `b` is a copy of the verifier variant `a`.
pub open spec fn copy_of_verifier_variant(a: VerifierConsensusVariant, b: VerifierConsensusVariant) -> bool {
    &&& b.allowed_layout_sha256@ == a.allowed_layout_sha256@
    &&& b.required_request_atom_ids@ == a.required_request_atom_ids@
    &&& copy_of_verifier(a.verifier, b.verifier)
}

impl Clone for VerifierProgram {
    fn clone(&self) -> (r: Self)
        ensures
            copy_of_verifier(*self, r),
    {
        clone_verifier(self)
    }
}

impl Clone for VerifierConsensusVariant {
    fn clone(&self) -> (r: Self)
        ensures
            copy_of_verifier_variant(*self, r),
    {
        let layouts = self.allowed_layout_sha256.clone();
        assert(layouts@ =~= self.allowed_layout_sha256@);
        let atoms = self.required_request_atom_ids.clone();
        assert(atoms@ =~= self.required_request_atom_ids@);
        VerifierConsensusVariant {
            verifier: clone_verifier(&self.verifier),
            allowed_layout_sha256: layouts,
            required_request_atom_ids: atoms,
        }
    }
}

#[verifier::loop_isolation(false)]
fn clone_verifier(v: &VerifierProgram) -> (r: VerifierProgram)
    ensures
        copy_of_verifier(*v, r),
    decreases v,
{
    match v {
        VerifierProgram::UniqueConsensus { variants, adapter_wave } => {
            let mut out: Vec<VerifierConsensusVariant> = Vec::new();
            let mut i: usize = 0;
            while i < variants.len()
                invariant
                    i <= variants@.len(),
                    out@.len() == i,
                    forall|j: int| 0 <= j < i ==> copy_of_verifier_variant(#[trigger] variants@[j], out@[j]),
                decreases variants@.len() - i,
            {
                let x = &variants[i];
                proof {
                    assert(decreases_to!(*v => v->variants));
                    assert(decreases_to!(v->variants => variants@));
                    assert(decreases_to!(variants@ => variants@[i as int]));
                    assert(decreases_to!(variants@[i as int] => variants@[i as int].verifier));
                }
                let layouts = x.allowed_layout_sha256.clone();
                assert(layouts@ =~= x.allowed_layout_sha256@);
                let atoms = x.required_request_atom_ids.clone();
                assert(atoms@ =~= x.required_request_atom_ids@);
                out.push(VerifierConsensusVariant {
                    verifier: clone_verifier(&x.verifier),
                    allowed_layout_sha256: layouts,
                    required_request_atom_ids: atoms,
                });
                i = i + 1;
            }
            let w = adapter_wave.clone();
            proof {
                if adapter_wave.is_some() {
                    lemma_copy_of_wave_reflexive(adapter_wave.unwrap());
                }
            }
            assert forall|j: int| 0 <= j < variants@.len() implies {
                &&& (#[trigger] out@[j]).allowed_layout_sha256@ == variants@[j].allowed_layout_sha256@
                &&& out@[j].required_request_atom_ids@ == variants@[j].required_request_atom_ids@
                &&& copy_of_verifier(variants@[j].verifier, out@[j].verifier)
            } by {
                assert(copy_of_verifier_variant(variants@[j], out@[j]));
            }
            VerifierProgram::UniqueConsensus { variants: out, adapter_wave: w }
        },
        VerifierProgram::AdvancePlan { function_name, require_explicit_tool_success, require_canonical_plan } =>
            VerifierProgram::AdvancePlan {
                function_name: function_name.clone(),
                require_explicit_tool_success: *require_explicit_tool_success,
                require_canonical_plan: *require_canonical_plan,
            },
        VerifierProgram::FunctionCallFromRoles {
            function_name, selector, role_arguments, role_argument_types, integer_arguments,
            string_arguments, boolean_arguments, require_pending_state, require_unique_handle,
        } => VerifierProgram::FunctionCallFromRoles {
            function_name: function_name.clone(),
            selector: selector.clone(),
            role_arguments: role_arguments.clone(),
            role_argument_types: role_argument_types.clone(),
            integer_arguments: integer_arguments.clone(),
            string_arguments: string_arguments.clone(),
            boolean_arguments: boolean_arguments.clone(),
            require_pending_state: *require_pending_state,
            require_unique_handle: *require_unique_handle,
        },
        VerifierProgram::CustomToolCallFromRoles {
            custom_tool_name, inner_tool_name, selector, arguments, projection,
            require_pending_state, require_unique_handle,
        } => VerifierProgram::CustomToolCallFromRoles {
            custom_tool_name: custom_tool_name.clone(),
            inner_tool_name: inner_tool_name.clone(),
            selector: selector.clone(),
            arguments: arguments.clone(),
            projection: projection.clone(),
            require_pending_state: *require_pending_state,
            require_unique_handle: *require_unique_handle,
        },
        VerifierProgram::ProjectSelectedValue { selector, format, renderer, completion_state, require_unique_value } =>
            VerifierProgram::ProjectSelectedValue {
                selector: selector.clone(),
                format: *format,
                renderer: renderer.clone(),
                completion_state: completion_state.clone(),
                require_unique_value: *require_unique_value,
            },
        VerifierProgram::ContinueHandle { require_observation_action_equality, require_pending_state, require_unique_handle } =>
            VerifierProgram::ContinueHandle {
                require_observation_action_equality: *require_observation_action_equality,
                require_pending_state: *require_pending_state,
                require_unique_handle: *require_unique_handle,
            },
        VerifierProgram::ProjectStatus { selector, mapping, renderer, completion_state, require_unique_value } =>
            VerifierProgram::ProjectStatus {
                selector: selector.clone(),
                mapping: *mapping,
                renderer: renderer.clone(),
                completion_state: completion_state.clone(),
                require_unique_value: *require_unique_value,
            },
        VerifierProgram::ComposeCollection { steps, format, renderer, completion_state, max_items } =>
            VerifierProgram::ComposeCollection {
                steps: steps.clone(),
                format: *format,
                renderer: renderer.clone(),
                completion_state: completion_state.clone(),
                max_items: *max_items,
            },
    }
}

} // verus!
