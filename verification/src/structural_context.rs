//! Structural context of a runtime request: bounded extraction budgets,
//! canonical structural and request views, and extraction receipts, each
//! bound to its own digest.
use vstd::prelude::*;
use crate::binding::{
    BindingCallLineageV1, BindingCapabilityClassV1, BindingCompletionStateV1, BindingRequestRelationV1,
    BindingSourceEventClassV1, BindingValueTypeV1,
};
use crate::text::{utf8, str_eq, lemma_utf8_injective};
use crate::relation_routing::{sorted_unique, sort_dedup_u64};
use crate::digest::{is_sha256_text, is_sha256, sha256_hex};
use crate::json::{
    CanonicalJson, json_str, write_str, object, begin_object, write_member, write_member_str, end_object,
    json_identity, ObjectState, object_open,
};

verus! {

pub const CANONICAL_RUNTIME_STRUCTURAL_VIEW_SCHEMA_V3: &'static str = "nando.canonical-runtime-structural-view.v3";
pub const CANONICAL_RUNTIME_REQUEST_VIEW_SCHEMA_V3: &'static str = "nando.canonical-runtime-request-view.v3";
pub const RUNTIME_CONTEXT_EXTRACTION_RECEIPT_SCHEMA_V3: &'static str = "nando.runtime-context-extraction-receipt.v3";

pub const MAX_STRUCTURAL_JSON_NODES_V3: usize = 16384;
pub const MAX_STRUCTURAL_TEXT_BYTES_V3: usize = 262144;
pub const MAX_STRUCTURAL_RECENT_EVENTS_V3: usize = 32;
pub const MAX_STRUCTURAL_ROLE_CANDIDATES_V3: usize = 8192;
pub const MAX_STRUCTURAL_RELATIONS_V3: usize = 65536;

#[derive(Clone, Copy, Debug, PartialEq, Eq, Structural)]
pub struct StructuralExtractionBudgetV3 {
    pub max_json_nodes: usize,
    pub max_text_bytes: usize,
    pub max_recent_events: usize,
    pub max_role_candidates: usize,
    pub max_relations: usize,
}

#[derive(Clone, Copy, Debug, PartialEq, Eq, Structural)]
pub enum StructuralExtractionScopeV3 {
    FrozenEvidence,
    PreActionRuntime,
}

#[derive(Clone, Debug, PartialEq, Eq)]
pub struct StructuralContextV3 {
    pub call_shape_count: u16,
    pub capability_count: u16,
    pub completion_state: BindingCompletionStateV1,
    pub temporal_relation_count: u16,
    pub cardinality_relation_count: u16,
    pub topology_neighborhood_root_sha256: String,
}

#[derive(Clone, Debug, PartialEq, Eq)]
pub struct StructuralCandidateFeaturesV3 {
    pub source_event_class: BindingSourceEventClassV1,
    pub call_lineage: BindingCallLineageV1,
    pub capability_class: BindingCapabilityClassV1,
    pub temporal_distance: u16,
    pub completion_state: BindingCompletionStateV1,
    pub event_candidate_cardinality: u16,
    pub value_type: BindingValueTypeV1,
    pub request_relation: BindingRequestRelationV1,
    pub topology_neighborhood_root_sha256: String,
}

#[derive(Clone, Debug, PartialEq, Eq)]
pub struct StructuralCandidateObservationV3 {
    pub source_role_id: u16,
    pub value_sha256: String,
    /// Normalized values of the bounded walk; canonical views and receipts
    /// leave them out.
    pub normalized_values: Vec<String>,
    pub features: StructuralCandidateFeaturesV3,
    pub occurrence_count: u16,
}

#[derive(Clone, Copy, Debug, PartialEq, Eq, Structural)]
pub struct CanonicalStructuralSourceBindingV3 {
    pub source_role_id: u16,
    pub canonical_role_id: u16,
}

#[derive(Clone, Copy, Debug, PartialEq, Eq, Structural)]
pub enum StructuralRelationKindV3 {
    SameValue,
    SameCallLineage,
    SameTopologyNeighborhood,
    AdjacentTemporalDistance,
}

#[derive(Clone, Copy, Debug, PartialEq, Eq, Structural)]
pub struct StructuralSourceRelationV3 {
    pub left_source_role_id: u16,
    pub right_source_role_id: u16,
    pub relation: StructuralRelationKindV3,
}

#[derive(Clone, Debug, PartialEq, Eq)]
pub struct StructuralExtractionV3 {
    pub candidates: Vec<StructuralCandidateObservationV3>,
    pub relations: Vec<StructuralSourceRelationV3>,
    pub json_nodes_visited: usize,
    pub text_bytes_visited: usize,
    pub candidates_before_budget: usize,
    pub candidate_budget_exhausted: bool,
    pub relation_budget_exhausted: bool,
}

#[derive(Clone, Debug, PartialEq, Eq)]
pub struct CanonicalStructuralRoleV3 {
    pub role_id: u16,
    pub features: StructuralCandidateFeaturesV3,
    pub occurrence_count: u16,
}

#[derive(Clone, Copy, Debug, PartialEq, Eq, Structural)]
pub struct CanonicalStructuralRelationV3 {
    pub left_role_id: u16,
    pub right_role_id: u16,
    pub relation: StructuralRelationKindV3,
}

#[derive(Clone, Debug, PartialEq, Eq)]
pub struct CanonicalRuntimeStructuralViewV3 {
    pub schema: String,
    pub structural_view_sha256: String,
    pub context: StructuralContextV3,
    pub roles: Vec<CanonicalStructuralRoleV3>,
    pub relations: Vec<CanonicalStructuralRelationV3>,
}

#[derive(Clone, Copy, Debug, PartialEq, Eq, Structural)]
pub enum RuntimeProjectionV3 {
    Responses,
    ChatCompletions,
    TransitionApi,
}

#[derive(Clone, Copy, Debug, PartialEq, Eq, Structural)]
pub enum RuntimeCapabilityKindV3 {
    Function,
    Custom,
}

#[derive(Clone, Debug, PartialEq, Eq)]
pub struct RuntimeCapabilityDescriptorV3 {
    pub capability_id: u16,
    pub kind: RuntimeCapabilityKindV3,
    pub argument_types: Vec<BindingValueTypeV1>,
    pub required_arity: u16,
}

#[derive(Clone, Debug, PartialEq, Eq)]
pub struct CanonicalRuntimeRequestViewV3 {
    pub schema: String,
    pub request_view_sha256: String,
    pub projection: RuntimeProjectionV3,
    pub request_relation_atoms: Vec<u64>,
    pub structural: CanonicalRuntimeStructuralViewV3,
    pub capabilities: Vec<RuntimeCapabilityDescriptorV3>,
}

#[derive(Clone, Copy, Debug, PartialEq, Eq, Structural)]
pub enum RuntimeContextExtractionVerdictV3 {
    Complete,
    AbstainBudgetExhausted,
    AbstainInvalidRequest,
}

#[derive(Clone, Debug, PartialEq, Eq)]
pub struct ExtractionReceiptV3 {
    pub schema: String,
    pub receipt_sha256: String,
    pub request_sha256: String,
    pub request_view_sha256: Option<String>,
    pub projection: RuntimeProjectionV3,
    pub verdict: RuntimeContextExtractionVerdictV3,
    pub json_nodes_visited: usize,
    pub text_bytes_visited: usize,
    pub role_candidates: usize,
    pub relations: usize,
    pub advertised_capabilities: usize,
    pub extraction_count: u8,
    pub teacher_or_action_fields_consumed: u8,
    pub raw_payloads_persisted: u8,
    pub execution_authority: bool,
}

#[derive(Clone, Copy, Debug, PartialEq, Eq, Structural)]
pub enum StructuralExtractionErrorV3 {
    InvalidBudget,
    InvalidContext,
    InvalidDigest,
    InvalidSource,
    BudgetExhausted,
    Serialization,
}

// ---------------------------------------------------------------- canonical JSON

impl CanonicalJson for StructuralRelationKindV3 {
    open spec fn json(&self) -> Seq<u8> {
        match self {
            StructuralRelationKindV3::SameValue => json_str("same_value"@),
            StructuralRelationKindV3::SameCallLineage => json_str("same_call_lineage"@),
            StructuralRelationKindV3::SameTopologyNeighborhood => json_str("same_topology_neighborhood"@),
            StructuralRelationKindV3::AdjacentTemporalDistance => json_str("adjacent_temporal_distance"@),
        }
    }

    fn write_json(&self, out: &mut Vec<u8>) {
        match self {
            StructuralRelationKindV3::SameValue => write_str(out, "same_value"),
            StructuralRelationKindV3::SameCallLineage => write_str(out, "same_call_lineage"),
            StructuralRelationKindV3::SameTopologyNeighborhood => write_str(out, "same_topology_neighborhood"),
            StructuralRelationKindV3::AdjacentTemporalDistance => write_str(out, "adjacent_temporal_distance"),
        }
    }
}

impl CanonicalJson for RuntimeProjectionV3 {
    open spec fn json(&self) -> Seq<u8> {
        match self {
            RuntimeProjectionV3::Responses => json_str("responses"@),
            RuntimeProjectionV3::ChatCompletions => json_str("chat_completions"@),
            RuntimeProjectionV3::TransitionApi => json_str("transition_api"@),
        }
    }

    fn write_json(&self, out: &mut Vec<u8>) {
        match self {
            RuntimeProjectionV3::Responses => write_str(out, "responses"),
            RuntimeProjectionV3::ChatCompletions => write_str(out, "chat_completions"),
            RuntimeProjectionV3::TransitionApi => write_str(out, "transition_api"),
        }
    }
}

impl CanonicalJson for RuntimeCapabilityKindV3 {
    open spec fn json(&self) -> Seq<u8> {
        match self {
            RuntimeCapabilityKindV3::Function => json_str("function"@),
            RuntimeCapabilityKindV3::Custom => json_str("custom"@),
        }
    }

    fn write_json(&self, out: &mut Vec<u8>) {
        match self {
            RuntimeCapabilityKindV3::Function => write_str(out, "function"),
            RuntimeCapabilityKindV3::Custom => write_str(out, "custom"),
        }
    }
}

impl CanonicalJson for RuntimeContextExtractionVerdictV3 {
    open spec fn json(&self) -> Seq<u8> {
        match self {
            RuntimeContextExtractionVerdictV3::Complete => json_str("complete"@),
            RuntimeContextExtractionVerdictV3::AbstainBudgetExhausted => json_str("abstain_budget_exhausted"@),
            RuntimeContextExtractionVerdictV3::AbstainInvalidRequest => json_str("abstain_invalid_request"@),
        }
    }

    fn write_json(&self, out: &mut Vec<u8>) {
        match self {
            RuntimeContextExtractionVerdictV3::Complete => write_str(out, "complete"),
            RuntimeContextExtractionVerdictV3::AbstainBudgetExhausted => write_str(out, "abstain_budget_exhausted"),
            RuntimeContextExtractionVerdictV3::AbstainInvalidRequest => write_str(out, "abstain_invalid_request"),
        }
    }
}

impl CanonicalJson for StructuralContextV3 {
    open spec fn json(&self) -> Seq<u8> {
        object(seq![("call_shape_count"@, self.call_shape_count.json())]
            .push(("capability_count"@, self.capability_count.json()))
            .push(("cardinality_relation_count"@, self.cardinality_relation_count.json()))
            .push(("completion_state"@, self.completion_state.json()))
            .push(("temporal_relation_count"@, self.temporal_relation_count.json()))
            .push(("topology_neighborhood_root_sha256"@, self.topology_neighborhood_root_sha256.json())))
    }

    fn write_json(&self, out: &mut Vec<u8>) {
        let st = begin_object(out);
        let st = write_member(out, st, "call_shape_count", &self.call_shape_count);
        let st = write_member(out, st, "capability_count", &self.capability_count);
        let st = write_member(out, st, "cardinality_relation_count", &self.cardinality_relation_count);
        let st = write_member(out, st, "completion_state", &self.completion_state);
        let st = write_member(out, st, "temporal_relation_count", &self.temporal_relation_count);
        let st = write_member(out, st, "topology_neighborhood_root_sha256", &self.topology_neighborhood_root_sha256);
        end_object(out, st);
    }
}

impl CanonicalJson for StructuralCandidateFeaturesV3 {
    open spec fn json(&self) -> Seq<u8> {
        object(seq![("call_lineage"@, self.call_lineage.json())]
            .push(("capability_class"@, self.capability_class.json()))
            .push(("completion_state"@, self.completion_state.json()))
            .push(("event_candidate_cardinality"@, self.event_candidate_cardinality.json()))
            .push(("request_relation"@, self.request_relation.json()))
            .push(("source_event_class"@, self.source_event_class.json()))
            .push(("temporal_distance"@, self.temporal_distance.json()))
            .push(("topology_neighborhood_root_sha256"@, self.topology_neighborhood_root_sha256.json()))
            .push(("value_type"@, self.value_type.json())))
    }

    fn write_json(&self, out: &mut Vec<u8>) {
        let st = begin_object(out);
        let st = write_member(out, st, "call_lineage", &self.call_lineage);
        let st = write_member(out, st, "capability_class", &self.capability_class);
        let st = write_member(out, st, "completion_state", &self.completion_state);
        let st = write_member(out, st, "event_candidate_cardinality", &self.event_candidate_cardinality);
        let st = write_member(out, st, "request_relation", &self.request_relation);
        let st = write_member(out, st, "source_event_class", &self.source_event_class);
        let st = write_member(out, st, "temporal_distance", &self.temporal_distance);
        let st = write_member(out, st, "topology_neighborhood_root_sha256", &self.topology_neighborhood_root_sha256);
        let st = write_member(out, st, "value_type", &self.value_type);
        end_object(out, st);
    }
}

impl CanonicalJson for CanonicalStructuralRoleV3 {
    open spec fn json(&self) -> Seq<u8> {
        object(seq![("features"@, self.features.json())]
            .push(("occurrence_count"@, self.occurrence_count.json()))
            .push(("role_id"@, self.role_id.json())))
    }

    fn write_json(&self, out: &mut Vec<u8>) {
        let st = begin_object(out);
        let st = write_member(out, st, "features", &self.features);
        let st = write_member(out, st, "occurrence_count", &self.occurrence_count);
        let st = write_member(out, st, "role_id", &self.role_id);
        end_object(out, st);
    }
}

impl CanonicalJson for CanonicalStructuralRelationV3 {
    open spec fn json(&self) -> Seq<u8> {
        object(seq![("left_role_id"@, self.left_role_id.json())]
            .push(("relation"@, self.relation.json()))
            .push(("right_role_id"@, self.right_role_id.json())))
    }

    fn write_json(&self, out: &mut Vec<u8>) {
        let st = begin_object(out);
        let st = write_member(out, st, "left_role_id", &self.left_role_id);
        let st = write_member(out, st, "relation", &self.relation);
        let st = write_member(out, st, "right_role_id", &self.right_role_id);
        end_object(out, st);
    }
}

impl CanonicalJson for RuntimeCapabilityDescriptorV3 {
    open spec fn json(&self) -> Seq<u8> {
        object(seq![("argument_types"@, self.argument_types.json())]
            .push(("capability_id"@, self.capability_id.json()))
            .push(("kind"@, self.kind.json()))
            .push(("required_arity"@, self.required_arity.json())))
    }

    fn write_json(&self, out: &mut Vec<u8>) {
        let st = begin_object(out);
        let st = write_member(out, st, "argument_types", &self.argument_types);
        let st = write_member(out, st, "capability_id", &self.capability_id);
        let st = write_member(out, st, "kind", &self.kind);
        let st = write_member(out, st, "required_arity", &self.required_arity);
        end_object(out, st);
    }
}

/// The JSON of a structural view, with the given bytes as its identity field.
pub open spec fn view_json_with(v: CanonicalRuntimeStructuralViewV3, id: Seq<u8>) -> Seq<u8> {
    object(seq![("context"@, v.context.json())]
        .push(("relations"@, v.relations.json()))
        .push(("roles"@, v.roles.json()))
        .push(("schema"@, json_str(v.schema@)))
        .push(("structural_view_sha256"@, id)))
}

impl CanonicalJson for CanonicalRuntimeStructuralViewV3 {
    open spec fn json(&self) -> Seq<u8> {
        view_json_with(*self, json_str(self.structural_view_sha256@))
    }

    fn write_json(&self, out: &mut Vec<u8>) {
        write_view(out, self, self.structural_view_sha256.as_str());
    }
}

fn write_view(out: &mut Vec<u8>, v: &CanonicalRuntimeStructuralViewV3, id: &str)
    ensures
        final(out)@ == old(out)@ + view_json_with(*v, json_str(id@)),
{
    let st = begin_object(out);
    let st = write_member(out, st, "context", &v.context);
    let st = write_member(out, st, "relations", &v.relations);
    let st = write_member(out, st, "roles", &v.roles);
    let st = write_member_str(out, st, "schema", v.schema.as_str());
    let st = write_member_str(out, st, "structural_view_sha256", id);
    end_object(out, st);
}

/// The identity of a structural view: the digest of its JSON with an empty
/// identity field.
pub open spec fn structural_view_identity(v: CanonicalRuntimeStructuralViewV3) -> Seq<u8> {
    json_identity(view_json_with(v, json_str(Seq::empty())))
}

pub(crate) fn structural_view_digest(v: &CanonicalRuntimeStructuralViewV3) -> (r: Result<String, StructuralExtractionErrorV3>)
    ensures
        r matches Ok(s) && utf8(s@) == structural_view_identity(*v),
{
    let mut out: Vec<u8> = Vec::new();
    proof {
        reveal_strlit("");
    }
    write_view(&mut out, v, "");
    assert(out@ =~= view_json_with(*v, json_str(Seq::empty())));
    Ok(sha256_hex(out.as_slice()))
}

/// The JSON of a request view, with the given bytes as its identity field.
pub open spec fn request_view_json_with(v: CanonicalRuntimeRequestViewV3, id: Seq<u8>) -> Seq<u8> {
    object(seq![("capabilities"@, v.capabilities.json())]
        .push(("projection"@, v.projection.json()))
        .push(("request_relation_atoms"@, v.request_relation_atoms.json()))
        .push(("request_view_sha256"@, id))
        .push(("schema"@, json_str(v.schema@)))
        .push(("structural"@, v.structural.json())))
}

impl CanonicalJson for CanonicalRuntimeRequestViewV3 {
    open spec fn json(&self) -> Seq<u8> {
        request_view_json_with(*self, json_str(self.request_view_sha256@))
    }

    fn write_json(&self, out: &mut Vec<u8>) {
        write_request_view(out, self, self.request_view_sha256.as_str());
    }
}

fn write_request_view(out: &mut Vec<u8>, v: &CanonicalRuntimeRequestViewV3, id: &str)
    ensures
        final(out)@ == old(out)@ + request_view_json_with(*v, json_str(id@)),
{
    let st = begin_object(out);
    let st = write_member(out, st, "capabilities", &v.capabilities);
    let st = write_member(out, st, "projection", &v.projection);
    let st = write_member(out, st, "request_relation_atoms", &v.request_relation_atoms);
    let st = write_member_str(out, st, "request_view_sha256", id);
    let st = write_member_str(out, st, "schema", v.schema.as_str());
    let st = write_member(out, st, "structural", &v.structural);
    end_object(out, st);
}

/// The identity of a request view: the digest of its JSON with an empty
/// identity field.
pub open spec fn request_view_identity(v: CanonicalRuntimeRequestViewV3) -> Seq<u8> {
    json_identity(request_view_json_with(v, json_str(Seq::empty())))
}

fn request_view_digest(v: &CanonicalRuntimeRequestViewV3) -> (r: Result<String, StructuralExtractionErrorV3>)
    ensures
        r matches Ok(s) && utf8(s@) == request_view_identity(*v),
{
    let mut out: Vec<u8> = Vec::new();
    proof {
        reveal_strlit("");
    }
    write_request_view(&mut out, v, "");
    assert(out@ =~= request_view_json_with(*v, json_str(Seq::empty())));
    Ok(sha256_hex(out.as_slice()))
}

/// The members of a receipt's JSON, keys in order, with the given bytes
/// as its identity field.
pub open spec fn receipt_members(r: ExtractionReceiptV3, id: Seq<u8>) -> Seq<(Seq<char>, Seq<u8>)> {
    seq![("advertised_capabilities"@, r.advertised_capabilities.json())]
        .push(("execution_authority"@, r.execution_authority.json()))
        .push(("extraction_count"@, r.extraction_count.json()))
        .push(("json_nodes_visited"@, r.json_nodes_visited.json()))
        .push(("projection"@, r.projection.json()))
        .push(("raw_payloads_persisted"@, r.raw_payloads_persisted.json()))
        .push(("receipt_sha256"@, id))
        .push(("relations"@, r.relations.json()))
        .push(("request_sha256"@, json_str(r.request_sha256@)))
        .push(("request_view_sha256"@, r.request_view_sha256.json()))
        .push(("role_candidates"@, r.role_candidates.json()))
        .push(("schema"@, json_str(r.schema@)))
        .push(("teacher_or_action_fields_consumed"@, r.teacher_or_action_fields_consumed.json()))
        .push(("text_bytes_visited"@, r.text_bytes_visited.json()))
        .push(("verdict"@, r.verdict.json()))
}

impl CanonicalJson for ExtractionReceiptV3 {
    open spec fn json(&self) -> Seq<u8> {
        object(receipt_members(*self, json_str(self.receipt_sha256@)))
    }

    fn write_json(&self, out: &mut Vec<u8>) {
        write_receipt(out, self, self.receipt_sha256.as_str());
    }
}

fn write_receipt_head(out: &mut Vec<u8>, st: ObjectState, r: &ExtractionReceiptV3, id: &str) -> (res: ObjectState)
    requires
        object_open(old(out)@, st),
    ensures
        res.start@ == st.start@,
        res.fields@ == st.fields@.push(("advertised_capabilities"@, r.advertised_capabilities.json()))
            .push(("execution_authority"@, r.execution_authority.json()))
            .push(("extraction_count"@, r.extraction_count.json()))
            .push(("json_nodes_visited"@, r.json_nodes_visited.json()))
            .push(("projection"@, r.projection.json()))
            .push(("raw_payloads_persisted"@, r.raw_payloads_persisted.json()))
            .push(("receipt_sha256"@, json_str(id@))),
        object_open(final(out)@, res),
{
    let st1 = write_member(out, st, "advertised_capabilities", &r.advertised_capabilities);
    let st2 = write_member(out, st1, "execution_authority", &r.execution_authority);
    let st3 = write_member(out, st2, "extraction_count", &r.extraction_count);
    let st4 = write_member(out, st3, "json_nodes_visited", &r.json_nodes_visited);
    let st5 = write_member(out, st4, "projection", &r.projection);
    let st6 = write_member(out, st5, "raw_payloads_persisted", &r.raw_payloads_persisted);
    write_member_str(out, st6, "receipt_sha256", id)
}

fn write_receipt_tail(out: &mut Vec<u8>, st: ObjectState, r: &ExtractionReceiptV3) -> (res: ObjectState)
    requires
        object_open(old(out)@, st),
    ensures
        res.start@ == st.start@,
        res.fields@ == st.fields@.push(("relations"@, r.relations.json()))
            .push(("request_sha256"@, json_str(r.request_sha256@)))
            .push(("request_view_sha256"@, r.request_view_sha256.json()))
            .push(("role_candidates"@, r.role_candidates.json()))
            .push(("schema"@, json_str(r.schema@)))
            .push(("teacher_or_action_fields_consumed"@, r.teacher_or_action_fields_consumed.json()))
            .push(("text_bytes_visited"@, r.text_bytes_visited.json()))
            .push(("verdict"@, r.verdict.json())),
        object_open(final(out)@, res),
{
    let st1 = write_member(out, st, "relations", &r.relations);
    let st2 = write_member_str(out, st1, "request_sha256", r.request_sha256.as_str());
    let st3 = write_member(out, st2, "request_view_sha256", &r.request_view_sha256);
    let st4 = write_member(out, st3, "role_candidates", &r.role_candidates);
    let st5 = write_member_str(out, st4, "schema", r.schema.as_str());
    let st6 = write_member(out, st5, "teacher_or_action_fields_consumed", &r.teacher_or_action_fields_consumed);
    let st7 = write_member(out, st6, "text_bytes_visited", &r.text_bytes_visited);
    write_member(out, st7, "verdict", &r.verdict)
}

fn write_receipt(out: &mut Vec<u8>, r: &ExtractionReceiptV3, id: &str)
    ensures
        final(out)@ == old(out)@ + object(receipt_members(*r, json_str(id@))),
{
    let st = begin_object(out);
    let st1 = write_receipt_head(out, st, r, id);
    let st2 = write_receipt_tail(out, st1, r);
    end_object(out, st2);
    assert(st2.fields@ == receipt_members(*r, json_str(id@)));
}

/// The identity of a receipt: the digest of its JSON with an empty
/// identity field.
pub open spec fn receipt_identity(r: ExtractionReceiptV3) -> Seq<u8> {
    json_identity(object(receipt_members(r, json_str(Seq::empty()))))
}

fn extraction_receipt_digest(r: &ExtractionReceiptV3) -> (res: Result<String, StructuralExtractionErrorV3>)
    ensures
        res matches Ok(s) && utf8(s@) == receipt_identity(*r),
{
    let mut out: Vec<u8> = Vec::new();
    proof {
        reveal_strlit("");
    }
    write_receipt(&mut out, r, "");
    assert(out@ =~= object(receipt_members(*r, json_str(Seq::empty()))));
    Ok(sha256_hex(out.as_slice()))
}

// ---------------------------------------------------------------- budgets and context

pub open spec fn budget_ok(b: StructuralExtractionBudgetV3) -> bool {
    &&& 1 <= b.max_json_nodes <= MAX_STRUCTURAL_JSON_NODES_V3
    &&& 1 <= b.max_text_bytes <= MAX_STRUCTURAL_TEXT_BYTES_V3
    &&& 1 <= b.max_recent_events <= MAX_STRUCTURAL_RECENT_EVENTS_V3
    &&& 1 <= b.max_role_candidates <= MAX_STRUCTURAL_ROLE_CANDIDATES_V3
    &&& 1 <= b.max_relations <= MAX_STRUCTURAL_RELATIONS_V3
}

impl StructuralExtractionBudgetV3 {
    /// Accepts a budget whose every bound is at least one and at most its maximum.
    pub fn validate(self) -> (r: Result<Self, StructuralExtractionErrorV3>)
        ensures
            r == (if budget_ok(self) { Ok(self) } else { Err(StructuralExtractionErrorV3::InvalidBudget) }),
    {
        if self.max_json_nodes == 0
            || self.max_json_nodes > MAX_STRUCTURAL_JSON_NODES_V3
            || self.max_text_bytes == 0
            || self.max_text_bytes > MAX_STRUCTURAL_TEXT_BYTES_V3
            || self.max_recent_events == 0
            || self.max_recent_events > MAX_STRUCTURAL_RECENT_EVENTS_V3
            || self.max_role_candidates == 0
            || self.max_role_candidates > MAX_STRUCTURAL_ROLE_CANDIDATES_V3
            || self.max_relations == 0
            || self.max_relations > MAX_STRUCTURAL_RELATIONS_V3
        {
            return Err(StructuralExtractionErrorV3::InvalidBudget);
        }
        Ok(self)
    }
}

/// The root keys that a pre-action extraction leaves out.
pub open spec fn spec_excluded_root_key(scope: StructuralExtractionScopeV3, key: Seq<char>) -> bool {
    &&& scope == StructuralExtractionScopeV3::PreActionRuntime
    &&& (key == "action"@ || key == "metadata"@ || key == "model"@ || key == "teacher"@
        || key == "teacher_response"@ || key == "expected_action"@ || key == "state_after"@
        || key == "target_patch"@ || key == "tools"@ || key == "verifier_receipt"@)
}

impl StructuralExtractionScopeV3 {
    pub fn excludes_root_key(self, key: &str) -> (r: bool)
        ensures
            r == spec_excluded_root_key(self, key@),
    {
        self == StructuralExtractionScopeV3::PreActionRuntime
            && (str_eq(key, "action") || str_eq(key, "metadata") || str_eq(key, "model")
                || str_eq(key, "teacher") || str_eq(key, "teacher_response") || str_eq(key, "expected_action")
                || str_eq(key, "state_after") || str_eq(key, "target_patch") || str_eq(key, "tools")
                || str_eq(key, "verifier_receipt"))
    }
}

/// The capability class of a context: by the larger of its capability and
/// call shape counts, none, one or several.
pub open spec fn spec_capability_class(c: StructuralContextV3) -> BindingCapabilityClassV1 {
    let m = if c.capability_count >= c.call_shape_count { c.capability_count } else { c.call_shape_count };
    if m == 0 {
        BindingCapabilityClassV1::Absent
    } else if m == 1 {
        BindingCapabilityClassV1::Single
    } else {
        BindingCapabilityClassV1::Multiple
    }
}

impl StructuralContextV3 {
    /// A context is valid when its topology root is 64 hexadecimal digits.
    pub fn validate(&self) -> (r: Result<(), StructuralExtractionErrorV3>)
        ensures
            r == (if is_sha256_text(utf8(self.topology_neighborhood_root_sha256@)) {
                Ok(())
            } else {
                Err(StructuralExtractionErrorV3::InvalidContext)
            }),
    {
        if !is_sha256(self.topology_neighborhood_root_sha256.as_str()) {
            return Err(StructuralExtractionErrorV3::InvalidContext);
        }
        Ok(())
    }

    pub fn capability_class(&self) -> (r: BindingCapabilityClassV1)
        ensures
            r == spec_capability_class(*self),
    {
        let m = if self.capability_count >= self.call_shape_count { self.capability_count } else { self.call_shape_count };
        if m == 0 {
            BindingCapabilityClassV1::Absent
        } else if m == 1 {
            BindingCapabilityClassV1::Single
        } else {
            BindingCapabilityClassV1::Multiple
        }
    }
}

// ---------------------------------------------------------------- receipts

/// A receipt's content is sound: its schema and digests, one extraction,
/// nothing consumed from teacher or action fields, no raw payload kept, no
/// authority, and an identity that is its own digest.
pub open spec fn receipt_ok(r: ExtractionReceiptV3) -> bool {
    &&& r.schema@ == RUNTIME_CONTEXT_EXTRACTION_RECEIPT_SCHEMA_V3@
    &&& is_sha256_text(utf8(r.request_sha256@))
    &&& (match r.request_view_sha256 { Some(v) => is_sha256_text(utf8(v@)), None => true })
    &&& r.extraction_count == 1
    &&& r.teacher_or_action_fields_consumed == 0
    &&& r.raw_payloads_persisted == 0
    &&& !r.execution_authority
    &&& utf8(r.receipt_sha256@) == receipt_identity(r)
}

fn optional_sha256(v: &Option<String>) -> (r: bool)
    ensures
        r == (match *v { Some(s) => is_sha256_text(utf8(s@)), None => true }),
{
    match v {
        Some(s) => is_sha256(s.as_str()),
        None => true,
    }
}

/// Seals the receipt of one extraction over a request and, when there is
/// one, its view.
pub fn build_extraction_receipt_v3(
    request_sha256: String,
    request_view_sha256: Option<String>,
    projection: RuntimeProjectionV3,
    verdict: RuntimeContextExtractionVerdictV3,
    json_nodes_visited: usize,
    text_bytes_visited: usize,
    role_candidates: usize,
    relations: usize,
    advertised_capabilities: usize,
) -> (r: Result<ExtractionReceiptV3, StructuralExtractionErrorV3>)
    ensures
        !is_sha256_text(utf8(request_sha256@))
            || (request_view_sha256 matches Some(v) && !is_sha256_text(utf8(v@)))
            ==> r == Err::<ExtractionReceiptV3, StructuralExtractionErrorV3>(StructuralExtractionErrorV3::InvalidDigest),
        is_sha256_text(utf8(request_sha256@))
            && !(request_view_sha256 matches Some(v) && !is_sha256_text(utf8(v@)))
            ==> (r matches Ok(rc) && {
                &&& rc.schema@ == RUNTIME_CONTEXT_EXTRACTION_RECEIPT_SCHEMA_V3@
                &&& rc.request_sha256 == request_sha256
                &&& rc.request_view_sha256 == request_view_sha256
                &&& rc.projection == projection
                &&& rc.verdict == verdict
                &&& rc.json_nodes_visited == json_nodes_visited
                &&& rc.text_bytes_visited == text_bytes_visited
                &&& rc.role_candidates == role_candidates
                &&& rc.relations == relations
                &&& rc.advertised_capabilities == advertised_capabilities
                &&& rc.extraction_count == 1
                &&& rc.teacher_or_action_fields_consumed == 0
                &&& rc.raw_payloads_persisted == 0
                &&& !rc.execution_authority
                &&& utf8(rc.receipt_sha256@) == receipt_identity(rc)
            }),
{
    if !is_sha256(request_sha256.as_str()) || !optional_sha256(&request_view_sha256) {
        return Err(StructuralExtractionErrorV3::InvalidDigest);
    }
    let mut receipt = ExtractionReceiptV3 {
        schema: RUNTIME_CONTEXT_EXTRACTION_RECEIPT_SCHEMA_V3.to_owned(),
        receipt_sha256: String::new(),
        request_sha256,
        request_view_sha256,
        projection,
        verdict,
        json_nodes_visited,
        text_bytes_visited,
        role_candidates,
        relations,
        advertised_capabilities,
        extraction_count: 1,
        teacher_or_action_fields_consumed: 0,
        raw_payloads_persisted: 0,
        execution_authority: false,
    };
    let id = match extraction_receipt_digest(&receipt) {
        Ok(id) => id,
        Err(e) => return Err(e),
    };
    receipt.receipt_sha256 = id;
    assert(receipt_members(receipt, json_str(Seq::empty())) =~= receipt_members(receipt, json_str(Seq::empty())));
    Ok(receipt)
}

/// Checks a receipt; any failure is `InvalidSource`.
pub fn validate_extraction_receipt_v3(receipt: &ExtractionReceiptV3) -> (r: Result<(), StructuralExtractionErrorV3>)
    ensures
        r == (if receipt_ok(*receipt) { Ok(()) } else { Err(StructuralExtractionErrorV3::InvalidSource) }),
{
    if !str_eq(receipt.schema.as_str(), RUNTIME_CONTEXT_EXTRACTION_RECEIPT_SCHEMA_V3)
        || !is_sha256(receipt.request_sha256.as_str())
        || !optional_sha256(&receipt.request_view_sha256)
        || receipt.extraction_count != 1
        || receipt.teacher_or_action_fields_consumed != 0
        || receipt.raw_payloads_persisted != 0
        || receipt.execution_authority
    {
        return Err(StructuralExtractionErrorV3::InvalidSource);
    }
    let expected = match extraction_receipt_digest(receipt) {
        Ok(d) => d,
        Err(_) => return Err(StructuralExtractionErrorV3::InvalidSource),
    };
    proof {
        lemma_utf8_injective(expected@, receipt.receipt_sha256@);
    }
    if !str_eq(expected.as_str(), receipt.receipt_sha256.as_str()) {
        return Err(StructuralExtractionErrorV3::InvalidSource);
    }
    Ok(())
}

// ---------------------------------------------------------------- request views

/// `x` inserted before the first capability whose id is not below its own.
pub open spec fn insert_capability(s: Seq<RuntimeCapabilityDescriptorV3>, x: RuntimeCapabilityDescriptorV3) -> Seq<RuntimeCapabilityDescriptorV3>
    decreases s.len(),
{
    if s.len() == 0 {
        seq![x]
    } else if s[0].capability_id < x.capability_id {
        seq![s[0]] + insert_capability(s.subrange(1, s.len() as int), x)
    } else {
        seq![x] + s
    }
}

/// The capabilities ordered by id.
pub open spec fn sort_capabilities(s: Seq<RuntimeCapabilityDescriptorV3>) -> Seq<RuntimeCapabilityDescriptorV3>
    decreases s.len(),
{
    if s.len() == 0 {
        s
    } else {
        insert_capability(sort_capabilities(s.drop_last()), s.last())
    }
}

proof fn lemma_insert_capability_at(s: Seq<RuntimeCapabilityDescriptorV3>, x: RuntimeCapabilityDescriptorV3, p: int)
    requires
        0 <= p <= s.len(),
        forall|k: int| 0 <= k < p ==> (#[trigger] s[k]).capability_id < x.capability_id,
        p == s.len() || s[p].capability_id >= x.capability_id,
    ensures
        insert_capability(s, x) == s.insert(p, x),
    decreases s.len(),
{
    if s.len() == 0 {
        assert(s.insert(p, x) =~= seq![x]);
    } else if p == 0 {
        assert(s.insert(0, x) =~= seq![x] + s);
    } else {
        let t = s.subrange(1, s.len() as int);
        assert forall|k: int| 0 <= k < p - 1 implies (#[trigger] t[k]).capability_id < x.capability_id by {
            assert(t[k] == s[k + 1]);
        }
        if p - 1 < t.len() {
            assert(t[p - 1] == s[p]);
        }
        lemma_insert_capability_at(t, x, p - 1);
        assert(s.insert(p, x) =~= seq![s[0]] + t.insert(p - 1, x));
    }
}

fn sorted_capabilities(v: Vec<RuntimeCapabilityDescriptorV3>) -> (r: Vec<RuntimeCapabilityDescriptorV3>)
    ensures
        r@ == sort_capabilities(v@),
{
    let ghost input = v@;
    let n = v.len();
    let mut rest = v;
    let mut out: Vec<RuntimeCapabilityDescriptorV3> = Vec::new();
    let mut i: usize = 0;
    while rest.len() > 0
        invariant
            i <= n,
            n == input.len(),
            i + rest@.len() == input.len(),
            rest@ == input.subrange(i as int, input.len() as int),
            out@ == sort_capabilities(input.take(i as int)),
        decreases rest@.len(),
    {
        let x = rest.remove(0);
        assert(x == input[i as int]);
        let mut p: usize = 0;
        while p < out.len() && out[p].capability_id < x.capability_id
            invariant
                p <= out@.len(),
                forall|k: int| 0 <= k < p ==> (#[trigger] out@[k]).capability_id < x.capability_id,
            decreases out@.len() - p,
        {
            p = p + 1;
        }
        proof {
            lemma_insert_capability_at(out@, x, p as int);
            assert(input.take(i + 1).drop_last() =~= input.take(i as int));
        }
        out.insert(p, x);
        i = i + 1;
        assert(rest@ =~= input.subrange(i as int, input.len() as int));
    }
    assert(input.take(i as int) =~= input);
    out
}

/// Capability ids match positions.
pub open spec fn ids_match_positions(s: Seq<RuntimeCapabilityDescriptorV3>) -> bool {
    forall|k: int| 0 <= k < s.len() ==> (#[trigger] s[k]).capability_id == k
}

fn ids_match_positions_exec(v: &Vec<RuntimeCapabilityDescriptorV3>) -> (r: bool)
    ensures
        r == ids_match_positions(v@),
{
    let mut k: usize = 0;
    while k < v.len()
        invariant
            k <= v@.len(),
            forall|j: int| 0 <= j < k ==> (#[trigger] v@[j]).capability_id == j,
        decreases v@.len() - k,
    {
        if v[k].capability_id as usize != k {
            return false;
        }
        k = k + 1;
    }
    true
}

/// Builds the canonical view of a request over its structural view: the
/// relation atoms sorted and each once, the capabilities ordered by id,
/// which must be exactly their positions.
pub fn build_canonical_runtime_request_view_v3(
    projection: RuntimeProjectionV3,
    request_relation_atoms: Vec<u64>,
    structural: CanonicalRuntimeStructuralViewV3,
    capabilities: Vec<RuntimeCapabilityDescriptorV3>,
) -> (r: Result<CanonicalRuntimeRequestViewV3, StructuralExtractionErrorV3>)
    ensures
        utf8(structural.structural_view_sha256@) != structural_view_identity(structural)
            ==> r == Err::<CanonicalRuntimeRequestViewV3, StructuralExtractionErrorV3>(StructuralExtractionErrorV3::InvalidSource),
        utf8(structural.structural_view_sha256@) == structural_view_identity(structural)
            && !ids_match_positions(sort_capabilities(capabilities@))
            ==> r == Err::<CanonicalRuntimeRequestViewV3, StructuralExtractionErrorV3>(StructuralExtractionErrorV3::InvalidSource),
        utf8(structural.structural_view_sha256@) == structural_view_identity(structural)
            && ids_match_positions(sort_capabilities(capabilities@))
            ==> (r matches Ok(v) && {
                &&& v.schema@ == CANONICAL_RUNTIME_REQUEST_VIEW_SCHEMA_V3@
                &&& v.projection == projection
                &&& v.request_relation_atoms@ == sorted_unique(request_relation_atoms@)
                &&& v.structural == structural
                &&& v.capabilities@ == sort_capabilities(capabilities@)
                &&& utf8(v.request_view_sha256@) == request_view_identity(v)
            }),
{
    let expected = match structural_view_digest(&structural) {
        Ok(d) => d,
        Err(e) => return Err(e),
    };
    proof {
        lemma_utf8_injective(expected@, structural.structural_view_sha256@);
    }
    if !str_eq(expected.as_str(), structural.structural_view_sha256.as_str()) {
        return Err(StructuralExtractionErrorV3::InvalidSource);
    }
    let atoms = sort_dedup_u64(request_relation_atoms.as_slice());
    let sorted = sorted_capabilities(capabilities);
    if !ids_match_positions_exec(&sorted) {
        return Err(StructuralExtractionErrorV3::InvalidSource);
    }
    let mut view = CanonicalRuntimeRequestViewV3 {
        schema: CANONICAL_RUNTIME_REQUEST_VIEW_SCHEMA_V3.to_owned(),
        request_view_sha256: String::new(),
        projection,
        request_relation_atoms: atoms,
        structural,
        capabilities: sorted,
    };
    let id = match request_view_digest(&view) {
        Ok(d) => d,
        Err(e) => return Err(e),
    };
    view.request_view_sha256 = id;
    assert(request_view_json_with(view, json_str(Seq::empty())) =~= request_view_json_with(view, json_str(Seq::empty())));
    Ok(view)
}

} // verus!
