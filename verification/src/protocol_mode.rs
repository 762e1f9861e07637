//! Protocol modes: bounded selector programs compiled from effect laws,
//! their derived roots, mode identities and validated mode sets.
use vstd::prelude::*;
use crate::binding::{BindingCompletionStateV1, BindingPredicateV1, BindingValueTypeV1};
use crate::binding::{
    BindingSourceEventClassV1, BindingCallLineageV1, BindingCapabilityClassV1, BindingRequestRelationV1,
};
use crate::text::{utf8, str_eq, lemma_utf8_injective};
use crate::scan::{
    first_failure, lemma_first_failure_at, distinct_count,
    lex_lt, bytes_lt, texts, adjacent_lt_text, strictly_increasing_text, strings_increasing, lemma_lex_lt_total,
};
use crate::digest::{is_sha256_text, is_sha256, sha256_hex};
use crate::json::{
    CanonicalJson, json_str, write_str, object, begin_object, write_member, end_object,
    json_identity, tuple, TupleState, tuple_open, begin_tuple, write_item, write_item_str, end_tuple,
};

verus! {

pub const PROTOCOL_MODE_SET_SCHEMA_V2: &'static str = "nando.protocol-mode-set.v2.f4r2";
pub const MAX_SELECTOR_PREDICATES_V2: usize = 3;

#[derive(Clone, Copy, Debug, PartialEq, Eq, Structural)]
pub enum BindingProtocolCompileVerdictV2 {
    ProtocolModeSet,
    Abstain,
}

#[derive(Clone, Copy, Debug, PartialEq, Eq, Structural)]
pub struct ProtocolModeCompilerBudgetV2 {
    pub max_candidates: usize,
    pub max_surviving_modes: usize,
}

impl Default for ProtocolModeCompilerBudgetV2 {
    fn default() -> (r: Self)
        ensures
            r.max_candidates == 512,
            r.max_surviving_modes == 32,
    {
        ProtocolModeCompilerBudgetV2 { max_candidates: 512, max_surviving_modes: 32 }
    }
}

#[derive(Clone, Copy, Debug, PartialEq, Eq, Structural)]
pub enum ProtocolRoleCardinalityV2 {
    OneActionClass,
}

#[derive(Clone, Debug, PartialEq, Eq)]
pub struct ProtocolSourceRoleV2 {
    pub role_id: u16,
    pub value_type: BindingValueTypeV1,
    pub cardinality: ProtocolRoleCardinalityV2,
}

#[derive(Clone, Debug, PartialEq, Eq)]
pub struct ProtocolSourceRoleSchemaV2 {
    pub roles: Vec<ProtocolSourceRoleV2>,
}

#[derive(Clone, Debug, PartialEq, Eq)]
pub struct ProtocolSelectorProgramV2 {
    pub predicates: Vec<BindingPredicateV1>,
    pub max_action_classes: u8,
}

#[derive(Clone, Debug, PartialEq, Eq)]
pub struct ProtocolValueContractV2 {
    pub observed: BindingValueTypeV1,
    pub emitted: BindingValueTypeV1,
}

#[derive(Clone, Debug, PartialEq, Eq)]
pub struct ProtocolCapabilityContractV2 {
    pub protocol_facet_root_sha256: String,
    pub physical_program_ids_sha256: Vec<String>,
}

#[derive(Clone, Debug, PartialEq, Eq)]
pub struct ProtocolArgumentRoleV2 {
    pub argument_ordinal: u16,
    pub source_role_id: u16,
}

#[derive(Clone, Debug, PartialEq, Eq)]
pub struct ProtocolArgumentRoleSchemaV2 {
    pub roles: Vec<ProtocolArgumentRoleV2>,
}

#[derive(Clone, Debug, PartialEq, Eq)]
pub struct ProtocolConstantContractV2 {
    pub semantic_constants_sha256: Vec<String>,
    pub protocol_noop_constants_sha256: Vec<String>,
    pub execution_budget_roots_sha256: Vec<String>,
    pub transport_default_roots_sha256: Vec<String>,
}

#[derive(Clone, Debug, PartialEq, Eq)]
pub struct ProtocolStructuralGuardV2 {
    pub relation_identity_sha256: String,
    pub effect_invariant_root_sha256: String,
    pub selector_program_root_sha256: String,
}

#[derive(Clone, Debug, PartialEq, Eq)]
pub struct ProtocolTemporalCardinalityContractV2 {
    pub completion_states: Vec<BindingCompletionStateV1>,
    pub temporal_distances: Vec<u16>,
    pub event_candidate_cardinalities: Vec<u16>,
    pub require_unique_action_class: bool,
}

#[derive(Clone, Debug, PartialEq, Eq)]
pub struct ProtocolModeProgramV2 {
    pub source_role_schema: ProtocolSourceRoleSchemaV2,
    pub selector_program: ProtocolSelectorProgramV2,
    pub value_contract: ProtocolValueContractV2,
    pub capability_contract: ProtocolCapabilityContractV2,
    pub argument_role_schema: ProtocolArgumentRoleSchemaV2,
    pub constant_contract: ProtocolConstantContractV2,
    pub structural_guard: ProtocolStructuralGuardV2,
    pub temporal_cardinality_contract: ProtocolTemporalCardinalityContractV2,
}

#[derive(Clone, Debug, PartialEq, Eq)]
pub struct BoundedProtocolModeCandidateV2 {
    pub candidate_id_sha256: String,
    pub effect_law_id_sha256: String,
    pub relation_identity_sha256: String,
    pub protocol_facet_root_sha256: String,
    pub effect_invariant_root_sha256: String,
    pub source_role_schema_root_sha256: String,
    pub selector_program_root_sha256: String,
    pub observed_emitted_types_root_sha256: String,
    pub capability_protocol_root_sha256: String,
    pub argument_role_schema_root_sha256: String,
    pub constant_contract_root_sha256: String,
    pub structural_guard_root_sha256: String,
    pub temporal_cardinality_contract_root_sha256: String,
    pub action_class_root_sha256: String,
    pub program: ProtocolModeProgramV2,
    pub covers_positive_rows_sha256: Vec<String>,
    pub accepts_negative_rows_sha256: Vec<String>,
    pub wrong_action_rows_sha256: Vec<String>,
    pub verify_failed_rows_sha256: Vec<String>,
    pub search_exhausted: bool,
}

#[derive(Clone, Debug, PartialEq, Eq)]
pub struct ProtocolModeV2 {
    pub mode_id_sha256: String,
    pub effect_law_id_sha256: String,
    pub relation_identity_sha256: String,
    pub protocol_facet_root_sha256: String,
    pub effect_invariant_root_sha256: String,
    pub source_role_schema_root_sha256: String,
    pub selector_program_root_sha256: String,
    pub observed_emitted_types_root_sha256: String,
    pub capability_protocol_root_sha256: String,
    pub argument_role_schema_root_sha256: String,
    pub constant_contract_root_sha256: String,
    pub structural_guard_root_sha256: String,
    pub temporal_cardinality_contract_root_sha256: String,
    pub action_class_root_sha256: String,
    pub program: ProtocolModeProgramV2,
    pub covered_positive_rows_sha256: Vec<String>,
}

#[derive(Clone, Debug, PartialEq, Eq)]
pub struct ProtocolModeSetV2 {
    pub schema: String,
    pub mode_set_sha256: String,
    pub verdict: BindingProtocolCompileVerdictV2,
    pub binding_capability_root_sha256: String,
    pub effect_law_id_sha256: String,
    pub relation_identity_sha256: String,
    pub modes: Vec<ProtocolModeV2>,
    pub positive_rows: usize,
    pub positive_rows_covered: usize,
    pub wrong_actions: usize,
    pub verify_failed: usize,
    pub negative_accepts: usize,
    pub search_exhausted: bool,
    pub action_equivalence_classes: usize,
    pub all_surviving_covers_action_equivalent: bool,
    pub production_admissible: bool,
    pub execution_authority: bool,
}

/// The canonical JSON of a mode set: its fields in key order.
impl CanonicalJson for ProtocolModeSetV2 {
    open spec fn json(&self) -> Seq<u8> {
        object(seq![("action_equivalence_classes"@, self.action_equivalence_classes.json())]
            .push(("all_surviving_covers_action_equivalent"@, self.all_surviving_covers_action_equivalent.json()))
            .push(("binding_capability_root_sha256"@, self.binding_capability_root_sha256.json()))
            .push(("effect_law_id_sha256"@, self.effect_law_id_sha256.json()))
            .push(("execution_authority"@, self.execution_authority.json()))
            .push(("mode_set_sha256"@, self.mode_set_sha256.json()))
            .push(("modes"@, self.modes.json()))
            .push(("negative_accepts"@, self.negative_accepts.json()))
            .push(("positive_rows"@, self.positive_rows.json()))
            .push(("positive_rows_covered"@, self.positive_rows_covered.json()))
            .push(("production_admissible"@, self.production_admissible.json()))
            .push(("relation_identity_sha256"@, self.relation_identity_sha256.json()))
            .push(("schema"@, self.schema.json()))
            .push(("search_exhausted"@, self.search_exhausted.json()))
            .push(("verdict"@, self.verdict.json()))
            .push(("verify_failed"@, self.verify_failed.json()))
            .push(("wrong_actions"@, self.wrong_actions.json())))
    }

    fn write_json(&self, out: &mut Vec<u8>) {
        let st = begin_object(out);
        let st = write_member(out, st, "action_equivalence_classes", &self.action_equivalence_classes);
        let st = write_member(out, st, "all_surviving_covers_action_equivalent", &self.all_surviving_covers_action_equivalent);
        let st = write_member(out, st, "binding_capability_root_sha256", &self.binding_capability_root_sha256);
        let st = write_member(out, st, "effect_law_id_sha256", &self.effect_law_id_sha256);
        let st = write_member(out, st, "execution_authority", &self.execution_authority);
        let st = write_member(out, st, "mode_set_sha256", &self.mode_set_sha256);
        let st = write_member(out, st, "modes", &self.modes);
        let st = write_member(out, st, "negative_accepts", &self.negative_accepts);
        let st = write_member(out, st, "positive_rows", &self.positive_rows);
        let st = write_member(out, st, "positive_rows_covered", &self.positive_rows_covered);
        let st = write_member(out, st, "production_admissible", &self.production_admissible);
        let st = write_member(out, st, "relation_identity_sha256", &self.relation_identity_sha256);
        let st = write_member(out, st, "schema", &self.schema);
        let st = write_member(out, st, "search_exhausted", &self.search_exhausted);
        let st = write_member(out, st, "verdict", &self.verdict);
        let st = write_member(out, st, "verify_failed", &self.verify_failed);
        let st = write_member(out, st, "wrong_actions", &self.wrong_actions);
        end_object(out, st);
    }
}

#[derive(Clone, Copy, Debug, PartialEq, Eq, Structural)]
pub enum BindingProtocolCompilerErrorV2 {
    InvalidDigest,
    InvalidBudget,
    InvalidCandidate,
    InvalidGraphView,
    InvalidModeSet,
    Serialization,
}

// ---------------------------------------------------------------- canonical JSON

impl CanonicalJson for BindingProtocolCompileVerdictV2 {
    open spec fn json(&self) -> Seq<u8> {
        match self {
            BindingProtocolCompileVerdictV2::ProtocolModeSet => json_str("protocol_mode_set"@),
            BindingProtocolCompileVerdictV2::Abstain => json_str("abstain"@),
        }
    }

    fn write_json(&self, out: &mut Vec<u8>) {
        match self {
            BindingProtocolCompileVerdictV2::ProtocolModeSet => write_str(out, "protocol_mode_set"),
            BindingProtocolCompileVerdictV2::Abstain => write_str(out, "abstain"),
        }
    }
}

impl CanonicalJson for ProtocolRoleCardinalityV2 {
    open spec fn json(&self) -> Seq<u8> {
        match self {
            ProtocolRoleCardinalityV2::OneActionClass => json_str("one_action_class"@),
        }
    }

    fn write_json(&self, out: &mut Vec<u8>) {
        match self {
            ProtocolRoleCardinalityV2::OneActionClass => write_str(out, "one_action_class"),
        }
    }
}

impl CanonicalJson for ProtocolSourceRoleV2 {
    open spec fn json(&self) -> Seq<u8> {
        object(seq![("cardinality"@, self.cardinality.json())]
            .push(("role_id"@, self.role_id.json()))
            .push(("value_type"@, self.value_type.json())))
    }

    fn write_json(&self, out: &mut Vec<u8>) {
        let st = begin_object(out);
        let st = write_member(out, st, "cardinality", &self.cardinality);
        let st = write_member(out, st, "role_id", &self.role_id);
        let st = write_member(out, st, "value_type", &self.value_type);
        end_object(out, st);
    }
}

impl CanonicalJson for ProtocolSourceRoleSchemaV2 {
    open spec fn json(&self) -> Seq<u8> {
        object(seq![("roles"@, self.roles.json())])
    }

    fn write_json(&self, out: &mut Vec<u8>) {
        let st = begin_object(out);
        let st = write_member(out, st, "roles", &self.roles);
        end_object(out, st);
    }
}

impl CanonicalJson for ProtocolSelectorProgramV2 {
    open spec fn json(&self) -> Seq<u8> {
        object(seq![("max_action_classes"@, self.max_action_classes.json())]
            .push(("predicates"@, self.predicates.json())))
    }

    fn write_json(&self, out: &mut Vec<u8>) {
        let st = begin_object(out);
        let st = write_member(out, st, "max_action_classes", &self.max_action_classes);
        let st = write_member(out, st, "predicates", &self.predicates);
        end_object(out, st);
    }
}

impl CanonicalJson for ProtocolValueContractV2 {
    open spec fn json(&self) -> Seq<u8> {
        object(seq![("emitted"@, self.emitted.json())]
            .push(("observed"@, self.observed.json())))
    }

    fn write_json(&self, out: &mut Vec<u8>) {
        let st = begin_object(out);
        let st = write_member(out, st, "emitted", &self.emitted);
        let st = write_member(out, st, "observed", &self.observed);
        end_object(out, st);
    }
}

impl CanonicalJson for ProtocolCapabilityContractV2 {
    open spec fn json(&self) -> Seq<u8> {
        object(seq![("physical_program_ids_sha256"@, self.physical_program_ids_sha256.json())]
            .push(("protocol_facet_root_sha256"@, self.protocol_facet_root_sha256.json())))
    }

    fn write_json(&self, out: &mut Vec<u8>) {
        let st = begin_object(out);
        let st = write_member(out, st, "physical_program_ids_sha256", &self.physical_program_ids_sha256);
        let st = write_member(out, st, "protocol_facet_root_sha256", &self.protocol_facet_root_sha256);
        end_object(out, st);
    }
}

impl CanonicalJson for ProtocolArgumentRoleV2 {
    open spec fn json(&self) -> Seq<u8> {
        object(seq![("argument_ordinal"@, self.argument_ordinal.json())]
            .push(("source_role_id"@, self.source_role_id.json())))
    }

    fn write_json(&self, out: &mut Vec<u8>) {
        let st = begin_object(out);
        let st = write_member(out, st, "argument_ordinal", &self.argument_ordinal);
        let st = write_member(out, st, "source_role_id", &self.source_role_id);
        end_object(out, st);
    }
}

impl CanonicalJson for ProtocolArgumentRoleSchemaV2 {
    open spec fn json(&self) -> Seq<u8> {
        object(seq![("roles"@, self.roles.json())])
    }

    fn write_json(&self, out: &mut Vec<u8>) {
        let st = begin_object(out);
        let st = write_member(out, st, "roles", &self.roles);
        end_object(out, st);
    }
}

impl CanonicalJson for ProtocolConstantContractV2 {
    open spec fn json(&self) -> Seq<u8> {
        object(seq![("execution_budget_roots_sha256"@, self.execution_budget_roots_sha256.json())]
            .push(("protocol_noop_constants_sha256"@, self.protocol_noop_constants_sha256.json()))
            .push(("semantic_constants_sha256"@, self.semantic_constants_sha256.json()))
            .push(("transport_default_roots_sha256"@, self.transport_default_roots_sha256.json())))
    }

    fn write_json(&self, out: &mut Vec<u8>) {
        let st = begin_object(out);
        let st = write_member(out, st, "execution_budget_roots_sha256", &self.execution_budget_roots_sha256);
        let st = write_member(out, st, "protocol_noop_constants_sha256", &self.protocol_noop_constants_sha256);
        let st = write_member(out, st, "semantic_constants_sha256", &self.semantic_constants_sha256);
        let st = write_member(out, st, "transport_default_roots_sha256", &self.transport_default_roots_sha256);
        end_object(out, st);
    }
}

impl CanonicalJson for ProtocolStructuralGuardV2 {
    open spec fn json(&self) -> Seq<u8> {
        object(seq![("effect_invariant_root_sha256"@, self.effect_invariant_root_sha256.json())]
            .push(("relation_identity_sha256"@, self.relation_identity_sha256.json()))
            .push(("selector_program_root_sha256"@, self.selector_program_root_sha256.json())))
    }

    fn write_json(&self, out: &mut Vec<u8>) {
        let st = begin_object(out);
        let st = write_member(out, st, "effect_invariant_root_sha256", &self.effect_invariant_root_sha256);
        let st = write_member(out, st, "relation_identity_sha256", &self.relation_identity_sha256);
        let st = write_member(out, st, "selector_program_root_sha256", &self.selector_program_root_sha256);
        end_object(out, st);
    }
}

impl CanonicalJson for ProtocolTemporalCardinalityContractV2 {
    open spec fn json(&self) -> Seq<u8> {
        object(seq![("completion_states"@, self.completion_states.json())]
            .push(("event_candidate_cardinalities"@, self.event_candidate_cardinalities.json()))
            .push(("require_unique_action_class"@, self.require_unique_action_class.json()))
            .push(("temporal_distances"@, self.temporal_distances.json())))
    }

    fn write_json(&self, out: &mut Vec<u8>) {
        let st = begin_object(out);
        let st = write_member(out, st, "completion_states", &self.completion_states);
        let st = write_member(out, st, "event_candidate_cardinalities", &self.event_candidate_cardinalities);
        let st = write_member(out, st, "require_unique_action_class", &self.require_unique_action_class);
        let st = write_member(out, st, "temporal_distances", &self.temporal_distances);
        end_object(out, st);
    }
}

impl CanonicalJson for ProtocolModeProgramV2 {
    open spec fn json(&self) -> Seq<u8> {
        object(seq![("argument_role_schema"@, self.argument_role_schema.json())]
            .push(("capability_contract"@, self.capability_contract.json()))
            .push(("constant_contract"@, self.constant_contract.json()))
            .push(("selector_program"@, self.selector_program.json()))
            .push(("source_role_schema"@, self.source_role_schema.json()))
            .push(("structural_guard"@, self.structural_guard.json()))
            .push(("temporal_cardinality_contract"@, self.temporal_cardinality_contract.json()))
            .push(("value_contract"@, self.value_contract.json())))
    }

    fn write_json(&self, out: &mut Vec<u8>) {
        let st = begin_object(out);
        let st = write_member(out, st, "argument_role_schema", &self.argument_role_schema);
        let st = write_member(out, st, "capability_contract", &self.capability_contract);
        let st = write_member(out, st, "constant_contract", &self.constant_contract);
        let st = write_member(out, st, "selector_program", &self.selector_program);
        let st = write_member(out, st, "source_role_schema", &self.source_role_schema);
        let st = write_member(out, st, "structural_guard", &self.structural_guard);
        let st = write_member(out, st, "temporal_cardinality_contract", &self.temporal_cardinality_contract);
        let st = write_member(out, st, "value_contract", &self.value_contract);
        end_object(out, st);
    }
}

impl CanonicalJson for ProtocolModeV2 {
    open spec fn json(&self) -> Seq<u8> {
        object(seq![("action_class_root_sha256"@, self.action_class_root_sha256.json())]
            .push(("argument_role_schema_root_sha256"@, self.argument_role_schema_root_sha256.json()))
            .push(("capability_protocol_root_sha256"@, self.capability_protocol_root_sha256.json()))
            .push(("constant_contract_root_sha256"@, self.constant_contract_root_sha256.json()))
            .push(("covered_positive_rows_sha256"@, self.covered_positive_rows_sha256.json()))
            .push(("effect_invariant_root_sha256"@, self.effect_invariant_root_sha256.json()))
            .push(("effect_law_id_sha256"@, self.effect_law_id_sha256.json()))
            .push(("mode_id_sha256"@, self.mode_id_sha256.json()))
            .push(("observed_emitted_types_root_sha256"@, self.observed_emitted_types_root_sha256.json()))
            .push(("program"@, self.program.json()))
            .push(("protocol_facet_root_sha256"@, self.protocol_facet_root_sha256.json()))
            .push(("relation_identity_sha256"@, self.relation_identity_sha256.json()))
            .push(("selector_program_root_sha256"@, self.selector_program_root_sha256.json()))
            .push(("source_role_schema_root_sha256"@, self.source_role_schema_root_sha256.json()))
            .push(("structural_guard_root_sha256"@, self.structural_guard_root_sha256.json()))
            .push(("temporal_cardinality_contract_root_sha256"@, self.temporal_cardinality_contract_root_sha256.json())))
    }

    fn write_json(&self, out: &mut Vec<u8>) {
        let st = begin_object(out);
        let st = write_member(out, st, "action_class_root_sha256", &self.action_class_root_sha256);
        let st = write_member(out, st, "argument_role_schema_root_sha256", &self.argument_role_schema_root_sha256);
        let st = write_member(out, st, "capability_protocol_root_sha256", &self.capability_protocol_root_sha256);
        let st = write_member(out, st, "constant_contract_root_sha256", &self.constant_contract_root_sha256);
        let st = write_member(out, st, "covered_positive_rows_sha256", &self.covered_positive_rows_sha256);
        let st = write_member(out, st, "effect_invariant_root_sha256", &self.effect_invariant_root_sha256);
        let st = write_member(out, st, "effect_law_id_sha256", &self.effect_law_id_sha256);
        let st = write_member(out, st, "mode_id_sha256", &self.mode_id_sha256);
        let st = write_member(out, st, "observed_emitted_types_root_sha256", &self.observed_emitted_types_root_sha256);
        let st = write_member(out, st, "program", &self.program);
        let st = write_member(out, st, "protocol_facet_root_sha256", &self.protocol_facet_root_sha256);
        let st = write_member(out, st, "relation_identity_sha256", &self.relation_identity_sha256);
        let st = write_member(out, st, "selector_program_root_sha256", &self.selector_program_root_sha256);
        let st = write_member(out, st, "source_role_schema_root_sha256", &self.source_role_schema_root_sha256);
        let st = write_member(out, st, "structural_guard_root_sha256", &self.structural_guard_root_sha256);
        let st = write_member(out, st, "temporal_cardinality_contract_root_sha256", &self.temporal_cardinality_contract_root_sha256);
        end_object(out, st);
    }
}

// ---------------------------------------------------------------- digests and derived roots

/// Whether a text is 64 hexadecimal digits (either case).
pub fn is_protocol_mode_sha256(value: &str) -> (r: bool)
    ensures
        r == is_sha256_text(utf8(value@)),
{
    is_sha256(value)
}

/// Every text of the list is 64 hexadecimal digits.
pub open spec fn all_sha256(v: Seq<String>) -> bool {
    forall|i: int| 0 <= i < v.len() ==> #[trigger] is_sha256_text(utf8(v[i]@))
}

fn all_protocol_mode_sha256(v: &[String]) -> (r: bool)
    ensures
        r == all_sha256(v@),
{
    let mut i: usize = 0;
    while i < v.len()
        invariant
            i <= v@.len(),
            forall|k: int| 0 <= k < i ==> #[trigger] is_sha256_text(utf8(v@[k]@)),
        decreases v@.len() - i,
    {
        if !is_sha256(v[i].as_str()) {
            return false;
        }
        i = i + 1;
    }
    true
}

/// The SHA-256 identity of the canonical JSON of a value.
pub fn protocol_mode_json_sha256<T: CanonicalJson>(value: &T) -> (r: Result<String, BindingProtocolCompilerErrorV2>)
    ensures
        r matches Ok(s) && utf8(s@) == json_identity(value.json()),
{
    Ok(crate::json::canonical_json_sha256(value))
}

/// The root derived from a labelled piece of a mode: the identity of the
/// triple (mode set schema, label, material).
pub open spec fn derived_root(label: Seq<char>, material: Seq<u8>) -> Seq<u8> {
    json_identity(tuple(seq![json_str(PROTOCOL_MODE_SET_SCHEMA_V2@), json_str(label), material]))
}

pub fn derived_mode_root_v2<T: CanonicalJson>(label: &str, material: &T) -> (r: Result<String, BindingProtocolCompilerErrorV2>)
    ensures
        r matches Ok(s) && utf8(s@) == derived_root(label@, material.json()),
{
    let mut out: Vec<u8> = Vec::new();
    let st = begin_tuple(&mut out);
    let st = write_item_str(&mut out, st, PROTOCOL_MODE_SET_SCHEMA_V2);
    let st = write_item_str(&mut out, st, label);
    let st = write_item(&mut out, st, material);
    end_tuple(&mut out, st);
    assert(st.items@ =~= seq![json_str(PROTOCOL_MODE_SET_SCHEMA_V2@), json_str(label@), material.json()]);
    Ok(sha256_hex(out.as_slice()))
}

/// Whether a root is the one derived from the label and material.
fn root_matches<T: CanonicalJson>(root: &str, label: &str, material: &T) -> (r: bool)
    ensures
        r == (utf8(root@) == derived_root(label@, material.json())),
{
    let expected = match derived_mode_root_v2(label, material) {
        Ok(s) => s,
        Err(_) => return false,
    };
    proof {
        lemma_utf8_injective(expected@, root@);
    }
    str_eq(expected.as_str(), root)
}

// ---------------------------------------------------------------- budget

pub open spec fn spec_budget_ok(budget: ProtocolModeCompilerBudgetV2) -> bool {
    &&& 1 <= budget.max_candidates <= 4096
    &&& 1 <= budget.max_surviving_modes <= 512
}

/// Accepts a budget of 1 to 4096 candidates and 1 to 512 surviving modes.
pub fn validate_protocol_mode_budget_v2(budget: ProtocolModeCompilerBudgetV2) -> (r: Result<(), BindingProtocolCompilerErrorV2>)
    ensures
        r == (if spec_budget_ok(budget) { Ok(()) } else { Err(BindingProtocolCompilerErrorV2::InvalidBudget) }),
{
    if budget.max_candidates == 0
        || budget.max_candidates > 4096
        || budget.max_surviving_modes == 0
        || budget.max_surviving_modes > 512
    {
        return Err(BindingProtocolCompilerErrorV2::InvalidBudget);
    }
    Ok(())
}

// ---------------------------------------------------------------- predicate order

pub open spec fn predicate_rank(p: BindingPredicateV1) -> u8 {
    match p {
        BindingPredicateV1::SourceEventClass { .. } => 0,
        BindingPredicateV1::CallLineage { .. } => 1,
        BindingPredicateV1::CapabilityClass { .. } => 2,
        BindingPredicateV1::TemporalDistance { .. } => 3,
        BindingPredicateV1::CompletionState { .. } => 4,
        BindingPredicateV1::EventCandidateCardinality { .. } => 5,
        BindingPredicateV1::ValueType { .. } => 6,
        BindingPredicateV1::RequestRelation { .. } => 7,
        BindingPredicateV1::TopologyNeighborhood { .. } => 8,
    }
}

pub open spec fn event_class_rank(v: BindingSourceEventClassV1) -> u8 {
    match v {
        BindingSourceEventClassV1::Textual => 0,
        BindingSourceEventClassV1::Structured => 1,
        BindingSourceEventClassV1::Mixed => 2,
        BindingSourceEventClassV1::Scalar => 3,
        BindingSourceEventClassV1::Unknown => 4,
    }
}

pub open spec fn lineage_rank(v: BindingCallLineageV1) -> u8 {
    match v {
        BindingCallLineageV1::SameValueAcrossEvents => 0,
        BindingCallLineageV1::SharedOpaqueAnchor => 1,
        BindingCallLineageV1::Unlinked => 2,
        BindingCallLineageV1::Unknown => 3,
    }
}

pub open spec fn capability_rank(v: BindingCapabilityClassV1) -> u8 {
    match v {
        BindingCapabilityClassV1::Absent => 0,
        BindingCapabilityClassV1::Single => 1,
        BindingCapabilityClassV1::Multiple => 2,
    }
}

pub open spec fn completion_rank(v: BindingCompletionStateV1) -> u8 {
    match v {
        BindingCompletionStateV1::Unresolved => 0,
        BindingCompletionStateV1::Completed => 1,
        BindingCompletionStateV1::Unknown => 2,
    }
}

pub open spec fn value_type_rank(v: BindingValueTypeV1) -> u8 {
    match v {
        BindingValueTypeV1::String => 0,
        BindingValueTypeV1::Integer => 1,
        BindingValueTypeV1::Boolean => 2,
        BindingValueTypeV1::Identifier => 3,
    }
}

pub open spec fn request_relation_rank(v: BindingRequestRelationV1) -> u8 {
    match v {
        BindingRequestRelationV1::Mentioned => 0,
        BindingRequestRelationV1::NotMentioned => 1,
        BindingRequestRelationV1::RequestAbsent => 2,
    }
}

/// The order of predicates: by variant in declaration order, then by
/// payload (enum values in declaration order, numbers, texts byte by byte).
pub open spec fn predicate_lt(a: BindingPredicateV1, b: BindingPredicateV1) -> bool {
    if predicate_rank(a) != predicate_rank(b) {
        predicate_rank(a) < predicate_rank(b)
    } else {
        match (a, b) {
            (BindingPredicateV1::SourceEventClass { value: x }, BindingPredicateV1::SourceEventClass { value: y }) =>
                event_class_rank(x) < event_class_rank(y),
            (BindingPredicateV1::CallLineage { value: x }, BindingPredicateV1::CallLineage { value: y }) =>
                lineage_rank(x) < lineage_rank(y),
            (BindingPredicateV1::CapabilityClass { value: x }, BindingPredicateV1::CapabilityClass { value: y }) =>
                capability_rank(x) < capability_rank(y),
            (BindingPredicateV1::TemporalDistance { value: x }, BindingPredicateV1::TemporalDistance { value: y }) =>
                x < y,
            (BindingPredicateV1::CompletionState { value: x }, BindingPredicateV1::CompletionState { value: y }) =>
                completion_rank(x) < completion_rank(y),
            (BindingPredicateV1::EventCandidateCardinality { value: x }, BindingPredicateV1::EventCandidateCardinality { value: y }) =>
                x < y,
            (BindingPredicateV1::ValueType { value: x }, BindingPredicateV1::ValueType { value: y }) =>
                value_type_rank(x) < value_type_rank(y),
            (BindingPredicateV1::RequestRelation { value: x }, BindingPredicateV1::RequestRelation { value: y }) =>
                request_relation_rank(x) < request_relation_rank(y),
            (BindingPredicateV1::TopologyNeighborhood { root_sha256: x }, BindingPredicateV1::TopologyNeighborhood { root_sha256: y }) =>
                lex_lt(utf8(x@), utf8(y@)),
            _ => false,
        }
    }
}

fn predicate_rank_exec(p: &BindingPredicateV1) -> (r: u8)
    ensures
        r == predicate_rank(*p),
{
    match p {
        BindingPredicateV1::SourceEventClass { .. } => 0,
        BindingPredicateV1::CallLineage { .. } => 1,
        BindingPredicateV1::CapabilityClass { .. } => 2,
        BindingPredicateV1::TemporalDistance { .. } => 3,
        BindingPredicateV1::CompletionState { .. } => 4,
        BindingPredicateV1::EventCandidateCardinality { .. } => 5,
        BindingPredicateV1::ValueType { .. } => 6,
        BindingPredicateV1::RequestRelation { .. } => 7,
        BindingPredicateV1::TopologyNeighborhood { .. } => 8,
    }
}

pub(crate) fn event_class_rank_exec(v: BindingSourceEventClassV1) -> (r: u8)
    ensures
        r == event_class_rank(v),
{
    match v {
        BindingSourceEventClassV1::Textual => 0,
        BindingSourceEventClassV1::Structured => 1,
        BindingSourceEventClassV1::Mixed => 2,
        BindingSourceEventClassV1::Scalar => 3,
        BindingSourceEventClassV1::Unknown => 4,
    }
}

pub(crate) fn lineage_rank_exec(v: BindingCallLineageV1) -> (r: u8)
    ensures
        r == lineage_rank(v),
{
    match v {
        BindingCallLineageV1::SameValueAcrossEvents => 0,
        BindingCallLineageV1::SharedOpaqueAnchor => 1,
        BindingCallLineageV1::Unlinked => 2,
        BindingCallLineageV1::Unknown => 3,
    }
}

pub(crate) fn capability_rank_exec(v: BindingCapabilityClassV1) -> (r: u8)
    ensures
        r == capability_rank(v),
{
    match v {
        BindingCapabilityClassV1::Absent => 0,
        BindingCapabilityClassV1::Single => 1,
        BindingCapabilityClassV1::Multiple => 2,
    }
}

pub(crate) fn completion_rank_exec(v: BindingCompletionStateV1) -> (r: u8)
    ensures
        r == completion_rank(v),
{
    match v {
        BindingCompletionStateV1::Unresolved => 0,
        BindingCompletionStateV1::Completed => 1,
        BindingCompletionStateV1::Unknown => 2,
    }
}

pub(crate) fn value_type_rank_exec(v: BindingValueTypeV1) -> (r: u8)
    ensures
        r == value_type_rank(v),
{
    match v {
        BindingValueTypeV1::String => 0,
        BindingValueTypeV1::Integer => 1,
        BindingValueTypeV1::Boolean => 2,
        BindingValueTypeV1::Identifier => 3,
    }
}

pub(crate) fn request_relation_rank_exec(v: BindingRequestRelationV1) -> (r: u8)
    ensures
        r == request_relation_rank(v),
{
    match v {
        BindingRequestRelationV1::Mentioned => 0,
        BindingRequestRelationV1::NotMentioned => 1,
        BindingRequestRelationV1::RequestAbsent => 2,
    }
}

/// Whether `a` sorts strictly before `b`.
pub fn predicate_less(a: &BindingPredicateV1, b: &BindingPredicateV1) -> (r: bool)
    ensures
        r == predicate_lt(*a, *b),
{
    let ra = predicate_rank_exec(a);
    let rb = predicate_rank_exec(b);
    if ra != rb {
        return ra < rb;
    }
    match (a, b) {
        (BindingPredicateV1::SourceEventClass { value: x }, BindingPredicateV1::SourceEventClass { value: y }) =>
            event_class_rank_exec(*x) < event_class_rank_exec(*y),
        (BindingPredicateV1::CallLineage { value: x }, BindingPredicateV1::CallLineage { value: y }) =>
            lineage_rank_exec(*x) < lineage_rank_exec(*y),
        (BindingPredicateV1::CapabilityClass { value: x }, BindingPredicateV1::CapabilityClass { value: y }) =>
            capability_rank_exec(*x) < capability_rank_exec(*y),
        (BindingPredicateV1::TemporalDistance { value: x }, BindingPredicateV1::TemporalDistance { value: y }) =>
            *x < *y,
        (BindingPredicateV1::CompletionState { value: x }, BindingPredicateV1::CompletionState { value: y }) =>
            completion_rank_exec(*x) < completion_rank_exec(*y),
        (BindingPredicateV1::EventCandidateCardinality { value: x }, BindingPredicateV1::EventCandidateCardinality { value: y }) =>
            *x < *y,
        (BindingPredicateV1::ValueType { value: x }, BindingPredicateV1::ValueType { value: y }) =>
            value_type_rank_exec(*x) < value_type_rank_exec(*y),
        (BindingPredicateV1::RequestRelation { value: x }, BindingPredicateV1::RequestRelation { value: y }) =>
            request_relation_rank_exec(*x) < request_relation_rank_exec(*y),
        (BindingPredicateV1::TopologyNeighborhood { root_sha256: x }, BindingPredicateV1::TopologyNeighborhood { root_sha256: y }) =>
            bytes_lt(x.as_str().as_bytes(), y.as_str().as_bytes()),
        _ => false,
    }
}

pub open spec fn predicates_adjacent_lt(s: Seq<BindingPredicateV1>, i: int) -> bool {
    predicate_lt(s[i], s[i + 1])
}

/// Every predicate sorts strictly before the next: the list is sorted and
/// holds no duplicate.
pub open spec fn predicates_increasing(s: Seq<BindingPredicateV1>) -> bool {
    forall|i: int| 0 <= i && i + 1 < s.len() ==> #[trigger] predicates_adjacent_lt(s, i)
}

fn predicates_increasing_exec(v: &[BindingPredicateV1]) -> (r: bool)
    ensures
        r == predicates_increasing(v@),
{
    let mut i: usize = 0;
    while i < v.len() && i + 1 < v.len()
        invariant
            i <= v@.len(),
            forall|k: int| 0 <= k < i && k + 1 < v@.len() ==> #[trigger] predicates_adjacent_lt(v@, k),
        decreases v@.len() - i,
    {
        if !predicate_less(&v[i], &v[i + 1]) {
            assert(!predicates_adjacent_lt(v@, i as int));
            return false;
        }
        i = i + 1;
    }
    true
}

// ---------------------------------------------------------------- programs

/// The roots that a constant contract lists.
pub open spec fn constant_roots(c: ProtocolConstantContractV2) -> Seq<String> {
    c.semantic_constants_sha256@ + c.protocol_noop_constants_sha256@ + c.execution_budget_roots_sha256@
        + c.transport_default_roots_sha256@
}

/// The shape of a mode program: one source role with id 0, one argument
/// bound to it, one action class, at most three predicates, matching value
/// types and a selector root derived from the selector program.
pub open spec fn program_shape_ok(p: ProtocolModeProgramV2) -> bool {
    let roles = p.source_role_schema.roles@;
    let args = p.argument_role_schema.roles@;
    &&& roles.len() == 1
    &&& roles[0].role_id == 0
    &&& p.selector_program.max_action_classes == 1
    &&& p.selector_program.predicates@.len() <= MAX_SELECTOR_PREDICATES_V2
    &&& args.len() == 1
    &&& args[0].argument_ordinal == 0
    &&& args[0].source_role_id == 0
    &&& p.value_contract.observed == roles[0].value_type
    &&& p.value_contract.emitted == roles[0].value_type
    &&& utf8(p.structural_guard.selector_program_root_sha256@)
        == derived_root("selector-program"@, p.selector_program.json())
}

/// The roots that a mode program names are well-formed digests.
pub open spec fn program_roots_ok(p: ProtocolModeProgramV2) -> bool {
    &&& is_sha256_text(utf8(p.structural_guard.relation_identity_sha256@))
    &&& is_sha256_text(utf8(p.structural_guard.effect_invariant_root_sha256@))
    &&& is_sha256_text(utf8(p.capability_contract.protocol_facet_root_sha256@))
    &&& p.capability_contract.physical_program_ids_sha256@.len() > 0
    &&& all_sha256(p.capability_contract.physical_program_ids_sha256@)
    &&& all_sha256(constant_roots(p.constant_contract))
}

/// A mode program is valid: its shape and roots, with its predicates and
/// physical programs each sorted and free of duplicates.
pub open spec fn program_ok(p: ProtocolModeProgramV2) -> bool {
    &&& program_shape_ok(p)
    &&& program_roots_ok(p)
    &&& predicates_increasing(p.selector_program.predicates@)
    &&& strictly_increasing_text(texts(p.capability_contract.physical_program_ids_sha256@))
}

pub open spec fn spec_validate_program(p: ProtocolModeProgramV2) -> Result<(), BindingProtocolCompilerErrorV2> {
    if program_ok(p) { Ok(()) } else { Err(BindingProtocolCompilerErrorV2::InvalidCandidate) }
}

/// What a valid mode program looks like: one source role with id 0 whose
/// type both observed and emitted values have; one argument, ordinal 0,
/// from that role; one action class; at most three predicates in strictly
/// increasing order; and a non-empty, strictly increasing list of physical
/// program digests. Any invalid program is refused as an invalid candidate.
pub proof fn lemma_valid_program_shape(p: ProtocolModeProgramV2)
    ensures
        spec_validate_program(p) is Err ==> spec_validate_program(p) == Err::<(), BindingProtocolCompilerErrorV2>(
            BindingProtocolCompilerErrorV2::InvalidCandidate,
        ),
        spec_validate_program(p) is Ok ==> {
            let roles = p.source_role_schema.roles@;
            let args = p.argument_role_schema.roles@;
            &&& roles.len() == 1 && roles[0].role_id == 0
            &&& roles[0].cardinality == ProtocolRoleCardinalityV2::OneActionClass
            &&& p.value_contract.observed == roles[0].value_type
            &&& p.value_contract.emitted == roles[0].value_type
            &&& args.len() == 1 && args[0].argument_ordinal == 0 && args[0].source_role_id == 0
            &&& p.selector_program.max_action_classes == 1
            &&& p.selector_program.predicates@.len() <= 3
            &&& predicates_increasing(p.selector_program.predicates@)
            &&& p.capability_contract.physical_program_ids_sha256@.len() > 0
            &&& all_sha256(p.capability_contract.physical_program_ids_sha256@)
            &&& strictly_increasing_text(texts(p.capability_contract.physical_program_ids_sha256@))
        },
{
}

fn program_shape_exec(p: &ProtocolModeProgramV2) -> (r: bool)
    ensures
        r == program_shape_ok(*p),
{
    let roles = p.source_role_schema.roles.as_slice();
    let args = p.argument_role_schema.roles.as_slice();
    if roles.len() != 1 || roles[0].role_id != 0 || p.selector_program.max_action_classes != 1
        || p.selector_program.predicates.len() > MAX_SELECTOR_PREDICATES_V2
        || args.len() != 1 || args[0].argument_ordinal != 0 || args[0].source_role_id != 0
        || p.value_contract.observed != roles[0].value_type
        || p.value_contract.emitted != roles[0].value_type
    {
        return false;
    }
    root_matches(p.structural_guard.selector_program_root_sha256.as_str(), "selector-program", &p.selector_program)
}

fn constant_roots_exec(c: &ProtocolConstantContractV2) -> (r: bool)
    ensures
        r == all_sha256(constant_roots(*c)),
{
    let a = all_protocol_mode_sha256(c.semantic_constants_sha256.as_slice());
    let b = all_protocol_mode_sha256(c.protocol_noop_constants_sha256.as_slice());
    let d = all_protocol_mode_sha256(c.execution_budget_roots_sha256.as_slice());
    let e = all_protocol_mode_sha256(c.transport_default_roots_sha256.as_slice());
    proof {
        let s1 = c.semantic_constants_sha256@;
        let s2 = c.protocol_noop_constants_sha256@;
        let s3 = c.execution_budget_roots_sha256@;
        let s4 = c.transport_default_roots_sha256@;
        let all = constant_roots(*c);
        assert(all =~= s1 + s2 + s3 + s4);
        if a && b && d && e {
            assert forall|i: int| 0 <= i < all.len() implies #[trigger] is_sha256_text(utf8(all[i]@)) by {
                if i < s1.len() {
                    assert(all[i] == s1[i]);
                } else if i < s1.len() + s2.len() {
                    assert(all[i] == s2[i - s1.len()]);
                } else if i < s1.len() + s2.len() + s3.len() {
                    assert(all[i] == s3[i - s1.len() - s2.len()]);
                } else {
                    assert(all[i] == s4[i - s1.len() - s2.len() - s3.len()]);
                }
            }
        } else if !a {
            let k = choose|k: int| 0 <= k < s1.len() && !is_sha256_text(utf8(s1[k]@));
            assert(all[k] == s1[k]);
        } else if !b {
            let k = choose|k: int| 0 <= k < s2.len() && !is_sha256_text(utf8(s2[k]@));
            assert(all[s1.len() + k] == s2[k]);
        } else if !d {
            let k = choose|k: int| 0 <= k < s3.len() && !is_sha256_text(utf8(s3[k]@));
            assert(all[s1.len() + s2.len() + k] == s3[k]);
        } else {
            let k = choose|k: int| 0 <= k < s4.len() && !is_sha256_text(utf8(s4[k]@));
            assert(all[s1.len() + s2.len() + s3.len() + k] == s4[k]);
        }
    }
    a && b && d && e
}

/// Checks a mode program; any failure is `InvalidCandidate`.
pub fn validate_protocol_mode_program_v2(program: &ProtocolModeProgramV2) -> (r: Result<(), BindingProtocolCompilerErrorV2>)
    ensures
        r == spec_validate_program(*program),
{
    if !program_shape_exec(program)
        || !is_protocol_mode_sha256(program.structural_guard.relation_identity_sha256.as_str())
        || !is_protocol_mode_sha256(program.structural_guard.effect_invariant_root_sha256.as_str())
        || !is_protocol_mode_sha256(program.capability_contract.protocol_facet_root_sha256.as_str())
        || program.capability_contract.physical_program_ids_sha256.len() == 0
        || !all_protocol_mode_sha256(program.capability_contract.physical_program_ids_sha256.as_slice())
        || !constant_roots_exec(&program.constant_contract)
    {
        return Err(BindingProtocolCompilerErrorV2::InvalidCandidate);
    }
    if !predicates_increasing_exec(program.selector_program.predicates.as_slice())
        || !strings_increasing(program.capability_contract.physical_program_ids_sha256.as_slice())
    {
        return Err(BindingProtocolCompilerErrorV2::InvalidCandidate);
    }
    Ok(())
}

// ---------------------------------------------------------------- candidates

/// The fourteen roots that head a candidate or a mode are well-formed digests.
pub open spec fn head_roots_sha256(
    id: Seq<char>, effect_law: Seq<char>, relation: Seq<char>, facet: Seq<char>, effect_invariant: Seq<char>,
    source_roles: Seq<char>, selector: Seq<char>, value_types: Seq<char>, capability: Seq<char>,
    argument_roles: Seq<char>, constants: Seq<char>, guard: Seq<char>, temporal: Seq<char>, action_class: Seq<char>,
) -> bool {
    &&& is_sha256_text(utf8(id))
    &&& is_sha256_text(utf8(effect_law))
    &&& is_sha256_text(utf8(relation))
    &&& is_sha256_text(utf8(facet))
    &&& is_sha256_text(utf8(effect_invariant))
    &&& is_sha256_text(utf8(source_roles))
    &&& is_sha256_text(utf8(selector))
    &&& is_sha256_text(utf8(value_types))
    &&& is_sha256_text(utf8(capability))
    &&& is_sha256_text(utf8(argument_roles))
    &&& is_sha256_text(utf8(constants))
    &&& is_sha256_text(utf8(guard))
    &&& is_sha256_text(utf8(temporal))
    &&& is_sha256_text(utf8(action_class))
}

/// Each of the eight part roots is the one derived from its part of the program.
pub open spec fn part_roots_derived(
    source_roles: Seq<char>, selector: Seq<char>, value_types: Seq<char>, capability: Seq<char>,
    argument_roles: Seq<char>, constants: Seq<char>, guard: Seq<char>, temporal: Seq<char>,
    p: ProtocolModeProgramV2,
) -> bool {
    &&& utf8(source_roles) == derived_root("source-role-schema"@, p.source_role_schema.json())
    &&& utf8(selector) == derived_root("selector-program"@, p.selector_program.json())
    &&& utf8(value_types) == derived_root("observed-emitted-types"@, p.value_contract.json())
    &&& utf8(capability) == derived_root("capability-protocol"@, p.capability_contract.json())
    &&& utf8(argument_roles) == derived_root("argument-role-schema"@, p.argument_role_schema.json())
    &&& utf8(constants) == derived_root("constant-contract"@, p.constant_contract.json())
    &&& utf8(guard) == derived_root("structural-guard"@, p.structural_guard.json())
    &&& utf8(temporal) == derived_root("temporal-cardinality"@, p.temporal_cardinality_contract.json())
}

/// The facet, relation and invariant roots repeat those inside the program.
pub open spec fn program_links_ok(
    relation: Seq<char>, facet: Seq<char>, effect_invariant: Seq<char>, p: ProtocolModeProgramV2,
) -> bool {
    &&& facet == p.capability_contract.protocol_facet_root_sha256@
    &&& relation == p.structural_guard.relation_identity_sha256@
    &&& effect_invariant == p.structural_guard.effect_invariant_root_sha256@
}

pub open spec fn candidate_head_ok(c: BoundedProtocolModeCandidateV2) -> bool {
    &&& head_roots_sha256(
        c.candidate_id_sha256@, c.effect_law_id_sha256@, c.relation_identity_sha256@,
        c.protocol_facet_root_sha256@, c.effect_invariant_root_sha256@, c.source_role_schema_root_sha256@,
        c.selector_program_root_sha256@, c.observed_emitted_types_root_sha256@,
        c.capability_protocol_root_sha256@, c.argument_role_schema_root_sha256@,
        c.constant_contract_root_sha256@, c.structural_guard_root_sha256@,
        c.temporal_cardinality_contract_root_sha256@, c.action_class_root_sha256@)
    &&& part_roots_derived(
        c.source_role_schema_root_sha256@, c.selector_program_root_sha256@,
        c.observed_emitted_types_root_sha256@, c.capability_protocol_root_sha256@,
        c.argument_role_schema_root_sha256@, c.constant_contract_root_sha256@,
        c.structural_guard_root_sha256@, c.temporal_cardinality_contract_root_sha256@, c.program)
    &&& program_links_ok(c.relation_identity_sha256@, c.protocol_facet_root_sha256@,
        c.effect_invariant_root_sha256@, c.program)
}

/// The rows that a candidate reports are well-formed digests.
pub open spec fn candidate_rows_ok(c: BoundedProtocolModeCandidateV2) -> bool {
    &&& all_sha256(c.covers_positive_rows_sha256@)
    &&& all_sha256(c.accepts_negative_rows_sha256@)
    &&& all_sha256(c.wrong_action_rows_sha256@)
    &&& all_sha256(c.verify_failed_rows_sha256@)
}

/// A candidate is checked first by its program (`InvalidCandidate`), then
/// by its roots and rows (`InvalidDigest`).
pub open spec fn spec_validate_candidate(c: BoundedProtocolModeCandidateV2) -> Result<(), BindingProtocolCompilerErrorV2> {
    if !program_ok(c.program) {
        Err(BindingProtocolCompilerErrorV2::InvalidCandidate)
    } else if !(candidate_head_ok(c) && candidate_rows_ok(c)) {
        Err(BindingProtocolCompilerErrorV2::InvalidDigest)
    } else {
        Ok(())
    }
}

fn head_roots_sha256_exec(
    id: &str, effect_law: &str, relation: &str, facet: &str, effect_invariant: &str,
    source_roles: &str, selector: &str, value_types: &str, capability: &str,
    argument_roles: &str, constants: &str, guard: &str, temporal: &str, action_class: &str,
) -> (r: bool)
    ensures
        r == head_roots_sha256(id@, effect_law@, relation@, facet@, effect_invariant@, source_roles@, selector@,
            value_types@, capability@, argument_roles@, constants@, guard@, temporal@, action_class@),
{
    is_sha256(id) && is_sha256(effect_law) && is_sha256(relation) && is_sha256(facet) && is_sha256(effect_invariant)
        && is_sha256(source_roles) && is_sha256(selector) && is_sha256(value_types) && is_sha256(capability)
        && is_sha256(argument_roles) && is_sha256(constants) && is_sha256(guard) && is_sha256(temporal)
        && is_sha256(action_class)
}

fn part_roots_derived_exec(
    source_roles: &str, selector: &str, value_types: &str, capability: &str,
    argument_roles: &str, constants: &str, guard: &str, temporal: &str,
    p: &ProtocolModeProgramV2,
) -> (r: bool)
    ensures
        r == part_roots_derived(source_roles@, selector@, value_types@, capability@, argument_roles@,
            constants@, guard@, temporal@, *p),
{
    root_matches(source_roles, "source-role-schema", &p.source_role_schema)
        && root_matches(selector, "selector-program", &p.selector_program)
        && root_matches(value_types, "observed-emitted-types", &p.value_contract)
        && root_matches(capability, "capability-protocol", &p.capability_contract)
        && root_matches(argument_roles, "argument-role-schema", &p.argument_role_schema)
        && root_matches(constants, "constant-contract", &p.constant_contract)
        && root_matches(guard, "structural-guard", &p.structural_guard)
        && root_matches(temporal, "temporal-cardinality", &p.temporal_cardinality_contract)
}

fn program_links_exec(relation: &str, facet: &str, effect_invariant: &str, p: &ProtocolModeProgramV2) -> (r: bool)
    ensures
        r == program_links_ok(relation@, facet@, effect_invariant@, *p),
{
    str_eq(facet, p.capability_contract.protocol_facet_root_sha256.as_str())
        && str_eq(relation, p.structural_guard.relation_identity_sha256.as_str())
        && str_eq(effect_invariant, p.structural_guard.effect_invariant_root_sha256.as_str())
}

/// Checks a candidate: its program, then its roots and rows.
pub fn validate_protocol_mode_candidate_v2(candidate: &BoundedProtocolModeCandidateV2) -> (r: Result<(), BindingProtocolCompilerErrorV2>)
    ensures
        r == spec_validate_candidate(*candidate),
{
    validate_protocol_mode_program_v2(&candidate.program)?;
    let c = candidate;
    let heads = head_roots_sha256_exec(
        c.candidate_id_sha256.as_str(), c.effect_law_id_sha256.as_str(), c.relation_identity_sha256.as_str(),
        c.protocol_facet_root_sha256.as_str(), c.effect_invariant_root_sha256.as_str(),
        c.source_role_schema_root_sha256.as_str(), c.selector_program_root_sha256.as_str(),
        c.observed_emitted_types_root_sha256.as_str(), c.capability_protocol_root_sha256.as_str(),
        c.argument_role_schema_root_sha256.as_str(), c.constant_contract_root_sha256.as_str(),
        c.structural_guard_root_sha256.as_str(), c.temporal_cardinality_contract_root_sha256.as_str(),
        c.action_class_root_sha256.as_str());
    if !heads
        || !part_roots_derived_exec(
            c.source_role_schema_root_sha256.as_str(), c.selector_program_root_sha256.as_str(),
            c.observed_emitted_types_root_sha256.as_str(), c.capability_protocol_root_sha256.as_str(),
            c.argument_role_schema_root_sha256.as_str(), c.constant_contract_root_sha256.as_str(),
            c.structural_guard_root_sha256.as_str(), c.temporal_cardinality_contract_root_sha256.as_str(),
            &c.program)
        || !program_links_exec(c.relation_identity_sha256.as_str(), c.protocol_facet_root_sha256.as_str(),
            c.effect_invariant_root_sha256.as_str(), &c.program)
        || !all_protocol_mode_sha256(c.covers_positive_rows_sha256.as_slice())
        || !all_protocol_mode_sha256(c.accepts_negative_rows_sha256.as_slice())
        || !all_protocol_mode_sha256(c.wrong_action_rows_sha256.as_slice())
        || !all_protocol_mode_sha256(c.verify_failed_rows_sha256.as_slice())
    {
        return Err(BindingProtocolCompilerErrorV2::InvalidDigest);
    }
    Ok(())
}

// ---------------------------------------------------------------- copies

/// Two programs hold the same values, field by field.
pub open spec fn same_program(a: ProtocolModeProgramV2, b: ProtocolModeProgramV2) -> bool {
    &&& a.source_role_schema.roles@ == b.source_role_schema.roles@
    &&& a.selector_program.predicates@ == b.selector_program.predicates@
    &&& a.selector_program.max_action_classes == b.selector_program.max_action_classes
    &&& a.value_contract == b.value_contract
    &&& a.capability_contract.protocol_facet_root_sha256 == b.capability_contract.protocol_facet_root_sha256
    &&& a.capability_contract.physical_program_ids_sha256@ == b.capability_contract.physical_program_ids_sha256@
    &&& a.argument_role_schema.roles@ == b.argument_role_schema.roles@
    &&& a.constant_contract.semantic_constants_sha256@ == b.constant_contract.semantic_constants_sha256@
    &&& a.constant_contract.protocol_noop_constants_sha256@ == b.constant_contract.protocol_noop_constants_sha256@
    &&& a.constant_contract.execution_budget_roots_sha256@ == b.constant_contract.execution_budget_roots_sha256@
    &&& a.constant_contract.transport_default_roots_sha256@ == b.constant_contract.transport_default_roots_sha256@
    &&& a.structural_guard == b.structural_guard
    &&& a.temporal_cardinality_contract.completion_states@ == b.temporal_cardinality_contract.completion_states@
    &&& a.temporal_cardinality_contract.temporal_distances@ == b.temporal_cardinality_contract.temporal_distances@
    &&& a.temporal_cardinality_contract.event_candidate_cardinalities@
        == b.temporal_cardinality_contract.event_candidate_cardinalities@
    &&& a.temporal_cardinality_contract.require_unique_action_class
        == b.temporal_cardinality_contract.require_unique_action_class
}

fn copy_strings(v: &Vec<String>) -> (r: Vec<String>)
    ensures
        r@ == v@,
{
    let r = v.clone();
    assert(r@ =~= v@);
    r
}

fn copy_values<T: Copy>(v: &Vec<T>) -> (r: Vec<T>)
    ensures
        r@ == v@,
{
    let mut out: Vec<T> = Vec::new();
    let mut i: usize = 0;
    while i < v.len()
        invariant
            i <= v@.len(),
            out@ == v@.take(i as int),
        decreases v@.len() - i,
    {
        out.push(v[i]);
        assert(out@ =~= v@.take(i + 1));
        i = i + 1;
    }
    assert(out@ =~= v@);
    out
}

fn copy_predicate(p: &BindingPredicateV1) -> (r: BindingPredicateV1)
    ensures
        r == *p,
{
    match p {
        BindingPredicateV1::SourceEventClass { value } => BindingPredicateV1::SourceEventClass { value: *value },
        BindingPredicateV1::CallLineage { value } => BindingPredicateV1::CallLineage { value: *value },
        BindingPredicateV1::CapabilityClass { value } => BindingPredicateV1::CapabilityClass { value: *value },
        BindingPredicateV1::TemporalDistance { value } => BindingPredicateV1::TemporalDistance { value: *value },
        BindingPredicateV1::CompletionState { value } => BindingPredicateV1::CompletionState { value: *value },
        BindingPredicateV1::EventCandidateCardinality { value } =>
            BindingPredicateV1::EventCandidateCardinality { value: *value },
        BindingPredicateV1::ValueType { value } => BindingPredicateV1::ValueType { value: *value },
        BindingPredicateV1::RequestRelation { value } => BindingPredicateV1::RequestRelation { value: *value },
        BindingPredicateV1::TopologyNeighborhood { root_sha256 } =>
            BindingPredicateV1::TopologyNeighborhood { root_sha256: root_sha256.clone() },
    }
}

fn copy_predicates(v: &Vec<BindingPredicateV1>) -> (r: Vec<BindingPredicateV1>)
    ensures
        r@ == v@,
{
    let mut out: Vec<BindingPredicateV1> = Vec::new();
    let mut i: usize = 0;
    while i < v.len()
        invariant
            i <= v@.len(),
            out@ == v@.take(i as int),
        decreases v@.len() - i,
    {
        out.push(copy_predicate(&v[i]));
        assert(out@ =~= v@.take(i + 1));
        i = i + 1;
    }
    assert(out@ =~= v@);
    out
}

fn copy_source_roles(v: &Vec<ProtocolSourceRoleV2>) -> (r: Vec<ProtocolSourceRoleV2>)
    ensures
        r@ == v@,
{
    let mut out: Vec<ProtocolSourceRoleV2> = Vec::new();
    let mut i: usize = 0;
    while i < v.len()
        invariant
            i <= v@.len(),
            out@ == v@.take(i as int),
        decreases v@.len() - i,
    {
        let x = &v[i];
        out.push(ProtocolSourceRoleV2 { role_id: x.role_id, value_type: x.value_type, cardinality: x.cardinality });
        assert(out@ =~= v@.take(i + 1));
        i = i + 1;
    }
    assert(out@ =~= v@);
    out
}

fn copy_argument_roles(v: &Vec<ProtocolArgumentRoleV2>) -> (r: Vec<ProtocolArgumentRoleV2>)
    ensures
        r@ == v@,
{
    let mut out: Vec<ProtocolArgumentRoleV2> = Vec::new();
    let mut i: usize = 0;
    while i < v.len()
        invariant
            i <= v@.len(),
            out@ == v@.take(i as int),
        decreases v@.len() - i,
    {
        let x = &v[i];
        out.push(ProtocolArgumentRoleV2 { argument_ordinal: x.argument_ordinal, source_role_id: x.source_role_id });
        assert(out@ =~= v@.take(i + 1));
        i = i + 1;
    }
    assert(out@ =~= v@);
    out
}

/// A copy of a program, field by field.
pub fn copy_program(p: &ProtocolModeProgramV2) -> (r: ProtocolModeProgramV2)
    ensures
        same_program(r, *p),
{
    ProtocolModeProgramV2 {
        source_role_schema: ProtocolSourceRoleSchemaV2 { roles: copy_source_roles(&p.source_role_schema.roles) },
        selector_program: ProtocolSelectorProgramV2 {
            predicates: copy_predicates(&p.selector_program.predicates),
            max_action_classes: p.selector_program.max_action_classes,
        },
        value_contract: ProtocolValueContractV2 {
            observed: p.value_contract.observed,
            emitted: p.value_contract.emitted,
        },
        capability_contract: ProtocolCapabilityContractV2 {
            protocol_facet_root_sha256: p.capability_contract.protocol_facet_root_sha256.clone(),
            physical_program_ids_sha256: copy_strings(&p.capability_contract.physical_program_ids_sha256),
        },
        argument_role_schema: ProtocolArgumentRoleSchemaV2 { roles: copy_argument_roles(&p.argument_role_schema.roles) },
        constant_contract: ProtocolConstantContractV2 {
            semantic_constants_sha256: copy_strings(&p.constant_contract.semantic_constants_sha256),
            protocol_noop_constants_sha256: copy_strings(&p.constant_contract.protocol_noop_constants_sha256),
            execution_budget_roots_sha256: copy_strings(&p.constant_contract.execution_budget_roots_sha256),
            transport_default_roots_sha256: copy_strings(&p.constant_contract.transport_default_roots_sha256),
        },
        structural_guard: ProtocolStructuralGuardV2 {
            relation_identity_sha256: p.structural_guard.relation_identity_sha256.clone(),
            effect_invariant_root_sha256: p.structural_guard.effect_invariant_root_sha256.clone(),
            selector_program_root_sha256: p.structural_guard.selector_program_root_sha256.clone(),
        },
        temporal_cardinality_contract: ProtocolTemporalCardinalityContractV2 {
            completion_states: copy_values(&p.temporal_cardinality_contract.completion_states),
            temporal_distances: copy_values(&p.temporal_cardinality_contract.temporal_distances),
            event_candidate_cardinalities: copy_values(&p.temporal_cardinality_contract.event_candidate_cardinalities),
            require_unique_action_class: p.temporal_cardinality_contract.require_unique_action_class,
        },
    }
}

/// Programs with the same values have the same canonical JSON and the
/// same validity.
pub proof fn lemma_same_program(a: ProtocolModeProgramV2, b: ProtocolModeProgramV2)
    requires
        same_program(a, b),
    ensures
        a.json() == b.json(),
        program_ok(a) == program_ok(b),
        a.source_role_schema.json() == b.source_role_schema.json(),
        a.selector_program.json() == b.selector_program.json(),
        a.value_contract.json() == b.value_contract.json(),
        a.capability_contract.json() == b.capability_contract.json(),
        a.argument_role_schema.json() == b.argument_role_schema.json(),
        a.constant_contract.json() == b.constant_contract.json(),
        a.structural_guard.json() == b.structural_guard.json(),
        a.temporal_cardinality_contract.json() == b.temporal_cardinality_contract.json(),
{
    assert(constant_roots(a.constant_contract) =~= constant_roots(b.constant_contract));
}

// ---------------------------------------------------------------- modes

/// The canonical JSON of a program (kept folded where it is not needed).
#[verifier::opaque]
pub open spec fn program_json(p: ProtocolModeProgramV2) -> Seq<u8> {
    p.json()
}

/// What a mode's identity covers: its roots, program and covered rows.
pub open spec fn mode_digest_items(m: ProtocolModeV2) -> Seq<Seq<u8>> {
    seq![
        json_str(m.effect_law_id_sha256@),
        json_str(m.relation_identity_sha256@),
        json_str(m.protocol_facet_root_sha256@),
        json_str(m.effect_invariant_root_sha256@),
        json_str(m.source_role_schema_root_sha256@),
        json_str(m.selector_program_root_sha256@),
        json_str(m.observed_emitted_types_root_sha256@),
        json_str(m.capability_protocol_root_sha256@),
        json_str(m.argument_role_schema_root_sha256@),
        json_str(m.constant_contract_root_sha256@),
        json_str(m.structural_guard_root_sha256@),
        json_str(m.temporal_cardinality_contract_root_sha256@),
        json_str(m.action_class_root_sha256@),
        program_json(m.program),
        m.covered_positive_rows_sha256.json(),
    ]
}

/// The identity of a mode (its own id excluded).
pub open spec fn mode_digest(m: ProtocolModeV2) -> Seq<u8> {
    json_identity(tuple(mode_digest_items(m)))
}

/// Appends the first five roots of a mode, in digest order.
fn write_mode_roots_head(out: &mut Vec<u8>, st: TupleState, m: &ProtocolModeV2) -> (r: TupleState)
    requires
        tuple_open(old(out)@, st),
    ensures
        r.start@ == st.start@,
        r.items@ == st.items@.push(json_str(m.effect_law_id_sha256@)).push(json_str(m.relation_identity_sha256@))
            .push(json_str(m.protocol_facet_root_sha256@)).push(json_str(m.effect_invariant_root_sha256@))
            .push(json_str(m.source_role_schema_root_sha256@)),
        tuple_open(final(out)@, r),
{
    let st1 = write_item_str(out, st, m.effect_law_id_sha256.as_str());
    let st2 = write_item_str(out, st1, m.relation_identity_sha256.as_str());
    let st3 = write_item_str(out, st2, m.protocol_facet_root_sha256.as_str());
    let st4 = write_item_str(out, st3, m.effect_invariant_root_sha256.as_str());
    let r = write_item_str(out, st4, m.source_role_schema_root_sha256.as_str());
    r
}

/// Appends the next four roots of a mode, in digest order.
fn write_mode_roots_middle(out: &mut Vec<u8>, st: TupleState, m: &ProtocolModeV2) -> (r: TupleState)
    requires
        tuple_open(old(out)@, st),
    ensures
        r.start@ == st.start@,
        r.items@ == st.items@.push(json_str(m.selector_program_root_sha256@))
            .push(json_str(m.observed_emitted_types_root_sha256@)).push(json_str(m.capability_protocol_root_sha256@))
            .push(json_str(m.argument_role_schema_root_sha256@)),
        tuple_open(final(out)@, r),
{
    let st1 = write_item_str(out, st, m.selector_program_root_sha256.as_str());
    let st2 = write_item_str(out, st1, m.observed_emitted_types_root_sha256.as_str());
    let st3 = write_item_str(out, st2, m.capability_protocol_root_sha256.as_str());
    let r = write_item_str(out, st3, m.argument_role_schema_root_sha256.as_str());
    r
}

/// Appends the last four roots of a mode, in digest order.
fn write_mode_roots_tail(out: &mut Vec<u8>, st: TupleState, m: &ProtocolModeV2) -> (r: TupleState)
    requires
        tuple_open(old(out)@, st),
    ensures
        r.start@ == st.start@,
        r.items@ == st.items@.push(json_str(m.constant_contract_root_sha256@))
            .push(json_str(m.structural_guard_root_sha256@))
            .push(json_str(m.temporal_cardinality_contract_root_sha256@)).push(json_str(m.action_class_root_sha256@)),
        tuple_open(final(out)@, r),
{
    let st1 = write_item_str(out, st, m.constant_contract_root_sha256.as_str());
    let st2 = write_item_str(out, st1, m.structural_guard_root_sha256.as_str());
    let st3 = write_item_str(out, st2, m.temporal_cardinality_contract_root_sha256.as_str());
    let r = write_item_str(out, st3, m.action_class_root_sha256.as_str());
    r
}

pub fn protocol_mode_digest_v2(mode: &ProtocolModeV2) -> (r: Result<String, BindingProtocolCompilerErrorV2>)
    ensures
        r matches Ok(s) && utf8(s@) == mode_digest(*mode),
{
    let mut out: Vec<u8> = Vec::new();
    let st = begin_tuple(&mut out);
    let st1 = write_mode_roots_head(&mut out, st, mode);
    let st2 = write_mode_roots_middle(&mut out, st1, mode);
    let st3 = write_mode_roots_tail(&mut out, st2, mode);
    let st4 = write_item(&mut out, st3, &mode.program);
    proof {
        reveal(program_json);
    }
    let st5 = write_item(&mut out, st4, &mode.covered_positive_rows_sha256);
    end_tuple(&mut out, st5);
    proof {
        let items = st5.items@;
        assert(items == mode_digest_items(*mode));
        assert(out@ =~= tuple(items));
    }
    Ok(sha256_hex(out.as_slice()))
}

/// The characters of each text.
pub open spec fn text_views(v: Seq<String>) -> Seq<Seq<char>> {
    v.map_values(|s: String| s@)
}

/// The texts in strictly increasing byte order, each once: the rows as a set.
pub open spec fn sorted_set_of(r: Seq<String>, rows: Seq<String>) -> bool {
    &&& strictly_increasing_text(texts(r))
    &&& forall|x: Seq<char>| text_views(r).contains(x) <==> text_views(rows).contains(x)
}

/// Sorts the texts by their bytes and drops repeats.
fn sorted_rows(rows: &Vec<String>) -> (r: Vec<String>)
    ensures
        sorted_set_of(r@, rows@),
{
    let mut out: Vec<String> = Vec::new();
    let mut i: usize = 0;
    while i < rows.len()
        invariant
            i <= rows@.len(),
            sorted_set_of(out@, rows@.take(i as int)),
        decreases rows@.len() - i,
    {
        let x = rows[i].clone();
        let ghost old_out = out@;
        let mut k: usize = 0;
        while k < out.len() && bytes_lt(out[k].as_str().as_bytes(), x.as_str().as_bytes())
            invariant
                k <= out@.len(),
                out@ == old_out,
                forall|j: int| 0 <= j < k ==> lex_lt(#[trigger] texts(out@)[j], utf8(x@)),
            decreases out@.len() - k,
        {
            assert(texts(out@)[k as int] == utf8(out@[k as int]@));
            k = k + 1;
        }
        assert(rows@.take(i + 1) =~= rows@.take(i as int).push(rows@[i as int]));
        assert(text_views(rows@.take(i + 1)) =~= text_views(rows@.take(i as int)).push(x@));
        let same = if k < out.len() { str_eq(out[k].as_str(), x.as_str()) } else { false };
        if same {
            assert(k < out@.len());
            assert(out@[k as int]@ == x@);
            assert(text_views(out@)[k as int] == out@[k as int]@);
            assert(text_views(out@)[k as int] == x@);
            assert forall|y: Seq<char>| text_views(out@).contains(y) <==> text_views(rows@.take(i + 1)).contains(y) by {
                if y == x@ {
                    assert(text_views(rows@.take(i + 1))[i as int] == y);
                }
                let before = text_views(rows@.take(i as int));
                let after = text_views(rows@.take(i + 1));
                if after.contains(y) && y != x@ {
                    let j = choose|j: int| 0 <= j < after.len() && #[trigger] after[j] == y;
                    assert(before[j] == y);
                }
                if before.contains(y) {
                    let j = choose|j: int| 0 <= j < before.len() && #[trigger] before[j] == y;
                    assert(after[j] == y);
                }
            }
        } else {
            proof {
                if k < out@.len() {
                    assert(texts(out@)[k as int] == utf8(out@[k as int]@));
                    lemma_utf8_injective(out@[k as int]@, x@);
                    lemma_lex_lt_total(utf8(out@[k as int]@), utf8(x@));
                }
            }
            out.insert(k, x);
            assert(texts(out@) =~= texts(old_out).insert(k as int, utf8(x@)));
            assert(text_views(out@) =~= text_views(old_out).insert(k as int, x@));
            assert forall|j: int| 0 <= j && j + 1 < texts(out@).len() implies #[trigger] adjacent_lt_text(texts(out@), j) by {
                if j + 1 < k {
                    assert(adjacent_lt_text(texts(old_out), j));
                } else if j + 1 == k {
                } else if j == k {
                } else {
                    assert(adjacent_lt_text(texts(old_out), j - 1));
                }
            }
            assert forall|y: Seq<char>| text_views(out@).contains(y) <==> text_views(rows@.take(i + 1)).contains(y) by {
                let tv = text_views(out@);
                let old_tv = text_views(old_out);
                let tr = text_views(rows@.take(i + 1));
                if y == x@ {
                    assert(tv[k as int] == y);
                    assert(tr[i as int] == y);
                } else {
                    if tv.contains(y) {
                        let j = choose|j: int| 0 <= j < tv.len() && #[trigger] tv[j] == y;
                        if j < k {
                            assert(old_tv[j] == y);
                        } else {
                            assert(old_tv[j - 1] == y);
                        }
                    }
                    if old_tv.contains(y) {
                        let j = choose|j: int| 0 <= j < old_tv.len() && #[trigger] old_tv[j] == y;
                        if j < k {
                            assert(tv[j] == y);
                        } else {
                            assert(tv[j + 1] == y);
                        }
                    }
                    if tr.contains(y) {
                        let j = choose|j: int| 0 <= j < tr.len() && #[trigger] tr[j] == y;
                        assert(text_views(rows@.take(i as int))[j] == y);
                    }
                    if text_views(rows@.take(i as int)).contains(y) {
                        let j = choose|j: int| 0 <= j < text_views(rows@.take(i as int)).len()
                            && #[trigger] text_views(rows@.take(i as int))[j] == y;
                        assert(tr[j] == y);
                    }
                }
            }
        }
        i = i + 1;
    }
    assert(rows@.take(rows@.len() as int) =~= rows@);
    out
}

/// A mode built from a candidate: the candidate's roots and program, the
/// covered rows as a sorted set, and an id that is the mode's own digest.
pub open spec fn mode_from_candidate(m: ProtocolModeV2, c: BoundedProtocolModeCandidateV2, covered: Seq<String>) -> bool {
    &&& m.effect_law_id_sha256 == c.effect_law_id_sha256
    &&& m.relation_identity_sha256 == c.relation_identity_sha256
    &&& m.protocol_facet_root_sha256 == c.protocol_facet_root_sha256
    &&& m.effect_invariant_root_sha256 == c.effect_invariant_root_sha256
    &&& m.source_role_schema_root_sha256 == c.source_role_schema_root_sha256
    &&& m.selector_program_root_sha256 == c.selector_program_root_sha256
    &&& m.observed_emitted_types_root_sha256 == c.observed_emitted_types_root_sha256
    &&& m.capability_protocol_root_sha256 == c.capability_protocol_root_sha256
    &&& m.argument_role_schema_root_sha256 == c.argument_role_schema_root_sha256
    &&& m.constant_contract_root_sha256 == c.constant_contract_root_sha256
    &&& m.structural_guard_root_sha256 == c.structural_guard_root_sha256
    &&& m.temporal_cardinality_contract_root_sha256 == c.temporal_cardinality_contract_root_sha256
    &&& m.action_class_root_sha256 == c.action_class_root_sha256
    &&& same_program(m.program, c.program)
    &&& sorted_set_of(m.covered_positive_rows_sha256@, covered)
    &&& utf8(m.mode_id_sha256@) == mode_digest(m)
}

/// Builds the mode of a candidate over the rows it covers.
pub fn protocol_mode_from_candidate_v2(
    candidate: &BoundedProtocolModeCandidateV2,
    covered: Vec<String>,
) -> (r: Result<ProtocolModeV2, BindingProtocolCompilerErrorV2>)
    ensures
        r matches Ok(m) && mode_from_candidate(m, *candidate, covered@),
{
    let c = candidate;
    let mut mode = ProtocolModeV2 {
        mode_id_sha256: String::new(),
        effect_law_id_sha256: c.effect_law_id_sha256.clone(),
        relation_identity_sha256: c.relation_identity_sha256.clone(),
        protocol_facet_root_sha256: c.protocol_facet_root_sha256.clone(),
        effect_invariant_root_sha256: c.effect_invariant_root_sha256.clone(),
        source_role_schema_root_sha256: c.source_role_schema_root_sha256.clone(),
        selector_program_root_sha256: c.selector_program_root_sha256.clone(),
        observed_emitted_types_root_sha256: c.observed_emitted_types_root_sha256.clone(),
        capability_protocol_root_sha256: c.capability_protocol_root_sha256.clone(),
        argument_role_schema_root_sha256: c.argument_role_schema_root_sha256.clone(),
        constant_contract_root_sha256: c.constant_contract_root_sha256.clone(),
        structural_guard_root_sha256: c.structural_guard_root_sha256.clone(),
        temporal_cardinality_contract_root_sha256: c.temporal_cardinality_contract_root_sha256.clone(),
        action_class_root_sha256: c.action_class_root_sha256.clone(),
        program: copy_program(&c.program),
        covered_positive_rows_sha256: sorted_rows(&covered),
    };
    let id = match protocol_mode_digest_v2(&mode) {
        Ok(id) => id,
        Err(e) => return Err(e),
    };
    mode.mode_id_sha256 = id;
    assert(mode_digest_items(mode) =~= mode_digest_items(mode));
    Ok(mode)
}

// ---------------------------------------------------------------- mode sets

/// The canonical JSON of a list of modes (kept folded where it is not needed).
#[verifier::opaque]
pub open spec fn modes_json(ms: Seq<ProtocolModeV2>) -> Seq<u8> {
    crate::json::json_array(ms)
}

/// What a mode set's identity covers: everything but the identity itself.
pub open spec fn set_digest_items(set: ProtocolModeSetV2) -> Seq<Seq<u8>> {
    seq![
        json_str(set.schema@),
        set.verdict.json(),
        json_str(set.binding_capability_root_sha256@),
        json_str(set.effect_law_id_sha256@),
        json_str(set.relation_identity_sha256@),
        modes_json(set.modes@),
        set.positive_rows.json(),
        set.positive_rows_covered.json(),
        set.wrong_actions.json(),
        set.verify_failed.json(),
        set.negative_accepts.json(),
        set.search_exhausted.json(),
        set.action_equivalence_classes.json(),
        set.all_surviving_covers_action_equivalent.json(),
        set.production_admissible.json(),
        set.execution_authority.json(),
    ]
}

/// The identity of a mode set.
pub open spec fn set_digest(set: ProtocolModeSetV2) -> Seq<u8> {
    json_identity(tuple(set_digest_items(set)))
}

fn write_set_head(out: &mut Vec<u8>, st: TupleState, set: &ProtocolModeSetV2) -> (r: TupleState)
    requires
        tuple_open(old(out)@, st),
    ensures
        r.start@ == st.start@,
        r.items@ == st.items@.push(json_str(set.schema@)).push(set.verdict.json())
            .push(json_str(set.binding_capability_root_sha256@)).push(json_str(set.effect_law_id_sha256@))
            .push(json_str(set.relation_identity_sha256@)).push(modes_json(set.modes@)),
        tuple_open(final(out)@, r),
{
    let st1 = write_item_str(out, st, set.schema.as_str());
    let st2 = write_item(out, st1, &set.verdict);
    let st3 = write_item_str(out, st2, set.binding_capability_root_sha256.as_str());
    let st4 = write_item_str(out, st3, set.effect_law_id_sha256.as_str());
    let st5 = write_item_str(out, st4, set.relation_identity_sha256.as_str());
    let r = write_item(out, st5, &set.modes);
    proof {
        reveal(modes_json);
    }
    r
}

fn write_set_counts(out: &mut Vec<u8>, st: TupleState, set: &ProtocolModeSetV2) -> (r: TupleState)
    requires
        tuple_open(old(out)@, st),
    ensures
        r.start@ == st.start@,
        r.items@ == st.items@.push(set.positive_rows.json()).push(set.positive_rows_covered.json())
            .push(set.wrong_actions.json()).push(set.verify_failed.json()).push(set.negative_accepts.json()),
        tuple_open(final(out)@, r),
{
    let st1 = write_item(out, st, &set.positive_rows);
    let st2 = write_item(out, st1, &set.positive_rows_covered);
    let st3 = write_item(out, st2, &set.wrong_actions);
    let st4 = write_item(out, st3, &set.verify_failed);
    let r = write_item(out, st4, &set.negative_accepts);
    r
}

fn write_set_flags(out: &mut Vec<u8>, st: TupleState, set: &ProtocolModeSetV2) -> (r: TupleState)
    requires
        tuple_open(old(out)@, st),
    ensures
        r.start@ == st.start@,
        r.items@ == st.items@.push(set.search_exhausted.json()).push(set.action_equivalence_classes.json())
            .push(set.all_surviving_covers_action_equivalent.json()).push(set.production_admissible.json())
            .push(set.execution_authority.json()),
        tuple_open(final(out)@, r),
{
    let st1 = write_item(out, st, &set.search_exhausted);
    let st2 = write_item(out, st1, &set.action_equivalence_classes);
    let st3 = write_item(out, st2, &set.all_surviving_covers_action_equivalent);
    let st4 = write_item(out, st3, &set.production_admissible);
    let r = write_item(out, st4, &set.execution_authority);
    r
}

pub fn protocol_mode_set_digest_v2(set: &ProtocolModeSetV2) -> (r: Result<String, BindingProtocolCompilerErrorV2>)
    ensures
        r matches Ok(s) && utf8(s@) == set_digest(*set),
{
    let mut out: Vec<u8> = Vec::new();
    let st = begin_tuple(&mut out);
    let st1 = write_set_head(&mut out, st, set);
    let st2 = write_set_counts(&mut out, st1, set);
    let st3 = write_set_flags(&mut out, st2, set);
    end_tuple(&mut out, st3);
    proof {
        let items = st3.items@;
        assert(items == set_digest_items(*set));
        assert(out@ =~= tuple(items));
    }
    Ok(sha256_hex(out.as_slice()))
}

/// The UTF-8 bytes of each mode's id.
pub open spec fn mode_id_texts(ms: Seq<ProtocolModeV2>) -> Seq<Seq<u8>> {
    ms.map_values(|m: ProtocolModeV2| utf8(m.mode_id_sha256@))
}

/// The verdict agrees with the set: an abstention holds no mode; a mode
/// set holds modes that cover every positive row of one action class with
/// no wrong action, failed verification or accepted negative.
pub open spec fn verdict_ok(set: ProtocolModeSetV2) -> bool {
    match set.verdict {
        BindingProtocolCompileVerdictV2::Abstain => set.modes@.len() == 0,
        BindingProtocolCompileVerdictV2::ProtocolModeSet => {
            &&& set.modes@.len() > 0
            &&& !set.search_exhausted
            &&& set.action_equivalence_classes == 1
            &&& set.wrong_actions == 0
            &&& set.verify_failed == 0
            &&& set.negative_accepts == 0
            &&& set.positive_rows > 0
            &&& set.positive_rows_covered == set.positive_rows
            &&& set.all_surviving_covers_action_equivalent
        },
    }
}

/// The checks on a mode set as a whole.
#[verifier::opaque]
pub open spec fn set_head_ok(set: ProtocolModeSetV2) -> bool {
    &&& set.schema@ == PROTOCOL_MODE_SET_SCHEMA_V2@
    &&& is_sha256_text(utf8(set.mode_set_sha256@))
    &&& is_sha256_text(utf8(set.binding_capability_root_sha256@))
    &&& is_sha256_text(utf8(set.effect_law_id_sha256@))
    &&& is_sha256_text(utf8(set.relation_identity_sha256@))
    &&& !set.execution_authority
    &&& strictly_increasing_text(mode_id_texts(set.modes@))
    &&& set.positive_rows_covered <= set.positive_rows
    &&& utf8(set.mode_set_sha256@) == set_digest(set)
    &&& verdict_ok(set)
}

/// The rows covered by the modes, in order.
pub open spec fn all_rows(ms: Seq<ProtocolModeV2>) -> Seq<Seq<char>>
    decreases ms.len(),
{
    if ms.len() == 0 {
        Seq::empty()
    } else {
        all_rows(ms.drop_last()) + text_views(ms.last().covered_positive_rows_sha256@)
    }
}

/// No row of mode `i` is covered by an earlier mode.
pub open spec fn rows_fresh(ms: Seq<ProtocolModeV2>, i: int) -> bool {
    forall|k: int| 0 <= k < ms[i].covered_positive_rows_sha256@.len()
        ==> !all_rows(ms.take(i)).contains(#[trigger] ms[i].covered_positive_rows_sha256@[k]@)
}

/// The action class of each mode.
pub open spec fn action_classes(ms: Seq<ProtocolModeV2>) -> Seq<Seq<char>> {
    ms.map_values(|m: ProtocolModeV2| m.action_class_root_sha256@)
}

/// What is wrong with the mode at position `i`, if anything: its program,
/// then its roots, then its place in the set (its effect law and relation,
/// its id as its own digest, its covered rows: present, well-formed,
/// sorted and not covered by an earlier mode).
#[verifier::opaque]
pub open spec fn mode_error(set: ProtocolModeSetV2, i: int) -> Option<BindingProtocolCompilerErrorV2> {
    let m = set.modes@[i];
    if !program_ok(m.program) {
        Some(BindingProtocolCompilerErrorV2::InvalidCandidate)
    } else if !(head_roots_sha256(
        m.mode_id_sha256@, m.effect_law_id_sha256@, m.relation_identity_sha256@,
        m.protocol_facet_root_sha256@, m.effect_invariant_root_sha256@, m.source_role_schema_root_sha256@,
        m.selector_program_root_sha256@, m.observed_emitted_types_root_sha256@,
        m.capability_protocol_root_sha256@, m.argument_role_schema_root_sha256@,
        m.constant_contract_root_sha256@, m.structural_guard_root_sha256@,
        m.temporal_cardinality_contract_root_sha256@, m.action_class_root_sha256@)
        && part_roots_derived(
        m.source_role_schema_root_sha256@, m.selector_program_root_sha256@,
        m.observed_emitted_types_root_sha256@, m.capability_protocol_root_sha256@,
        m.argument_role_schema_root_sha256@, m.constant_contract_root_sha256@,
        m.structural_guard_root_sha256@, m.temporal_cardinality_contract_root_sha256@, m.program)
        && program_links_ok(m.relation_identity_sha256@, m.protocol_facet_root_sha256@,
        m.effect_invariant_root_sha256@, m.program)) {
        Some(BindingProtocolCompilerErrorV2::InvalidDigest)
    } else if !(m.effect_law_id_sha256@ == set.effect_law_id_sha256@
        && m.relation_identity_sha256@ == set.relation_identity_sha256@
        && utf8(m.mode_id_sha256@) == mode_digest(m)
        && m.covered_positive_rows_sha256@.len() > 0
        && all_sha256(m.covered_positive_rows_sha256@)) {
        Some(BindingProtocolCompilerErrorV2::InvalidModeSet)
    } else if !(strictly_increasing_text(texts(m.covered_positive_rows_sha256@)) && rows_fresh(set.modes@, i)) {
        Some(BindingProtocolCompilerErrorV2::InvalidModeSet)
    } else {
        None
    }
}

/// What validating a mode set gives: the checks on the set, then the first
/// mode with an error, then the count of covered rows and of action classes.
pub open spec fn spec_validate_set(set: ProtocolModeSetV2) -> Result<(), BindingProtocolCompilerErrorV2> {
    let n = set.modes@.len() as int;
    if !set_head_ok(set) {
        Err(BindingProtocolCompilerErrorV2::InvalidModeSet)
    } else {
        match first_failure(|i: int| mode_error(set, i), n) {
            Some(e) => Err(e),
            None => if n > 0 && (all_rows(set.modes@).len() != set.positive_rows_covered
                || distinct_count(action_classes(set.modes@)) != set.action_equivalence_classes) {
                Err(BindingProtocolCompilerErrorV2::InvalidModeSet)
            } else {
                Ok(())
            },
        }
    }
}

fn mode_ids_increasing(ms: &[ProtocolModeV2]) -> (r: bool)
    ensures
        r == strictly_increasing_text(mode_id_texts(ms@)),
{
    let mut i: usize = 0;
    while i < ms.len() && i + 1 < ms.len()
        invariant
            i <= ms@.len(),
            forall|k: int| 0 <= k < i && k + 1 < ms@.len() ==> #[trigger] adjacent_lt_text(mode_id_texts(ms@), k),
        decreases ms@.len() - i,
    {
        let lt = bytes_lt(ms[i].mode_id_sha256.as_str().as_bytes(), ms[i + 1].mode_id_sha256.as_str().as_bytes());
        assert(mode_id_texts(ms@)[i as int] == utf8(ms@[i as int].mode_id_sha256@));
        assert(mode_id_texts(ms@)[i + 1] == utf8(ms@[i + 1].mode_id_sha256@));
        if !lt {
            assert(!adjacent_lt_text(mode_id_texts(ms@), i as int));
            return false;
        }
        i = i + 1;
    }
    true
}

fn verdict_exec(set: &ProtocolModeSetV2) -> (r: bool)
    ensures
        r == verdict_ok(*set),
{
    match set.verdict {
        BindingProtocolCompileVerdictV2::Abstain => set.modes.len() == 0,
        BindingProtocolCompileVerdictV2::ProtocolModeSet => {
            set.modes.len() > 0 && !set.search_exhausted && set.action_equivalence_classes == 1
                && set.wrong_actions == 0 && set.verify_failed == 0 && set.negative_accepts == 0
                && set.positive_rows > 0 && set.positive_rows_covered == set.positive_rows
                && set.all_surviving_covers_action_equivalent
        },
    }
}

fn set_head_exec(set: &ProtocolModeSetV2) -> (r: bool)
    ensures
        r == set_head_ok(*set),
{
    reveal(set_head_ok);
    if !str_eq(set.schema.as_str(), PROTOCOL_MODE_SET_SCHEMA_V2)
        || !is_sha256(set.mode_set_sha256.as_str())
        || !is_sha256(set.binding_capability_root_sha256.as_str())
        || !is_sha256(set.effect_law_id_sha256.as_str())
        || !is_sha256(set.relation_identity_sha256.as_str())
        || set.execution_authority
        || !mode_ids_increasing(set.modes.as_slice())
        || set.positive_rows_covered > set.positive_rows
    {
        return false;
    }
    let expected = match protocol_mode_set_digest_v2(set) {
        Ok(d) => d,
        Err(_) => return false,
    };
    proof {
        lemma_utf8_injective(expected@, set.mode_set_sha256@);
    }
    str_eq(expected.as_str(), set.mode_set_sha256.as_str()) && verdict_exec(set)
}

/// Whether the list holds the text.
fn contains_text(v: &Vec<String>, x: &str) -> (r: bool)
    ensures
        r == text_views(v@).contains(x@),
{
    let mut i: usize = 0;
    while i < v.len()
        invariant
            i <= v@.len(),
            forall|k: int| 0 <= k < i ==> #[trigger] text_views(v@)[k] != x@,
        decreases v@.len() - i,
    {
        if str_eq(v[i].as_str(), x) {
            assert(text_views(v@)[i as int] == x@);
            return true;
        }
        i = i + 1;
    }
    false
}

fn rows_fresh_exec(set: &ProtocolModeSetV2, i: usize, seen: &Vec<String>) -> (r: bool)
    requires
        i < set.modes@.len(),
        text_views(seen@) == all_rows(set.modes@.take(i as int)),
    ensures
        r == rows_fresh(set.modes@, i as int),
{
    let rows = &set.modes[i].covered_positive_rows_sha256;
    let mut k: usize = 0;
    while k < rows.len()
        invariant
            i < set.modes@.len(),
            rows@ == set.modes@[i as int].covered_positive_rows_sha256@,
            text_views(seen@) == all_rows(set.modes@.take(i as int)),
            k <= rows@.len(),
            forall|j: int| 0 <= j < k ==> !all_rows(set.modes@.take(i as int)).contains(#[trigger] rows@[j]@),
        decreases rows@.len() - k,
    {
        if contains_text(seen, rows[k].as_str()) {
            return false;
        }
        k = k + 1;
    }
    true
}

fn check_mode(set: &ProtocolModeSetV2, i: usize, seen: &Vec<String>) -> (r: Option<BindingProtocolCompilerErrorV2>)
    requires
        i < set.modes@.len(),
        text_views(seen@) == all_rows(set.modes@.take(i as int)),
    ensures
        r == mode_error(*set, i as int),
{
    reveal(mode_error);
    let m = &set.modes[i];
    if validate_protocol_mode_program_v2(&m.program).is_err() {
        return Some(BindingProtocolCompilerErrorV2::InvalidCandidate);
    }
    let heads = head_roots_sha256_exec(
        m.mode_id_sha256.as_str(), m.effect_law_id_sha256.as_str(), m.relation_identity_sha256.as_str(),
        m.protocol_facet_root_sha256.as_str(), m.effect_invariant_root_sha256.as_str(),
        m.source_role_schema_root_sha256.as_str(), m.selector_program_root_sha256.as_str(),
        m.observed_emitted_types_root_sha256.as_str(), m.capability_protocol_root_sha256.as_str(),
        m.argument_role_schema_root_sha256.as_str(), m.constant_contract_root_sha256.as_str(),
        m.structural_guard_root_sha256.as_str(), m.temporal_cardinality_contract_root_sha256.as_str(),
        m.action_class_root_sha256.as_str());
    if !heads
        || !part_roots_derived_exec(
            m.source_role_schema_root_sha256.as_str(), m.selector_program_root_sha256.as_str(),
            m.observed_emitted_types_root_sha256.as_str(), m.capability_protocol_root_sha256.as_str(),
            m.argument_role_schema_root_sha256.as_str(), m.constant_contract_root_sha256.as_str(),
            m.structural_guard_root_sha256.as_str(), m.temporal_cardinality_contract_root_sha256.as_str(),
            &m.program)
        || !program_links_exec(m.relation_identity_sha256.as_str(), m.protocol_facet_root_sha256.as_str(),
            m.effect_invariant_root_sha256.as_str(), &m.program)
    {
        return Some(BindingProtocolCompilerErrorV2::InvalidDigest);
    }
    let digest = match protocol_mode_digest_v2(m) {
        Ok(d) => d,
        Err(e) => return Some(e),
    };
    proof {
        lemma_utf8_injective(digest@, m.mode_id_sha256@);
    }
    if !str_eq(m.effect_law_id_sha256.as_str(), set.effect_law_id_sha256.as_str())
        || !str_eq(m.relation_identity_sha256.as_str(), set.relation_identity_sha256.as_str())
        || !str_eq(digest.as_str(), m.mode_id_sha256.as_str())
        || m.covered_positive_rows_sha256.len() == 0
        || !all_protocol_mode_sha256(m.covered_positive_rows_sha256.as_slice())
    {
        return Some(BindingProtocolCompilerErrorV2::InvalidModeSet);
    }
    if !strings_increasing(m.covered_positive_rows_sha256.as_slice()) || !rows_fresh_exec(set, i, seen) {
        return Some(BindingProtocolCompilerErrorV2::InvalidModeSet);
    }
    None
}

fn append_rows(seen: &mut Vec<String>, rows: &Vec<String>)
    ensures
        text_views(final(seen)@) == text_views(old(seen)@) + text_views(rows@),
{
    let ghost before = seen@;
    let mut k: usize = 0;
    while k < rows.len()
        invariant
            k <= rows@.len(),
            text_views(seen@) == text_views(before) + text_views(rows@.take(k as int)),
        decreases rows@.len() - k,
    {
        let ghost prev = seen@;
        let row = rows[k].clone();
        seen.push(row);
        assert(text_views(seen@) =~= text_views(prev).push(rows@[k as int]@));
        assert(text_views(rows@.take(k + 1)) =~= text_views(rows@.take(k as int)).push(rows@[k as int]@));
        assert(text_views(seen@) =~= text_views(before) + text_views(rows@.take(k + 1)));
        k = k + 1;
    }
    assert(rows@.take(k as int) =~= rows@);
}

/// Records an action class among the distinct ones seen so far.
fn note_class(classes: &mut Vec<String>, class: &String, Ghost(prev): Ghost<Seq<Seq<char>>>)
    requires
        old(classes)@.len() == distinct_count(prev),
        forall|x: Seq<char>| text_views(old(classes)@).contains(x) <==> prev.contains(x),
    ensures
        final(classes)@.len() == distinct_count(prev.push(class@)),
        forall|x: Seq<char>| text_views(final(classes)@).contains(x) <==> prev.push(class@).contains(x),
{
    let ghost after = prev.push(class@);
    assert(after.drop_last() =~= prev);
    if !contains_text(classes, class.as_str()) {
        let ghost old_classes = classes@;
        classes.push(class.clone());
        proof {
            assert(text_views(classes@) =~= text_views(old_classes).push(class@));
            assert forall|x: Seq<char>| text_views(classes@).contains(x) <==> after.contains(x) by {
                let tv = text_views(classes@);
                let old_tv = text_views(old_classes);
                if x == class@ {
                    assert(tv[old_tv.len() as int] == x);
                    assert(after[prev.len() as int] == x);
                } else {
                    if tv.contains(x) {
                        let j = choose|j: int| 0 <= j < tv.len() && #[trigger] tv[j] == x;
                        assert(old_tv[j] == x);
                    }
                    if old_tv.contains(x) {
                        let j = choose|j: int| 0 <= j < old_tv.len() && #[trigger] old_tv[j] == x;
                        assert(tv[j] == x);
                    }
                    if after.contains(x) {
                        let j = choose|j: int| 0 <= j < after.len() && #[trigger] after[j] == x;
                        assert(prev[j] == x);
                    }
                    if prev.contains(x) {
                        let j = choose|j: int| 0 <= j < prev.len() && #[trigger] prev[j] == x;
                        assert(after[j] == x);
                    }
                }
            }
        }
    } else {
        proof {
            assert forall|x: Seq<char>| text_views(classes@).contains(x) <==> after.contains(x) by {
                if x == class@ {
                    assert(after[prev.len() as int] == x);
                }
                if after.contains(x) && x != class@ {
                    let j = choose|j: int| 0 <= j < after.len() && #[trigger] after[j] == x;
                    assert(prev[j] == x);
                }
                if prev.contains(x) {
                    let j = choose|j: int| 0 <= j < prev.len() && #[trigger] prev[j] == x;
                    assert(after[j] == x);
                }
            }
        }
    }
}

/// Checks a mode set: the set as a whole, each mode in order, then the
/// number of covered rows and of distinct action classes.
pub fn validate_protocol_mode_set_v2(set: &ProtocolModeSetV2) -> (r: Result<(), BindingProtocolCompilerErrorV2>)
    ensures
        r == spec_validate_set(*set),
{
    if !set_head_exec(set) {
        return Err(BindingProtocolCompilerErrorV2::InvalidModeSet);
    }
    let ghost f = |j: int| mode_error(*set, j);
    let n = set.modes.len();
    let mut seen: Vec<String> = Vec::new();
    let mut classes: Vec<String> = Vec::new();
    let mut i: usize = 0;
    while i < n
        invariant
            n == set.modes@.len(),
            i <= n,
            set_head_ok(*set),
            f == (|j: int| mode_error(*set, j)),
            first_failure(f, i as int) is None,
            text_views(seen@) == all_rows(set.modes@.take(i as int)),
            classes@.len() == distinct_count(action_classes(set.modes@).take(i as int)),
            forall|x: Seq<char>| text_views(classes@).contains(x) <==> action_classes(set.modes@).take(i as int).contains(x),
        decreases n - i,
    {
        match check_mode(set, i, &seen) {
            Some(e) => {
                proof {
                    lemma_first_failure_at(f, i as int, n as int);
                }
                return Err(e);
            },
            None => {},
        }
        assert(first_failure(f, i + 1) is None);
        let m = &set.modes[i];
        append_rows(&mut seen, &m.covered_positive_rows_sha256);
        proof {
            let ms = set.modes@.take(i + 1);
            assert(ms.drop_last() =~= set.modes@.take(i as int));
            assert(ms.last() == set.modes@[i as int]);
            let acts = action_classes(set.modes@);
            assert(acts.take(i + 1) =~= acts.take(i as int).push(m.action_class_root_sha256@));
        }
        note_class(&mut classes, &m.action_class_root_sha256, Ghost(action_classes(set.modes@).take(i as int)));
        i = i + 1;
    }
    proof {
        assert(set.modes@.take(n as int) =~= set.modes@);
        assert(action_classes(set.modes@).take(n as int) =~= action_classes(set.modes@));
    }
    if n > 0 && (seen.len() != set.positive_rows_covered || classes.len() != set.action_equivalence_classes) {
        return Err(BindingProtocolCompilerErrorV2::InvalidModeSet);
    }
    Ok(())
}

// ---------------------------------------------------------------- laws

/// A mode built from a valid candidate keeps what the candidate was checked
/// for: a valid program, roots derived from it and linked to it, and an id
/// that is the mode's own digest; with a well-formed id, all its roots are
/// well-formed too.
pub proof fn lemma_mode_of_valid_candidate(
    m: ProtocolModeV2,
    c: BoundedProtocolModeCandidateV2,
    covered: Seq<String>,
)
    requires
        spec_validate_candidate(c) is Ok,
        mode_from_candidate(m, c, covered),
    ensures
        program_ok(m.program),
        part_roots_derived(
            m.source_role_schema_root_sha256@, m.selector_program_root_sha256@,
            m.observed_emitted_types_root_sha256@, m.capability_protocol_root_sha256@,
            m.argument_role_schema_root_sha256@, m.constant_contract_root_sha256@,
            m.structural_guard_root_sha256@, m.temporal_cardinality_contract_root_sha256@, m.program),
        program_links_ok(m.relation_identity_sha256@, m.protocol_facet_root_sha256@,
            m.effect_invariant_root_sha256@, m.program),
        utf8(m.mode_id_sha256@) == mode_digest(m),
        is_sha256_text(utf8(m.mode_id_sha256@)) ==> head_roots_sha256(
            m.mode_id_sha256@, m.effect_law_id_sha256@, m.relation_identity_sha256@,
            m.protocol_facet_root_sha256@, m.effect_invariant_root_sha256@, m.source_role_schema_root_sha256@,
            m.selector_program_root_sha256@, m.observed_emitted_types_root_sha256@,
            m.capability_protocol_root_sha256@, m.argument_role_schema_root_sha256@,
            m.constant_contract_root_sha256@, m.structural_guard_root_sha256@,
            m.temporal_cardinality_contract_root_sha256@, m.action_class_root_sha256@),
{
    lemma_same_program(m.program, c.program);
}

/// A mode's identity does not depend on the id it carries: two modes that
/// differ at most in their ids have the same digest.
pub proof fn lemma_mode_digest_ignores_id(a: ProtocolModeV2, b: ProtocolModeV2)
    requires
        a.effect_law_id_sha256 == b.effect_law_id_sha256,
        a.relation_identity_sha256 == b.relation_identity_sha256,
        a.protocol_facet_root_sha256 == b.protocol_facet_root_sha256,
        a.effect_invariant_root_sha256 == b.effect_invariant_root_sha256,
        a.source_role_schema_root_sha256 == b.source_role_schema_root_sha256,
        a.selector_program_root_sha256 == b.selector_program_root_sha256,
        a.observed_emitted_types_root_sha256 == b.observed_emitted_types_root_sha256,
        a.capability_protocol_root_sha256 == b.capability_protocol_root_sha256,
        a.argument_role_schema_root_sha256 == b.argument_role_schema_root_sha256,
        a.constant_contract_root_sha256 == b.constant_contract_root_sha256,
        a.structural_guard_root_sha256 == b.structural_guard_root_sha256,
        a.temporal_cardinality_contract_root_sha256 == b.temporal_cardinality_contract_root_sha256,
        a.action_class_root_sha256 == b.action_class_root_sha256,
        same_program(a.program, b.program),
        a.covered_positive_rows_sha256@ == b.covered_positive_rows_sha256@,
    ensures
        mode_digest(a) == mode_digest(b),
{
    lemma_same_program(a.program, b.program);
    reveal(program_json);
    assert(mode_digest_items(a) =~= mode_digest_items(b));
}

} // verus!
