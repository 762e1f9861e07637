use nando_kernel::binding::{
    BindingCallLineageV1, BindingCapabilityClassV1, BindingCompletionStateV1, BindingRequestRelationV1,
    BindingSourceEventClassV1, BindingValueTypeV1,
};
use nando_kernel::structural_context::{
    StructuralCandidateFeaturesV3, StructuralContextV3, StructuralExtractionBudgetV3,
    StructuralExtractionErrorV3, StructuralExtractionScopeV3, StructuralExtractionV3,
    StructuralRelationKindV3, StructuralSourceRelationV3,
};
use nando_kernel::structural_walk::{
    extract_structural_surface_v3, parse_json_text, tokenize_candidate_text, JsonMember, JsonNumber, JsonText,
    JsonValue,
};

const ROOT_SCALAR: &str = "9d2d0970440c40f1cb88c81556666e85f8b67a1ab69d3fb418ea354558d53fde";
const SEVEN: &str = "7902699be42c8a8e46fbbb4501726517e86b22c56a189f7625a6da49081b2451";
const EIGHT: &str = "2c624232cdd221771294dfbb310aca000a0df6ac8b66b696d90ef06fdefb64a3";
const SEVENTY_SEVEN: &str = "a88a7902cb4ef697ba0b6759c50e8c10297ff58f942243de19b984841bfe1f73";

fn context() -> StructuralContextV3 {
    StructuralContextV3 {
        call_shape_count: 0,
        capability_count: 0,
        completion_state: BindingCompletionStateV1::Completed,
        temporal_relation_count: 0,
        cardinality_relation_count: 0,
        topology_neighborhood_root_sha256: "a".repeat(64),
    }
}

fn budget() -> StructuralExtractionBudgetV3 {
    StructuralExtractionBudgetV3 {
        max_json_nodes: 100,
        max_text_bytes: 1000,
        max_recent_events: 8,
        max_role_candidates: 16,
        max_relations: 64,
    }
}

fn integer(text: &str) -> JsonValue {
    JsonValue::Number(JsonNumber { text: text.to_owned(), integer: true })
}

fn object(members: Vec<(&str, JsonValue)>) -> JsonValue {
    JsonValue::Object(
        members
            .into_iter()
            .map(|(key, value)| JsonMember { key: key.to_owned(), value })
            .collect(),
    )
}

fn root_features(cardinality: u16, request_relation: BindingRequestRelationV1) -> StructuralCandidateFeaturesV3 {
    StructuralCandidateFeaturesV3 {
        source_event_class: BindingSourceEventClassV1::Unknown,
        call_lineage: BindingCallLineageV1::Unknown,
        capability_class: BindingCapabilityClassV1::Absent,
        temporal_distance: u16::MAX,
        completion_state: BindingCompletionStateV1::Completed,
        event_candidate_cardinality: cardinality,
        value_type: BindingValueTypeV1::Integer,
        request_relation,
        topology_neighborhood_root_sha256: ROOT_SCALAR.to_owned(),
    }
}

fn extract(
    request: &str,
    payload: &JsonValue,
    budget: StructuralExtractionBudgetV3,
    scope: StructuralExtractionScopeV3,
) -> StructuralExtractionV3 {
    match extract_structural_surface_v3(request, payload, context(), budget, scope) {
        Ok(extraction) => extraction,
        Err(error) => panic!("extraction failed: {error:?}"),
    }
}

#[test]
fn tokens_keep_integers_and_opaque_identifiers_sorted() {
    assert_eq!(
        tokenize_candidate_text("abc 12 x1"),
        vec![("12".to_owned(), BindingValueTypeV1::Integer)]
    );
    assert_eq!(
        tokenize_candidate_text("id=Ab12cd and 007"),
        vec![
            ("007".to_owned(), BindingValueTypeV1::Integer),
            ("Ab12cd".to_owned(), BindingValueTypeV1::String),
            ("Ab12cd".to_owned(), BindingValueTypeV1::Identifier),
        ]
    );
}

#[test]
fn tokens_are_trimmed_of_edge_punctuation() {
    assert_eq!(
        tokenize_candidate_text("/path/Abc1:"),
        vec![
            ("path/Abc1".to_owned(), BindingValueTypeV1::String),
            ("path/Abc1".to_owned(), BindingValueTypeV1::Identifier),
        ]
    );
}

#[test]
fn long_separated_words_count_only_in_structured_text() {
    assert_eq!(
        tokenize_candidate_text("x request_id_value"),
        vec![
            ("request_id_value".to_owned(), BindingValueTypeV1::String),
            ("request_id_value".to_owned(), BindingValueTypeV1::Identifier),
        ]
    );
    assert_eq!(tokenize_candidate_text("request_id_value"), Vec::new());
}

#[test]
fn integers_that_overflow_are_dropped() {
    assert_eq!(tokenize_candidate_text("99999999999999999999999 a"), Vec::new());
    assert_eq!(tokenize_candidate_text(""), Vec::new());
}

#[test]
fn invalid_budget_and_context_are_rejected_first() {
    let payload = object(vec![("a", integer("7"))]);
    let mut zero = budget();
    zero.max_json_nodes = 0;
    assert_eq!(
        extract_structural_surface_v3("", &payload, context(), zero, StructuralExtractionScopeV3::FrozenEvidence),
        Err(StructuralExtractionErrorV3::InvalidBudget)
    );
    let mut too_many = budget();
    too_many.max_relations = 65537;
    assert_eq!(
        extract_structural_surface_v3("", &payload, context(), too_many, StructuralExtractionScopeV3::FrozenEvidence),
        Err(StructuralExtractionErrorV3::InvalidBudget)
    );
    let mut bad = context();
    bad.topology_neighborhood_root_sha256 = "xyz".to_owned();
    assert_eq!(
        extract_structural_surface_v3("", &payload, bad, budget(), StructuralExtractionScopeV3::FrozenEvidence),
        Err(StructuralExtractionErrorV3::InvalidContext)
    );
}

#[test]
fn equal_root_values_group_into_one_candidate() {
    let payload = object(vec![("a", integer("7")), ("b", integer("7"))]);
    let extraction = extract("", &payload, budget(), StructuralExtractionScopeV3::FrozenEvidence);
    assert_eq!(extraction.json_nodes_visited, 3);
    assert_eq!(extraction.text_bytes_visited, 0);
    assert_eq!(extraction.candidates_before_budget, 2);
    assert!(!extraction.candidate_budget_exhausted);
    assert!(!extraction.relation_budget_exhausted);
    assert_eq!(extraction.candidates.len(), 1);
    let candidate = &extraction.candidates[0];
    assert_eq!(candidate.source_role_id, 0);
    assert_eq!(candidate.value_sha256, SEVEN);
    assert_eq!(candidate.normalized_values, vec!["7".to_owned()]);
    assert_eq!(candidate.occurrence_count, 2);
    assert_eq!(candidate.features, root_features(1, BindingRequestRelationV1::RequestAbsent));
    assert!(extraction.relations.is_empty());
}

#[test]
fn distinct_root_values_relate_by_lineage_and_topology() {
    let payload = object(vec![("a", integer("7")), ("b", integer("8"))]);
    let extraction = extract("", &payload, budget(), StructuralExtractionScopeV3::FrozenEvidence);
    assert_eq!(extraction.candidates.len(), 2);
    assert_eq!(extraction.candidates[0].value_sha256, EIGHT);
    assert_eq!(extraction.candidates[1].value_sha256, SEVEN);
    assert_eq!(extraction.candidates[1].source_role_id, 1);
    assert_eq!(extraction.candidates[0].features, root_features(2, BindingRequestRelationV1::RequestAbsent));
    assert_eq!(
        extraction.relations,
        vec![
            StructuralSourceRelationV3 {
                left_source_role_id: 0,
                right_source_role_id: 1,
                relation: StructuralRelationKindV3::SameCallLineage,
            },
            StructuralSourceRelationV3 {
                left_source_role_id: 0,
                right_source_role_id: 1,
                relation: StructuralRelationKindV3::SameTopologyNeighborhood,
            },
        ]
    );
}

#[test]
fn request_tokens_mark_mentioned_values() {
    let payload = object(vec![("n", integer("77"))]);
    let mentioned = extract("value 77", &payload, budget(), StructuralExtractionScopeV3::FrozenEvidence);
    assert_eq!(mentioned.candidates[0].value_sha256, SEVENTY_SEVEN);
    assert_eq!(mentioned.candidates[0].features.request_relation, BindingRequestRelationV1::Mentioned);
    let other = extract("value 78", &payload, budget(), StructuralExtractionScopeV3::FrozenEvidence);
    assert_eq!(other.candidates[0].features.request_relation, BindingRequestRelationV1::NotMentioned);
    let blank = extract("  \n", &payload, budget(), StructuralExtractionScopeV3::FrozenEvidence);
    assert_eq!(blank.candidates[0].features.request_relation, BindingRequestRelationV1::RequestAbsent);
}

#[test]
fn node_budget_stops_the_walk() {
    let payload = object(vec![("a", integer("7")), ("b", integer("8"))]);
    let mut small = budget();
    small.max_json_nodes = 1;
    let extraction = extract("", &payload, small, StructuralExtractionScopeV3::FrozenEvidence);
    assert_eq!(extraction.json_nodes_visited, 1);
    assert_eq!(extraction.candidates_before_budget, 0);
    assert!(extraction.candidate_budget_exhausted);
    assert!(extraction.candidates.is_empty());
    assert!(extraction.relations.is_empty());
}

#[test]
fn candidate_and_relation_budgets_truncate() {
    let payload = object(vec![("a", integer("7")), ("b", integer("8"))]);
    let mut one_candidate = budget();
    one_candidate.max_role_candidates = 1;
    let extraction = extract("", &payload, one_candidate, StructuralExtractionScopeV3::FrozenEvidence);
    assert!(extraction.candidate_budget_exhausted);
    assert_eq!(extraction.candidates.len(), 1);
    assert_eq!(extraction.candidates[0].value_sha256, EIGHT);
    assert!(extraction.relations.is_empty());

    let mut one_relation = budget();
    one_relation.max_relations = 1;
    let extraction = extract("", &payload, one_relation, StructuralExtractionScopeV3::FrozenEvidence);
    assert!(!extraction.candidate_budget_exhausted);
    assert!(extraction.relation_budget_exhausted);
    assert_eq!(
        extraction.relations,
        vec![StructuralSourceRelationV3 {
            left_source_role_id: 0,
            right_source_role_id: 1,
            relation: StructuralRelationKindV3::SameCallLineage,
        }]
    );
}

#[test]
fn pre_action_scope_skips_action_fields_at_the_root() {
    let payload = object(vec![("action", integer("7")), ("b", integer("8"))]);
    let extraction = extract("", &payload, budget(), StructuralExtractionScopeV3::PreActionRuntime);
    assert_eq!(extraction.json_nodes_visited, 2);
    assert_eq!(extraction.candidates.len(), 1);
    assert_eq!(extraction.candidates[0].value_sha256, EIGHT);
    let frozen = extract("", &payload, budget(), StructuralExtractionScopeV3::FrozenEvidence);
    assert_eq!(frozen.candidates.len(), 2);
}

#[test]
fn json_text_parses_into_the_kernel_model() {
    assert_eq!(
        parse_json_text("{\"b\": [1, \"x\"], \"a\": null}"),
        Some(JsonValue::Object(vec![
            JsonMember { key: "a".to_owned(), value: JsonValue::Null },
            JsonMember {
                key: "b".to_owned(),
                value: JsonValue::Array(vec![
                    JsonValue::Number(JsonNumber { text: "1".to_owned(), integer: true }),
                    JsonValue::String(JsonText { text: "x".to_owned() }),
                ]),
            },
        ]))
    );
    assert_eq!(parse_json_text("not json"), None);
    assert_eq!(parse_json_text(""), None);
}
