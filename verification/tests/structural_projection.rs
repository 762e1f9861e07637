use nando_kernel::binding::{
    BindingCallLineageV1, BindingCapabilityClassV1, BindingCompletionStateV1, BindingRequestRelationV1,
    BindingSourceEventClassV1, BindingValueTypeV1,
};
use nando_kernel::digest::valid_nonzero_sha256;
use nando_kernel::structural_context::{
    CanonicalStructuralRelationV3, CanonicalStructuralRoleV3, CanonicalStructuralSourceBindingV3,
    StructuralCandidateFeaturesV3, StructuralCandidateObservationV3, StructuralContextV3,
    StructuralExtractionErrorV3, StructuralExtractionV3, StructuralRelationKindV3, StructuralSourceRelationV3,
    CANONICAL_RUNTIME_STRUCTURAL_VIEW_SCHEMA_V3,
};
use nando_kernel::structural_projection::{
    canonicalize_relation_components, canonicalize_runtime_structural_projection_v3,
    canonicalize_runtime_structural_view_v3,
};

fn context() -> StructuralContextV3 {
    StructuralContextV3 {
        call_shape_count: 1,
        capability_count: 1,
        completion_state: BindingCompletionStateV1::Completed,
        temporal_relation_count: 0,
        cardinality_relation_count: 0,
        topology_neighborhood_root_sha256: "a".repeat(64),
    }
}

fn features(distance: u16, value_type: BindingValueTypeV1) -> StructuralCandidateFeaturesV3 {
    StructuralCandidateFeaturesV3 {
        source_event_class: BindingSourceEventClassV1::Scalar,
        call_lineage: BindingCallLineageV1::Unlinked,
        capability_class: BindingCapabilityClassV1::Single,
        temporal_distance: distance,
        completion_state: BindingCompletionStateV1::Completed,
        event_candidate_cardinality: 1,
        value_type,
        request_relation: BindingRequestRelationV1::NotMentioned,
        topology_neighborhood_root_sha256: "b".repeat(64),
    }
}

fn role(id: u16, distance: u16) -> CanonicalStructuralRoleV3 {
    CanonicalStructuralRoleV3 { role_id: id, features: features(distance, BindingValueTypeV1::Integer), occurrence_count: 1 }
}

fn relation(left: u16, right: u16, kind: StructuralRelationKindV3) -> CanonicalStructuralRelationV3 {
    CanonicalStructuralRelationV3 { left_role_id: left, right_role_id: right, relation: kind }
}

#[test]
fn components_become_stars_around_their_least_role() {
    let roles = vec![role(0, 5), role(1, 3), role(2, 5), role(3, 9)];
    let relations = vec![
        relation(1, 2, StructuralRelationKindV3::SameValue),
        relation(0, 1, StructuralRelationKindV3::SameValue),
        relation(2, 3, StructuralRelationKindV3::SameCallLineage),
    ];
    assert_eq!(
        canonicalize_relation_components(relations, &roles),
        vec![
            relation(0, 1, StructuralRelationKindV3::SameValue),
            relation(0, 2, StructuralRelationKindV3::SameValue),
            relation(2, 3, StructuralRelationKindV3::SameCallLineage),
        ]
    );
}

#[test]
fn temporal_adjacency_links_least_roles_of_neighbouring_distances() {
    let roles = vec![role(0, 5), role(1, 3), role(2, 5), role(3, 9)];
    let relations = vec![
        relation(0, 1, StructuralRelationKindV3::SameValue),
        relation(2, 3, StructuralRelationKindV3::AdjacentTemporalDistance),
    ];
    assert_eq!(
        canonicalize_relation_components(relations, &roles),
        vec![
            relation(0, 1, StructuralRelationKindV3::SameValue),
            relation(0, 1, StructuralRelationKindV3::AdjacentTemporalDistance),
            relation(0, 3, StructuralRelationKindV3::AdjacentTemporalDistance),
        ]
    );
}

#[test]
fn relation_order_and_repetition_do_not_matter() {
    let roles = vec![role(0, 1), role(1, 1), role(2, 1)];
    let forward = vec![
        relation(0, 1, StructuralRelationKindV3::SameTopologyNeighborhood),
        relation(1, 2, StructuralRelationKindV3::SameTopologyNeighborhood),
    ];
    let backward = vec![
        relation(1, 2, StructuralRelationKindV3::SameTopologyNeighborhood),
        relation(1, 2, StructuralRelationKindV3::SameTopologyNeighborhood),
        relation(0, 1, StructuralRelationKindV3::SameTopologyNeighborhood),
    ];
    assert_eq!(
        canonicalize_relation_components(forward, &roles),
        canonicalize_relation_components(backward, &roles)
    );
    assert_eq!(canonicalize_relation_components(Vec::new(), &roles), Vec::new());
}

fn candidate(source: u16, value: char, distance: u16) -> StructuralCandidateObservationV3 {
    StructuralCandidateObservationV3 {
        source_role_id: source,
        value_sha256: value.to_string().repeat(64),
        normalized_values: vec![format!("v{source}")],
        features: features(distance, BindingValueTypeV1::Integer),
        occurrence_count: 1,
    }
}

fn extraction(candidates: Vec<StructuralCandidateObservationV3>, relations: Vec<StructuralSourceRelationV3>) -> StructuralExtractionV3 {
    StructuralExtractionV3 {
        candidates,
        relations,
        json_nodes_visited: 3,
        text_bytes_visited: 0,
        candidates_before_budget: 2,
        candidate_budget_exhausted: false,
        relation_budget_exhausted: false,
    }
}

fn source_relation(left: u16, right: u16, kind: StructuralRelationKindV3) -> StructuralSourceRelationV3 {
    StructuralSourceRelationV3 { left_source_role_id: left, right_source_role_id: right, relation: kind }
}

#[test]
fn projection_orders_roles_by_features_and_maps_sources() {
    let input = extraction(
        vec![candidate(7, 'c', 4), candidate(3, 'd', 2)],
        vec![source_relation(3, 7, StructuralRelationKindV3::SameCallLineage)],
    );
    let (view, bindings) = canonicalize_runtime_structural_projection_v3(context(), &input).expect("projection");
    assert_eq!(view.schema, CANONICAL_RUNTIME_STRUCTURAL_VIEW_SCHEMA_V3);
    assert_eq!(view.context, context());
    assert_eq!(view.roles.len(), 2);
    assert_eq!(view.roles[0].features.temporal_distance, 2);
    assert_eq!(view.roles[1].role_id, 1);
    assert_eq!(
        bindings,
        vec![
            CanonicalStructuralSourceBindingV3 { source_role_id: 3, canonical_role_id: 0 },
            CanonicalStructuralSourceBindingV3 { source_role_id: 7, canonical_role_id: 1 },
        ]
    );
    assert_eq!(view.relations, vec![relation(0, 1, StructuralRelationKindV3::SameCallLineage)]);
    assert!(valid_nonzero_sha256(&view.structural_view_sha256));
    let only_view = canonicalize_runtime_structural_view_v3(context(), &input).expect("view");
    assert_eq!(only_view, view);
}

#[test]
fn projection_ignores_candidate_order_and_source_ids() {
    let first = extraction(
        vec![candidate(7, 'c', 4), candidate(3, 'd', 2)],
        vec![source_relation(3, 7, StructuralRelationKindV3::SameValue)],
    );
    let second = extraction(
        vec![candidate(1, 'd', 2), candidate(9, 'c', 4)],
        vec![source_relation(9, 1, StructuralRelationKindV3::SameValue)],
    );
    let a = canonicalize_runtime_structural_view_v3(context(), &first).expect("view");
    let b = canonicalize_runtime_structural_view_v3(context(), &second).expect("view");
    assert_eq!(a, b);
}

#[test]
fn projection_fails_closed() {
    let good = || extraction(vec![candidate(7, 'c', 4), candidate(3, 'd', 2)], Vec::new());
    let mut bad_context = context();
    bad_context.topology_neighborhood_root_sha256 = "z".repeat(64);
    assert_eq!(
        canonicalize_runtime_structural_projection_v3(bad_context, &good()),
        Err(StructuralExtractionErrorV3::InvalidContext)
    );
    let mut exhausted = good();
    exhausted.relation_budget_exhausted = true;
    assert_eq!(
        canonicalize_runtime_structural_projection_v3(context(), &exhausted),
        Err(StructuralExtractionErrorV3::BudgetExhausted)
    );
    let duplicate = extraction(vec![candidate(7, 'c', 4), candidate(7, 'd', 2)], Vec::new());
    assert_eq!(
        canonicalize_runtime_structural_projection_v3(context(), &duplicate),
        Err(StructuralExtractionErrorV3::InvalidSource)
    );
    let dangling = extraction(
        vec![candidate(7, 'c', 4), candidate(3, 'd', 2)],
        vec![source_relation(3, 8, StructuralRelationKindV3::SameValue)],
    );
    assert_eq!(
        canonicalize_runtime_structural_projection_v3(context(), &dangling),
        Err(StructuralExtractionErrorV3::InvalidSource)
    );
}
