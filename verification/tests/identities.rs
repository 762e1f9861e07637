use nando_kernel::canonical_operator_ir::{
    accept_decoded_operator_ir_v1,
    CanonicalOperatorCompositionEdgeV1, CanonicalOperatorIrErrorV1, CanonicalOperatorIrV1,
    CanonicalOperatorRelationV1, CanonicalOperatorRoleV1, CanonicalOperatorTransformV1,
};
use nando_kernel::contracts::ResponseValueSelector;
use nando_kernel::json::canonical_json_sha256;
use nando_kernel::operator_generation::{
    seal_operator_generation_manifest_v3, OperatorGenerationComponentRootsV3,
    OperatorGenerationErrorV3,
};
use nando_kernel::program::{CollectionOutputRenderer, ResponseProgram, ValueProjectionFormat};
use nando_kernel::program_semantic_class::{
    seal_program_semantic_class_v1, ProgramSemanticClassErrorV1, ProgramSemanticClassInputV1,
};
use nando_kernel::sha256_commitment::{Sha256CommitmentErrorV3, Sha256CommitmentV3};
use std::collections::BTreeSet;

fn valid_ir() -> CanonicalOperatorIrV1 {
    CanonicalOperatorIrV1::new(
        vec![
            CanonicalOperatorRoleV1 {
                type_class: 5,
                cardinality_class: 1,
                temporal_position: 0,
                constraint_mask: 1,
                neighboring_relation_planes: vec![0],
            },
            CanonicalOperatorRoleV1 {
                type_class: 1,
                cardinality_class: 1,
                temporal_position: 1,
                constraint_mask: 2,
                neighboring_relation_planes: vec![0],
            },
            CanonicalOperatorRoleV1 {
                type_class: 1,
                cardinality_class: 1,
                temporal_position: 2,
                constraint_mask: 4,
                neighboring_relation_planes: vec![],
            },
        ],
        vec![CanonicalOperatorRelationV1 {
            plane: 0,
            source_role: 0,
            target_role: 1,
            state: 1,
            phase_re_bits: 1.0_f64.to_bits(),
            phase_im_bits: 0.0_f64.to_bits(),
        }],
        vec![CanonicalOperatorTransformV1 {
            opcode: 1,
            output: 2,
            source_a: 1,
            source_b: u8::MAX,
            parameter: 0,
            flags: 0,
        }],
        vec![],
        CollectionOutputRenderer::Direct,
        ResponseProgram::project_selected_value(
            ResponseValueSelector::RequestLastToken,
            ValueProjectionFormat::PlainText,
            "completed",
        ),
        "11".repeat(32),
    )
    .expect("valid IR")
}

#[test]
fn executable_identity_ignores_only_routing_phase() {
    let left = valid_ir();
    let mut different_phase = valid_ir();
    different_phase.relations[0].phase_re_bits = 0.5_f64.to_bits();
    assert_eq!(
        left.executable_sha256(),
        different_phase.executable_sha256()
    );
    assert_ne!(left.artifact_sha256(), different_phase.artifact_sha256());
}

#[test]
fn canonical_ir_rejects_nonfinite_phase_and_bad_verifier() {
    let mut bad_phase = valid_ir();
    bad_phase.relations[0].phase_re_bits = f64::NAN.to_bits();
    assert_eq!(
        bad_phase.validate(),
        Err(CanonicalOperatorIrErrorV1::InvalidPhase)
    );

    let mut bad_verifier = valid_ir();
    bad_verifier.verifier_contract_sha256 = "00".repeat(32);
    assert_eq!(
        bad_verifier.validate(),
        Err(CanonicalOperatorIrErrorV1::InvalidVerifierContract)
    );
}

#[test]
fn canonical_ir_is_order_independent_and_authority_free() {
    let left = valid_ir();
    let mut right = valid_ir();
    right.roles[0].neighboring_relation_planes = vec![0, 0];
    let right = CanonicalOperatorIrV1::new(
        right.roles.clone(),
        right.relations.clone(),
        right.transforms.clone(),
        right.composition_edges.clone(),
        right.renderer.clone(),
        right.actor_template.clone(),
        right.verifier_contract_sha256.clone(),
    )
    .expect("canonical");
    assert_eq!(left.canonical_bytes(), right.canonical_bytes());
    let bytes = left.canonical_bytes().expect("canonical bytes");
    let text = std::str::from_utf8(&bytes).expect("JSON");
    for forbidden in ["authority", "support", "future", "generation", "teacher"] {
        assert!(!text.contains(forbidden), "{forbidden} leaked into IR");
    }
}

#[test]
fn canonical_ir_sorts_relations_edges_and_planes() {
    let base = valid_ir();
    let relation = |plane: u8, source_role: u8, target_role: u8| CanonicalOperatorRelationV1 {
        plane,
        source_role,
        target_role,
        state: -1,
        phase_re_bits: 0,
        phase_im_bits: 0,
    };
    let mut roles = base.roles.clone();
    roles[0].neighboring_relation_planes = vec![3, 1, 3, 2];
    let ir = CanonicalOperatorIrV1::new(
        roles,
        vec![relation(1, 1, 0), relation(0, 0, 2), relation(0, 0, 1)],
        vec![
            base.transforms[0],
            CanonicalOperatorTransformV1 { opcode: 2, output: 0, source_a: 1, source_b: 2, parameter: 0, flags: 0 },
        ],
        vec![
            CanonicalOperatorCompositionEdgeV1 { producer_step: 1, consumer_step: 0 },
            CanonicalOperatorCompositionEdgeV1 { producer_step: 0, consumer_step: 1 },
        ],
        CollectionOutputRenderer::Direct,
        base.actor_template.clone(),
        base.verifier_contract_sha256.clone(),
    )
    .expect("valid");
    assert_eq!(ir.roles()[0].neighboring_relation_planes, vec![1, 2, 3]);
    assert_eq!(ir.relations(), &[relation(0, 0, 1), relation(0, 0, 2), relation(1, 1, 0)][..]);
    assert_eq!(ir.composition_edges()[0].producer_step, 0);
    assert_eq!(ir.composition_edges()[1].producer_step, 1);
}

#[test]
fn canonical_ir_reports_each_bound() {
    let base = valid_ir();
    let mut no_roles = base.clone();
    no_roles.roles.clear();
    assert_eq!(no_roles.validate(), Err(CanonicalOperatorIrErrorV1::InvalidRoleCount));
    let mut schema = base.clone();
    schema.schema = "other".to_owned();
    assert_eq!(schema.validate(), Err(CanonicalOperatorIrErrorV1::InvalidSchema));
    let mut planes = base.clone();
    planes.roles[0].neighboring_relation_planes = vec![2, 1];
    assert_eq!(planes.validate(), Err(CanonicalOperatorIrErrorV1::InvalidRolePlanes));
    let mut relation = base.clone();
    relation.relations[0].state = 0;
    assert_eq!(relation.validate(), Err(CanonicalOperatorIrErrorV1::InvalidRelation));
    let mut transform = base.clone();
    transform.transforms[0].output = 1;
    assert_eq!(transform.validate(), Err(CanonicalOperatorIrErrorV1::InvalidTransform));
    let mut edge = base.clone();
    edge.composition_edges = vec![CanonicalOperatorCompositionEdgeV1 { producer_step: 0, consumer_step: 0 }];
    assert_eq!(edge.validate(), Err(CanonicalOperatorIrErrorV1::InvalidComposition));
    let mut actor = base.clone();
    actor.actor_template.max_output_bytes = 0;
    assert_eq!(actor.validate(), Err(CanonicalOperatorIrErrorV1::InvalidActor));
    assert_eq!(base.executable_bytes().map(|b| b.is_empty()), Ok(false));
}

fn root(label: &str) -> String {
    canonical_json_sha256(&label)
}

fn components() -> OperatorGenerationComponentRootsV3 {
    OperatorGenerationComponentRootsV3 {
        artifact_set_sha256: root("artifact-set"),
        dispatch_index_sha256: root("dispatch-index"),
        actor_program_sha256: root("actor"),
        renderer_program_sha256: root("renderer"),
        verifier_contract_sha256: root("verifier"),
        capability_contract_sha256: root("capability"),
        resource_budget_sha256: root("budget"),
    }
}

#[test]
fn every_component_change_creates_a_new_generation() {
    let base = components();
    let base_id = seal_operator_generation_manifest_v3(1, None, base.clone())
        .expect("base")
        .generation_id_sha256()
        .to_owned();
    let mut ids = BTreeSet::new();
    for index in 0..7 {
        let mut changed = base.clone();
        let replacement = root(&format!("changed-{index}"));
        match index {
            0 => changed.artifact_set_sha256 = replacement,
            1 => changed.dispatch_index_sha256 = replacement,
            2 => changed.actor_program_sha256 = replacement,
            3 => changed.renderer_program_sha256 = replacement,
            4 => changed.verifier_contract_sha256 = replacement,
            5 => changed.capability_contract_sha256 = replacement,
            _ => changed.resource_budget_sha256 = replacement,
        }
        let id = seal_operator_generation_manifest_v3(1, None, changed)
            .expect("changed")
            .generation_id_sha256()
            .to_owned();
        assert_ne!(id, base_id);
        ids.insert(id);
    }
    assert_eq!(ids.len(), 7);
}

#[test]
fn lineage_and_manifest_tampering_fail_closed() {
    assert_eq!(
        seal_operator_generation_manifest_v3(2, None, components()),
        Err(OperatorGenerationErrorV3::InvalidParent)
    );
    assert_eq!(
        seal_operator_generation_manifest_v3(0, None, components()),
        Err(OperatorGenerationErrorV3::InvalidSequence)
    );
    let first = seal_operator_generation_manifest_v3(1, None, components()).expect("first");
    let second = seal_operator_generation_manifest_v3(
        2,
        Some(first.generation_id_sha256().to_owned()),
        components(),
    )
    .expect("second");
    assert_ne!(first.generation_id_sha256(), second.generation_id_sha256());
    assert!(!second.execution_authority());
    let mut broken = components();
    broken.actor_program_sha256 = "0".repeat(64);
    assert_eq!(
        seal_operator_generation_manifest_v3(1, None, broken),
        Err(OperatorGenerationErrorV3::InvalidComponent)
    );
    let bytes = first.canonical_bytes().expect("bytes");
    let text = String::from_utf8(bytes).expect("utf8");
    assert!(text.starts_with("{\"components\":{\"actor_program_sha256\":"));
    assert!(text.ends_with(",\"sequence\":1}"));
}

fn input(label: &str) -> ProgramSemanticClassInputV1 {
    ProgramSemanticClassInputV1 {
        effect_law_id_sha256: root(&format!("{label}:effect")),
        role_schema_root_sha256: root(&format!("{label}:roles")),
        protocol_mode_set_root_sha256: root(&format!("{label}:modes")),
        executable_behavior_root_sha256: root(&format!("{label}:behavior")),
        verifier_contract_root_sha256: root(&format!("{label}:verifier")),
    }
}

#[test]
fn protocol_mode_set_is_part_of_executable_semantic_identity() {
    let left = seal_program_semantic_class_v1(input("wait")).expect("left");
    let mut changed = input("wait");
    changed.protocol_mode_set_root_sha256 = root("broader-mode-set");
    let right = seal_program_semantic_class_v1(changed).expect("right");
    assert_ne!(left.class_id(), right.class_id());
}

#[test]
fn descriptor_rejects_invalid_roots_and_tamper() {
    let mut bad = input("wait");
    bad.role_schema_root_sha256 = "A".repeat(64);
    assert_eq!(
        seal_program_semantic_class_v1(bad),
        Err(ProgramSemanticClassErrorV1::InvalidRoot)
    );
    let descriptor = seal_program_semantic_class_v1(input("wait")).expect("descriptor");
    assert_eq!(descriptor.validate(), Ok(()));
    assert!(descriptor.canonical_bytes().is_ok());
    let mut tampered = descriptor.clone();
    tampered.verifier_contract_root_sha256 = root("other");
    assert_eq!(tampered.validate(), Err(ProgramSemanticClassErrorV1::InvalidDescriptor));
}

#[test]
fn invalid_or_zero_commitments_are_rejected() {
    assert_eq!(
        Sha256CommitmentV3::from_hex(&"0".repeat(64)),
        Err(Sha256CommitmentErrorV3::Zero)
    );
    assert_eq!(
        Sha256CommitmentV3::from_hex(&"A".repeat(64)),
        Err(Sha256CommitmentErrorV3::InvalidHex)
    );
}

#[test]
fn commitment_roundtrips_through_hex() {
    let commitment = Sha256CommitmentV3::digest_bytes(b"provider request");
    assert_eq!(
        Sha256CommitmentV3::from_hex(&commitment.to_hex()),
        Ok(commitment)
    );
    assert_eq!(commitment.to_hex().len(), 64);
    assert_eq!(Sha256CommitmentV3::new(*commitment.as_bytes()), Ok(commitment));
    assert_eq!(Sha256CommitmentV3::from_hex("ab"), Err(Sha256CommitmentErrorV3::InvalidLength));
    assert_eq!(Sha256CommitmentV3::new([0u8; 32]), Err(Sha256CommitmentErrorV3::Zero));
    assert!(Sha256CommitmentV3::from_hex(&format!("{}1", "0".repeat(63))).is_ok());
    let parts = Sha256CommitmentV3::digest_parts(b"domain", &[b"a", b"bc"]);
    let mut framed = Vec::new();
    framed.extend_from_slice(&6u64.to_be_bytes());
    framed.extend_from_slice(b"domain");
    framed.extend_from_slice(&1u64.to_be_bytes());
    framed.extend_from_slice(b"a");
    framed.extend_from_slice(&2u64.to_be_bytes());
    framed.extend_from_slice(b"bc");
    assert_eq!(parts, Sha256CommitmentV3::digest_bytes(&framed));
    assert_ne!(parts, Sha256CommitmentV3::digest_bytes(b"domainabc"));
}

#[test]
fn digest_of_known_message_matches_sha256() {
    let empty = Sha256CommitmentV3::digest_bytes(b"");
    assert_eq!(
        empty.to_hex(),
        "e3b0c44298fc1c149afbf4c8996fb92427ae41e4649b934ca495991b7852b855"
    );
    assert_eq!(
        canonical_json_sha256(&"abc"),
        Sha256CommitmentV3::digest_bytes(b"\"abc\"").to_hex()
    );
}

#[test]
fn decoded_ir_must_validate_and_be_canonical() {
    let ir = valid_ir();
    let bytes = ir.canonical_bytes().expect("bytes");
    assert_eq!(accept_decoded_operator_ir_v1(ir.clone(), &bytes), Ok(ir.clone()));
    let mut spaced = bytes.clone();
    spaced.push(b' ');
    assert_eq!(accept_decoded_operator_ir_v1(ir.clone(), &spaced), Err(CanonicalOperatorIrErrorV1::NonCanonicalEncoding));
    let mut bad = ir;
    bad.verifier_contract_sha256 = "00".repeat(32);
    assert_eq!(accept_decoded_operator_ir_v1(bad, &bytes), Err(CanonicalOperatorIrErrorV1::InvalidVerifierContract));
}
