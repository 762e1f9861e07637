use nando_kernel::binding::{BindingCompletionStateV1, BindingPredicateV1, BindingValueTypeV1};
use nando_kernel::digest::valid_nonzero_sha256;
use nando_kernel::executable_protocol_mode::{
    build_executable_protocol_mode_artifact_v3, build_executable_protocol_mode_v3,
    build_protocol_facet_payload_v3, expected_protocol_arguments_v3,
    accept_decoded_executable_protocol_mode_artifact_v3, validate_executable_effect_law_payload_v3, validate_executable_protocol_mode_artifact_v3,
    validate_executable_protocol_mode_source_v3, validate_protocol_facet_payload_v3,
    ExecutableProtocolModeErrorV3, ProtocolCapabilityArgumentV3, ProtocolCapabilityKindV3,
};
use nando_kernel::json::canonical_json_sha256;
use nando_kernel::protocol_mode::{
    derived_mode_root_v2, protocol_mode_from_candidate_v2, protocol_mode_set_digest_v2,
    BindingProtocolCompileVerdictV2, BoundedProtocolModeCandidateV2, ProtocolArgumentRoleSchemaV2,
    ProtocolArgumentRoleV2, ProtocolCapabilityContractV2, ProtocolConstantContractV2, ProtocolModeProgramV2,
    ProtocolModeSetV2, ProtocolModeV2, ProtocolRoleCardinalityV2, ProtocolSelectorProgramV2,
    ProtocolSourceRoleSchemaV2, ProtocolSourceRoleV2, ProtocolStructuralGuardV2,
    ProtocolTemporalCardinalityContractV2, ProtocolValueContractV2, PROTOCOL_MODE_SET_SCHEMA_V2,
};
use nando_kernel::structural_walk::{JsonMember, JsonNumber, JsonText, JsonValue};
use sha2::{Digest, Sha256};

fn root(label: &str) -> String {
    canonical_json_sha256(&label)
}

fn mode() -> ProtocolModeV2 {
    let selector_program = ProtocolSelectorProgramV2 {
        predicates: vec![BindingPredicateV1::ValueType {
            value: BindingValueTypeV1::Integer,
        }],
        max_action_classes: 1,
    };
    let selector_root = derived_mode_root_v2("selector-program", &selector_program).expect("selector root");
    ProtocolModeV2 {
        mode_id_sha256: root("mode"),
        effect_law_id_sha256: root("effect-law"),
        relation_identity_sha256: root("relation"),
        protocol_facet_root_sha256: root("facet"),
        effect_invariant_root_sha256: root("invariant"),
        source_role_schema_root_sha256: root("roles"),
        selector_program_root_sha256: selector_root.clone(),
        observed_emitted_types_root_sha256: root("types"),
        capability_protocol_root_sha256: root("capability"),
        argument_role_schema_root_sha256: root("arguments"),
        constant_contract_root_sha256: root("constants"),
        structural_guard_root_sha256: root("guard"),
        temporal_cardinality_contract_root_sha256: root("temporal"),
        action_class_root_sha256: root("action"),
        program: ProtocolModeProgramV2 {
            source_role_schema: ProtocolSourceRoleSchemaV2 {
                roles: vec![ProtocolSourceRoleV2 {
                    role_id: 0,
                    value_type: BindingValueTypeV1::Integer,
                    cardinality: ProtocolRoleCardinalityV2::OneActionClass,
                }],
            },
            selector_program,
            value_contract: ProtocolValueContractV2 {
                observed: BindingValueTypeV1::Integer,
                emitted: BindingValueTypeV1::Integer,
            },
            capability_contract: ProtocolCapabilityContractV2 {
                protocol_facet_root_sha256: root("facet"),
                physical_program_ids_sha256: vec![root("physical")],
            },
            argument_role_schema: ProtocolArgumentRoleSchemaV2 {
                roles: vec![ProtocolArgumentRoleV2 {
                    argument_ordinal: 0,
                    source_role_id: 0,
                }],
            },
            constant_contract: ProtocolConstantContractV2 {
                semantic_constants_sha256: Vec::new(),
                protocol_noop_constants_sha256: Vec::new(),
                execution_budget_roots_sha256: Vec::new(),
                transport_default_roots_sha256: Vec::new(),
            },
            structural_guard: ProtocolStructuralGuardV2 {
                relation_identity_sha256: root("relation"),
                effect_invariant_root_sha256: root("invariant"),
                selector_program_root_sha256: selector_root,
            },
            temporal_cardinality_contract: ProtocolTemporalCardinalityContractV2 {
                completion_states: vec![BindingCompletionStateV1::Completed],
                temporal_distances: vec![0],
                event_candidate_cardinalities: vec![1],
                require_unique_action_class: true,
            },
        },
        covered_positive_rows_sha256: vec![root("row")],
    }
}

#[test]
fn facet_builder_is_closed_and_deterministic() {
    let mode = mode();
    let payload = build_protocol_facet_payload_v3(
        mode.protocol_facet_root_sha256.clone(),
        ProtocolCapabilityKindV3::Function,
        &mode,
    )
    .expect("payload");
    assert_eq!(payload.arguments().len(), 1);
    assert_eq!(payload.arguments()[0].source_role_id(), 0);
    assert!(valid_nonzero_sha256(payload.payload_root_sha256()));
    assert_eq!(validate_protocol_facet_payload_v3(&payload, &mode), Ok(()));
}

fn hex_sha256(bytes: &[u8]) -> String {
    Sha256::digest(bytes).iter().map(|b| format!("{b:02x}")).collect()
}

#[test]
fn executable_mode_binds_payload_and_programs() {
    let mode = mode();
    let payload = build_protocol_facet_payload_v3(
        mode.protocol_facet_root_sha256.clone(),
        ProtocolCapabilityKindV3::CustomTool,
        &mode,
    )
    .expect("payload");
    let payload_root = payload.payload_root_sha256().to_owned();
    let executable = build_executable_protocol_mode_v3(&mode, payload).expect("executable mode");
    assert_eq!(executable.source_mode_id_sha256(), mode.mode_id_sha256);
    let programs = format!("[\"{}\"]", root("physical"));
    assert_eq!(executable.source_physical_program_set_root_sha256, hex_sha256(programs.as_bytes()));
    let bound = format!(
        "[\"nando.executable-protocol-mode-artifact.v3.f5a\",1,\"{}\",\"{}\",\"{}\"]",
        mode.mode_id_sha256, executable.source_physical_program_set_root_sha256, payload_root
    );
    assert_eq!(executable.executable_mode_root_sha256(), hex_sha256(bound.as_bytes()));
}

#[test]
fn payload_for_another_facet_or_tampered_root_is_refused() {
    let mode = mode();
    assert_eq!(
        build_protocol_facet_payload_v3(root("other"), ProtocolCapabilityKindV3::Function, &mode),
        Err(ExecutableProtocolModeErrorV3::InvalidArtifact)
    );
    let mut payload = build_protocol_facet_payload_v3(
        mode.protocol_facet_root_sha256.clone(),
        ProtocolCapabilityKindV3::Function,
        &mode,
    )
    .expect("payload");
    payload.payload_root_sha256 = root("tampered");
    assert_eq!(
        validate_protocol_facet_payload_v3(&payload, &mode),
        Err(ExecutableProtocolModeErrorV3::InvalidArtifact)
    );
    assert_eq!(
        build_executable_protocol_mode_v3(&mode, payload),
        Err(ExecutableProtocolModeErrorV3::InvalidArtifact)
    );
}

#[test]
fn arguments_take_source_types_and_sort() {
    let mut mode = mode();
    mode.program.source_role_schema.roles.push(ProtocolSourceRoleV2 {
        role_id: 1,
        value_type: BindingValueTypeV1::Identifier,
        cardinality: ProtocolRoleCardinalityV2::OneActionClass,
    });
    mode.program.argument_role_schema.roles = vec![
        ProtocolArgumentRoleV2 { argument_ordinal: 2, source_role_id: 1 },
        ProtocolArgumentRoleV2 { argument_ordinal: 0, source_role_id: 0 },
    ];
    assert_eq!(
        expected_protocol_arguments_v3(&mode),
        Ok(vec![
            ProtocolCapabilityArgumentV3 { argument_ordinal: 0, source_role_id: 0, value_type: BindingValueTypeV1::Integer },
            ProtocolCapabilityArgumentV3 { argument_ordinal: 2, source_role_id: 1, value_type: BindingValueTypeV1::Identifier },
        ])
    );
}

#[test]
fn unsupported_argument_shapes_are_refused() {
    let mut missing = mode();
    missing.program.argument_role_schema.roles[0].source_role_id = 7;
    assert_eq!(
        expected_protocol_arguments_v3(&missing),
        Err(ExecutableProtocolModeErrorV3::UnsupportedFacetShape)
    );
    let mut empty = mode();
    empty.program.argument_role_schema.roles.clear();
    assert_eq!(
        expected_protocol_arguments_v3(&empty),
        Err(ExecutableProtocolModeErrorV3::UnsupportedFacetShape)
    );
    let mut clash = mode();
    clash.program.argument_role_schema.roles.push(ProtocolArgumentRoleV2 { argument_ordinal: 1, source_role_id: 0 });
    assert_eq!(
        expected_protocol_arguments_v3(&clash),
        Err(ExecutableProtocolModeErrorV3::UnsupportedFacetShape)
    );
    assert_eq!(
        build_protocol_facet_payload_v3(clash.protocol_facet_root_sha256.clone(), ProtocolCapabilityKindV3::Function, &clash),
        Err(ExecutableProtocolModeErrorV3::UnsupportedFacetShape)
    );
}

fn text(value: &str) -> JsonValue {
    JsonValue::String(JsonText { text: value.to_owned() })
}

fn law_payload() -> JsonValue {
    let member = |key: &str, value: JsonValue| JsonMember { key: key.to_owned(), value };
    JsonValue::Object(vec![
        member("action_equivalence_root_sha256", text(&"1".repeat(64))),
        member("dictionary_root_sha256", text(&"2".repeat(64))),
        member("effect_invariant_root_sha256", text(&"d".repeat(64))),
        member("ir_version", JsonValue::Number(JsonNumber { text: "3".to_owned(), integer: true })),
        member("preserved_frame_root_sha256", text(&"4".repeat(64))),
        member("quotient_hypothesis_root_sha256", text(&"5".repeat(64))),
        member("relation_program", JsonValue::Array(vec![JsonValue::Null])),
        member("schema", text("nando.canonical-effect-law.v3")),
        member("topology_edges", JsonValue::Array(Vec::new())),
        member("topology_nodes", JsonValue::Array(vec![JsonValue::Bool(true)])),
    ])
}

fn digest(byte: char) -> String {
    byte.to_string().repeat(64)
}

fn sealed_set(effect_law_id: String) -> ProtocolModeSetV2 {
    let selector_program = ProtocolSelectorProgramV2 { predicates: Vec::new(), max_action_classes: 1 };
    let program = ProtocolModeProgramV2 {
        source_role_schema: ProtocolSourceRoleSchemaV2 {
            roles: vec![ProtocolSourceRoleV2 {
                role_id: 0,
                value_type: BindingValueTypeV1::Identifier,
                cardinality: ProtocolRoleCardinalityV2::OneActionClass,
            }],
        },
        selector_program: selector_program.clone(),
        value_contract: ProtocolValueContractV2 {
            observed: BindingValueTypeV1::Identifier,
            emitted: BindingValueTypeV1::Identifier,
        },
        capability_contract: ProtocolCapabilityContractV2 {
            protocol_facet_root_sha256: digest('a'),
            physical_program_ids_sha256: vec![digest('b')],
        },
        argument_role_schema: ProtocolArgumentRoleSchemaV2 {
            roles: vec![ProtocolArgumentRoleV2 { argument_ordinal: 0, source_role_id: 0 }],
        },
        constant_contract: ProtocolConstantContractV2 {
            semantic_constants_sha256: Vec::new(),
            protocol_noop_constants_sha256: Vec::new(),
            execution_budget_roots_sha256: Vec::new(),
            transport_default_roots_sha256: Vec::new(),
        },
        structural_guard: ProtocolStructuralGuardV2 {
            relation_identity_sha256: digest('c'),
            effect_invariant_root_sha256: digest('d'),
            selector_program_root_sha256: derived_mode_root_v2("selector-program", &selector_program).expect("selector"),
        },
        temporal_cardinality_contract: ProtocolTemporalCardinalityContractV2 {
            completion_states: Vec::new(),
            temporal_distances: Vec::new(),
            event_candidate_cardinalities: Vec::new(),
            require_unique_action_class: true,
        },
    };
    let candidate = BoundedProtocolModeCandidateV2 {
        candidate_id_sha256: digest('e'),
        effect_law_id_sha256: effect_law_id.clone(),
        relation_identity_sha256: digest('c'),
        protocol_facet_root_sha256: digest('a'),
        effect_invariant_root_sha256: digest('d'),
        source_role_schema_root_sha256: derived_mode_root_v2("source-role-schema", &program.source_role_schema).expect("roles"),
        selector_program_root_sha256: derived_mode_root_v2("selector-program", &program.selector_program).expect("selector"),
        observed_emitted_types_root_sha256: derived_mode_root_v2("observed-emitted-types", &program.value_contract).expect("types"),
        capability_protocol_root_sha256: derived_mode_root_v2("capability-protocol", &program.capability_contract).expect("capability"),
        argument_role_schema_root_sha256: derived_mode_root_v2("argument-role-schema", &program.argument_role_schema).expect("arguments"),
        constant_contract_root_sha256: derived_mode_root_v2("constant-contract", &program.constant_contract).expect("constants"),
        structural_guard_root_sha256: derived_mode_root_v2("structural-guard", &program.structural_guard).expect("guard"),
        temporal_cardinality_contract_root_sha256: derived_mode_root_v2("temporal-cardinality", &program.temporal_cardinality_contract)
            .expect("temporal"),
        action_class_root_sha256: digest('1'),
        program,
        covers_positive_rows_sha256: Vec::new(),
        accepts_negative_rows_sha256: Vec::new(),
        wrong_action_rows_sha256: Vec::new(),
        verify_failed_rows_sha256: Vec::new(),
        search_exhausted: false,
    };
    let mode = protocol_mode_from_candidate_v2(&candidate, vec![digest('2')]).expect("mode");
    let mut set = ProtocolModeSetV2 {
        schema: PROTOCOL_MODE_SET_SCHEMA_V2.to_owned(),
        mode_set_sha256: String::new(),
        verdict: BindingProtocolCompileVerdictV2::ProtocolModeSet,
        binding_capability_root_sha256: digest('3'),
        effect_law_id_sha256: effect_law_id,
        relation_identity_sha256: digest('c'),
        modes: vec![mode],
        positive_rows: 1,
        positive_rows_covered: 1,
        wrong_actions: 0,
        verify_failed: 0,
        negative_accepts: 0,
        search_exhausted: false,
        action_equivalence_classes: 1,
        all_surviving_covers_action_equivalent: true,
        production_admissible: false,
        execution_authority: false,
    };
    set.mode_set_sha256 = protocol_mode_set_digest_v2(&set).expect("set digest");
    set
}

#[test]
fn artifact_gathers_the_modes_of_a_sealed_set() {
    let law_root = canonical_json_sha256(&law_payload());
    let set = sealed_set(law_root.clone());
    assert_eq!(validate_executable_protocol_mode_source_v3(&set), Ok(()));
    assert_eq!(validate_executable_effect_law_payload_v3(&law_payload(), &law_root, &set), Ok(()));
    let mode = set.modes[0].clone();
    let payload = build_protocol_facet_payload_v3(
        mode.protocol_facet_root_sha256.clone(),
        ProtocolCapabilityKindV3::Function,
        &mode,
    )
    .expect("payload");
    let executable = build_executable_protocol_mode_v3(&mode, payload).expect("executable mode");
    let artifact = build_executable_protocol_mode_artifact_v3(set.clone(), law_payload(), vec![executable])
        .expect("artifact");
    assert!(valid_nonzero_sha256(artifact.artifact_sha256()));
    assert_eq!(artifact.modes().len(), 1);
    assert!(!artifact.production_admissible());
    assert!(!artifact.execution_authority());
    assert_eq!(artifact.effect_law_payload_root_sha256, law_root);
    assert_eq!(validate_executable_protocol_mode_artifact_v3(&artifact), Ok(()));
    let bytes = artifact.canonical_bytes().expect("canonical bytes");
    let text = String::from_utf8(bytes).expect("utf-8");
    assert!(text.starts_with(&format!("{{\"artifact_sha256\":\"{}\",\"compiler_version\":", artifact.artifact_sha256())));
    assert!(text.contains(&format!("\"source_mode_set\":{{\"action_equivalence_classes\":1,")));
    assert!(text.ends_with("}}"));
    assert!(!text.contains('\n'));
    let root = artifact.artifact_sha256().to_owned();
    let artifact = accept_decoded_executable_protocol_mode_artifact_v3(artifact, text.as_bytes(), &root)
        .expect("accepted");
    assert_eq!(artifact.canonical_bytes().expect("bytes"), text.as_bytes());

    let mut tampered = artifact;
    tampered.production_admissible = true;
    assert_eq!(
        validate_executable_protocol_mode_artifact_v3(&tampered),
        Err(ExecutableProtocolModeErrorV3::InvalidArtifact)
    );
}

#[test]
fn artifact_needs_every_mode_of_the_set() {
    let law_root = canonical_json_sha256(&law_payload());
    let set = sealed_set(law_root);
    assert_eq!(
        build_executable_protocol_mode_artifact_v3(set, law_payload(), Vec::new()),
        Err(ExecutableProtocolModeErrorV3::InvalidArtifact)
    );
}

#[test]
fn effect_law_payloads_are_checked_against_the_set() {
    let law_root = canonical_json_sha256(&law_payload());
    let set = sealed_set(law_root.clone());
    assert_eq!(
        validate_executable_effect_law_payload_v3(&JsonValue::Null, &law_root, &set),
        Err(ExecutableProtocolModeErrorV3::InvalidEffectLaw)
    );
    assert_eq!(
        validate_executable_effect_law_payload_v3(&law_payload(), &digest('9'), &set),
        Err(ExecutableProtocolModeErrorV3::InvalidEffectLaw)
    );
    let mut extra = law_payload();
    if let JsonValue::Object(members) = &mut extra {
        members.push(JsonMember { key: "teacher".to_owned(), value: JsonValue::Null });
    }
    assert_eq!(
        validate_executable_effect_law_payload_v3(&extra, &law_root, &set),
        Err(ExecutableProtocolModeErrorV3::InvalidEffectLaw)
    );
    let other_set = sealed_set(digest('f'));
    assert_eq!(
        build_executable_protocol_mode_artifact_v3(other_set, law_payload(), Vec::new()),
        Err(ExecutableProtocolModeErrorV3::InvalidEffectLaw)
    );
}

#[test]
fn invalid_mode_sets_are_refused() {
    let mut set = sealed_set(digest('f'));
    set.execution_authority = true;
    assert_eq!(
        validate_executable_protocol_mode_source_v3(&set),
        Err(ExecutableProtocolModeErrorV3::InvalidModeSet)
    );
    assert_eq!(
        build_executable_protocol_mode_artifact_v3(set, law_payload(), Vec::new()),
        Err(ExecutableProtocolModeErrorV3::InvalidModeSet)
    );
}
