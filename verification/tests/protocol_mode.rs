use nando_kernel::binding::{BindingPredicateV1, BindingSourceEventClassV1, BindingValueTypeV1};
use nando_kernel::protocol_mode::{
    derived_mode_root_v2, is_protocol_mode_sha256, protocol_mode_digest_v2,
    protocol_mode_from_candidate_v2, protocol_mode_set_digest_v2, validate_protocol_mode_budget_v2,
    validate_protocol_mode_candidate_v2, validate_protocol_mode_program_v2,
    validate_protocol_mode_set_v2, BindingProtocolCompileVerdictV2, BindingProtocolCompilerErrorV2,
    BoundedProtocolModeCandidateV2, ProtocolArgumentRoleSchemaV2, ProtocolArgumentRoleV2,
    ProtocolCapabilityContractV2, ProtocolConstantContractV2, ProtocolModeCompilerBudgetV2,
    ProtocolModeProgramV2, ProtocolModeSetV2, ProtocolRoleCardinalityV2, ProtocolSelectorProgramV2,
    ProtocolSourceRoleSchemaV2, ProtocolSourceRoleV2, ProtocolStructuralGuardV2,
    ProtocolTemporalCardinalityContractV2, ProtocolValueContractV2, PROTOCOL_MODE_SET_SCHEMA_V2,
};

fn digest(byte: char) -> String {
    byte.to_string().repeat(64)
}

fn candidate() -> BoundedProtocolModeCandidateV2 {
    let selector_program = ProtocolSelectorProgramV2 {
        predicates: Vec::new(),
        max_action_classes: 1,
    };
    let program = ProtocolModeProgramV2 {
        source_role_schema: ProtocolSourceRoleSchemaV2 {
            roles: vec![ProtocolSourceRoleV2 {
                role_id: 0,
                value_type: BindingValueTypeV1::Identifier,
                cardinality: ProtocolRoleCardinalityV2::OneActionClass,
            }],
        },
        selector_program: selector_program.clone(),
        value_contract: ProtocolValueContractV2 {
            observed: BindingValueTypeV1::Identifier,
            emitted: BindingValueTypeV1::Identifier,
        },
        capability_contract: ProtocolCapabilityContractV2 {
            protocol_facet_root_sha256: digest('a'),
            physical_program_ids_sha256: vec![digest('b')],
        },
        argument_role_schema: ProtocolArgumentRoleSchemaV2 {
            roles: vec![ProtocolArgumentRoleV2 {
                argument_ordinal: 0,
                source_role_id: 0,
            }],
        },
        constant_contract: ProtocolConstantContractV2 {
            semantic_constants_sha256: Vec::new(),
            protocol_noop_constants_sha256: Vec::new(),
            execution_budget_roots_sha256: Vec::new(),
            transport_default_roots_sha256: Vec::new(),
        },
        structural_guard: ProtocolStructuralGuardV2 {
            relation_identity_sha256: digest('c'),
            effect_invariant_root_sha256: digest('d'),
            selector_program_root_sha256: derived_mode_root_v2("selector-program", &selector_program)
                .expect("selector digest"),
        },
        temporal_cardinality_contract: ProtocolTemporalCardinalityContractV2 {
            completion_states: Vec::new(),
            temporal_distances: Vec::new(),
            event_candidate_cardinalities: Vec::new(),
            require_unique_action_class: true,
        },
    };
    BoundedProtocolModeCandidateV2 {
        candidate_id_sha256: digest('e'),
        effect_law_id_sha256: digest('f'),
        relation_identity_sha256: digest('c'),
        protocol_facet_root_sha256: digest('a'),
        effect_invariant_root_sha256: digest('d'),
        source_role_schema_root_sha256: derived_mode_root_v2("source-role-schema", &program.source_role_schema)
            .expect("role digest"),
        selector_program_root_sha256: derived_mode_root_v2("selector-program", &program.selector_program)
            .expect("selector digest"),
        observed_emitted_types_root_sha256: derived_mode_root_v2(
            "observed-emitted-types",
            &program.value_contract,
        )
        .expect("value digest"),
        capability_protocol_root_sha256: derived_mode_root_v2(
            "capability-protocol",
            &program.capability_contract,
        )
        .expect("capability digest"),
        argument_role_schema_root_sha256: derived_mode_root_v2(
            "argument-role-schema",
            &program.argument_role_schema,
        )
        .expect("argument digest"),
        constant_contract_root_sha256: derived_mode_root_v2("constant-contract", &program.constant_contract)
            .expect("constant digest"),
        structural_guard_root_sha256: derived_mode_root_v2("structural-guard", &program.structural_guard)
            .expect("guard digest"),
        temporal_cardinality_contract_root_sha256: derived_mode_root_v2(
            "temporal-cardinality",
            &program.temporal_cardinality_contract,
        )
        .expect("temporal digest"),
        action_class_root_sha256: digest('1'),
        program,
        covers_positive_rows_sha256: Vec::new(),
        accepts_negative_rows_sha256: Vec::new(),
        wrong_action_rows_sha256: Vec::new(),
        verify_failed_rows_sha256: Vec::new(),
        search_exhausted: false,
    }
}

fn mode_set(candidate: &BoundedProtocolModeCandidateV2, rows: Vec<String>) -> ProtocolModeSetV2 {
    let covered = rows.len();
    let mode = protocol_mode_from_candidate_v2(candidate, rows).expect("mode");
    let mut set = ProtocolModeSetV2 {
        schema: PROTOCOL_MODE_SET_SCHEMA_V2.to_owned(),
        mode_set_sha256: String::new(),
        verdict: BindingProtocolCompileVerdictV2::ProtocolModeSet,
        binding_capability_root_sha256: digest('3'),
        effect_law_id_sha256: candidate.effect_law_id_sha256.clone(),
        relation_identity_sha256: candidate.relation_identity_sha256.clone(),
        modes: vec![mode],
        positive_rows: covered,
        positive_rows_covered: covered,
        wrong_actions: 0,
        verify_failed: 0,
        negative_accepts: 0,
        search_exhausted: false,
        action_equivalence_classes: 1,
        all_surviving_covers_action_equivalent: true,
        production_admissible: false,
        execution_authority: false,
    };
    set.mode_set_sha256 = protocol_mode_set_digest_v2(&set).expect("set digest");
    set
}

#[test]
fn protocol_mode_validation_stays_fail_closed() {
    let mut candidate = candidate();
    candidate.program.selector_program.max_action_classes = 2;
    assert_eq!(
        validate_protocol_mode_candidate_v2(&candidate),
        Err(BindingProtocolCompilerErrorV2::InvalidCandidate)
    );
    assert_eq!(
        validate_protocol_mode_budget_v2(ProtocolModeCompilerBudgetV2 {
            max_candidates: 0,
            max_surviving_modes: 1,
        }),
        Err(BindingProtocolCompilerErrorV2::InvalidBudget)
    );
}

#[test]
fn sealed_protocol_mode_set_validates() {
    let candidate = candidate();
    assert_eq!(validate_protocol_mode_candidate_v2(&candidate), Ok(()));
    let set = mode_set(&candidate, vec![digest('2')]);
    assert_eq!(validate_protocol_mode_set_v2(&set), Ok(()));
    let mode = &set.modes[0];
    assert_eq!(protocol_mode_digest_v2(mode), Ok(mode.mode_id_sha256.clone()));
    assert!(is_protocol_mode_sha256(&mode.mode_id_sha256));
}

#[test]
fn covered_rows_become_a_sorted_set() {
    let candidate = candidate();
    let mode = protocol_mode_from_candidate_v2(
        &candidate,
        vec![digest('9'), digest('2'), digest('9'), digest('5')],
    )
    .expect("mode");
    assert_eq!(
        mode.covered_positive_rows_sha256,
        vec![digest('2'), digest('5'), digest('9')]
    );
    let same = protocol_mode_from_candidate_v2(&candidate, vec![digest('5'), digest('2'), digest('9')])
        .expect("mode");
    assert_eq!(mode.mode_id_sha256, same.mode_id_sha256);
}

#[test]
fn budget_bounds_are_inclusive() {
    let ok = |c: usize, m: usize| {
        validate_protocol_mode_budget_v2(ProtocolModeCompilerBudgetV2 {
            max_candidates: c,
            max_surviving_modes: m,
        })
    };
    assert_eq!(ok(1, 1), Ok(()));
    assert_eq!(ok(4096, 512), Ok(()));
    assert_eq!(ok(4097, 1), Err(BindingProtocolCompilerErrorV2::InvalidBudget));
    assert_eq!(ok(1, 513), Err(BindingProtocolCompilerErrorV2::InvalidBudget));
    assert_eq!(ok(1, 0), Err(BindingProtocolCompilerErrorV2::InvalidBudget));
    assert_eq!(
        validate_protocol_mode_budget_v2(ProtocolModeCompilerBudgetV2::default()),
        Ok(())
    );
}

#[test]
fn program_predicates_must_be_sorted_and_unique() {
    let mut candidate = candidate();
    let a = BindingPredicateV1::SourceEventClass {
        value: BindingSourceEventClassV1::Structured,
    };
    let b = BindingPredicateV1::TemporalDistance { value: 2 };
    candidate.program.selector_program.predicates = vec![a.clone(), b.clone()];
    candidate.program.structural_guard.selector_program_root_sha256 =
        derived_mode_root_v2("selector-program", &candidate.program.selector_program).expect("root");
    assert_eq!(validate_protocol_mode_program_v2(&candidate.program), Ok(()));
    candidate.program.selector_program.predicates = vec![b.clone(), a.clone()];
    candidate.program.structural_guard.selector_program_root_sha256 =
        derived_mode_root_v2("selector-program", &candidate.program.selector_program).expect("root");
    assert_eq!(
        validate_protocol_mode_program_v2(&candidate.program),
        Err(BindingProtocolCompilerErrorV2::InvalidCandidate)
    );
    candidate.program.selector_program.predicates = vec![a.clone(), a];
    candidate.program.structural_guard.selector_program_root_sha256 =
        derived_mode_root_v2("selector-program", &candidate.program.selector_program).expect("root");
    assert_eq!(
        validate_protocol_mode_program_v2(&candidate.program),
        Err(BindingProtocolCompilerErrorV2::InvalidCandidate)
    );
}

#[test]
fn tampered_roots_are_invalid_digests() {
    let mut candidate = candidate();
    candidate.constant_contract_root_sha256 = digest('0');
    assert_eq!(
        validate_protocol_mode_candidate_v2(&candidate),
        Err(BindingProtocolCompilerErrorV2::InvalidDigest)
    );
    let mut candidate = self::candidate();
    candidate.covers_positive_rows_sha256 = vec!["not a digest".to_owned()];
    assert_eq!(
        validate_protocol_mode_candidate_v2(&candidate),
        Err(BindingProtocolCompilerErrorV2::InvalidDigest)
    );
}

#[test]
fn mode_set_rejects_tamper_and_miscounts() {
    let candidate = candidate();
    let mut set = mode_set(&candidate, vec![digest('2'), digest('4')]);
    assert_eq!(validate_protocol_mode_set_v2(&set), Ok(()));
    set.positive_rows_covered = 1;
    assert_eq!(
        validate_protocol_mode_set_v2(&set),
        Err(BindingProtocolCompilerErrorV2::InvalidModeSet)
    );
    let mut set = mode_set(&candidate, vec![digest('2')]);
    set.execution_authority = true;
    set.mode_set_sha256 = protocol_mode_set_digest_v2(&set).expect("digest");
    assert_eq!(
        validate_protocol_mode_set_v2(&set),
        Err(BindingProtocolCompilerErrorV2::InvalidModeSet)
    );
    let mut set = mode_set(&candidate, vec![digest('2')]);
    set.modes[0].covered_positive_rows_sha256.push(digest('1'));
    set.mode_set_sha256 = protocol_mode_set_digest_v2(&set).expect("digest");
    assert_eq!(
        validate_protocol_mode_set_v2(&set),
        Err(BindingProtocolCompilerErrorV2::InvalidModeSet)
    );
    let mut set = mode_set(&candidate, vec![digest('2')]);
    set.modes[0].structural_guard_root_sha256 = digest('0');
    set.mode_set_sha256 = protocol_mode_set_digest_v2(&set).expect("digest");
    assert_eq!(
        validate_protocol_mode_set_v2(&set),
        Err(BindingProtocolCompilerErrorV2::InvalidDigest)
    );
    let mut set = mode_set(&candidate, vec![digest('2')]);
    set.verdict = BindingProtocolCompileVerdictV2::Abstain;
    set.mode_set_sha256 = protocol_mode_set_digest_v2(&set).expect("digest");
    assert_eq!(
        validate_protocol_mode_set_v2(&set),
        Err(BindingProtocolCompilerErrorV2::InvalidModeSet)
    );
}
