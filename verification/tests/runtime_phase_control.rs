use nando_kernel::runtime_phase_control::{
    accept_decoded_runtime_phase_control_evidence_v3, seal_runtime_phase_control_evidence_v3,
    RuntimePhaseControlEvidenceErrorV3, RuntimePhaseControlEvidenceInputV3, RuntimePhaseControlKindV3,
    RuntimePhaseControlObservationInputV3, RuntimePhaseSelectionV3,
};

fn observation(control: RuntimePhaseControlKindV3) -> RuntimePhaseControlObservationInputV3 {
    RuntimePhaseControlObservationInputV3 {
        control,
        selection: RuntimePhaseSelectionV3::AbstainNoCandidate,
        exact_action_checks: 0,
        selected_physical_action_sha256: None,
        winner_coherence_fixed: None,
        runner_up_coherence_fixed: None,
    }
}

#[test]
fn decoded_evidence_must_be_valid_and_canonical() {
    let input = RuntimePhaseControlEvidenceInputV3 {
        index_sha256: "1".repeat(64),
        request_view_sha256: "2".repeat(64),
        report_sha256: "3".repeat(64),
        observations: vec![
            observation(RuntimePhaseControlKindV3::Full),
            observation(RuntimePhaseControlKindV3::NoPhase),
            observation(RuntimePhaseControlKindV3::ShuffledPhase),
            observation(RuntimePhaseControlKindV3::MagnitudeOnly),
            observation(RuntimePhaseControlKindV3::MatchedRandomCenter),
        ],
    };
    let evidence = seal_runtime_phase_control_evidence_v3(input).expect("evidence");
    let bytes = evidence.canonical_bytes().expect("bytes");
    assert_eq!(accept_decoded_runtime_phase_control_evidence_v3(evidence.clone(), &bytes), Ok(evidence.clone()));
    let mut spaced = bytes.clone();
    spaced.insert(0, b' ');
    assert_eq!(
        accept_decoded_runtime_phase_control_evidence_v3(evidence.clone(), &spaced),
        Err(RuntimePhaseControlEvidenceErrorV3::InvalidEvidence)
    );
    let mut authority = evidence;
    authority.execution_authority = true;
    assert_eq!(
        accept_decoded_runtime_phase_control_evidence_v3(authority, &bytes),
        Err(RuntimePhaseControlEvidenceErrorV3::InvalidEvidence)
    );
}
