use nando_kernel::contracts::{
    AtomSource, AtomValueType, RelationAtom, RelationFrame, ResponseValueSelector,
};
use nando_kernel::relation_routing::{
    balanced_wave_hidden_atom_ids, extend_wave_pairs, ranked_wave_pairs, ranked_wave_triples,
    relation_frame_hidden_wave_atom_ids, relation_frame_online_routing_atom_ids,
    relation_frame_phase_atom_ids, relation_frame_routing_atom_ids, sort_dedup_u64,
    source_name, value_type_name, wave_hidden_atom_id,
};

fn frame(atoms: Vec<RelationAtom>) -> RelationFrame {
    RelationFrame {
        schema: "nando.response-relation-frame.v1".to_owned(),
        frame_id_sha256: "1".repeat(64),
        event_id_sha256: "2".repeat(64),
        client_intent_id_sha256: "3".repeat(64),
        session_id_sha256: "4".repeat(64),
        observed_at_unix_nanos: 1,
        estimated_input_tokens: 1,
        extractor_version: "v1".to_owned(),
        verifier_label: None,
        atoms,
        evidence_ref_sha256: "5".repeat(64),
    }
}

#[test]
fn wave_hash_matches_known_values() {
    assert_eq!(wave_hidden_atom_id(1, &[2, 3]), 10289069022387817910);
    assert_eq!(wave_hidden_atom_id(4, &[1, 2, 3]), 2708767825958248050);
    assert_eq!(wave_hidden_atom_id(0, &[]), 1857775062111333430);
    assert_ne!(wave_hidden_atom_id(1, &[2, 3]), wave_hidden_atom_id(1, &[3, 2]));
}

#[test]
fn ranked_pairs_sum_priorities_row_by_row() {
    let pairs = ranked_wave_pairs(1, &[(10, 1), (10, 5)], &[(5, 2)]);
    assert_eq!(
        pairs,
        vec![(15, wave_hidden_atom_id(1, &[1, 2])), (15, wave_hidden_atom_id(1, &[5, 2]))]
    );
    let triples = ranked_wave_triples(&[(10, 1)], &[(5, 2)], &[(1, 3), (2, 4)]);
    assert_eq!(
        triples,
        vec![(16, wave_hidden_atom_id(4, &[1, 2, 3])), (17, wave_hidden_atom_id(4, &[1, 2, 4]))]
    );
    let mut out = vec![7];
    extend_wave_pairs(&mut out, 2, &[1, 2], &[3]);
    assert_eq!(out, vec![7, wave_hidden_atom_id(2, &[1, 3]), wave_hidden_atom_id(2, &[2, 3])]);
}

#[test]
fn balanced_selection_takes_groups_position_by_position() {
    let one = balanced_wave_hidden_atom_ids(&[(10, 1)], &[(5, 2)], &[(1, 3)], 12);
    assert_eq!(
        one,
        vec![9284133729585727380, 1789594941351975765, 14874948827227792759, 2708767825958248050]
    );
    let request = [(10, 1), (10, 5)];
    let state = [(5, 2)];
    let tool = [(1, 3), (2, 4)];
    let all = balanced_wave_hidden_atom_ids(&request, &state, &tool, 0);
    assert_eq!(all.len(), 12);
    assert_eq!(
        all[..5].to_vec(),
        vec![
            4962834090892568208,
            13539392794158759154,
            12785964595502222996,
            2688714665512064337,
            9284133729585727380
        ]
    );
    let five = balanced_wave_hidden_atom_ids(&request, &state, &tool, 5);
    assert_eq!(five, all[..5].to_vec());
}

#[test]
fn sort_dedup_keeps_each_value_once() {
    assert_eq!(sort_dedup_u64(&[5, 1, 5, 3, 1]), vec![1, 3, 5]);
    assert_eq!(sort_dedup_u64(&[]), Vec::<u64>::new());
}

#[test]
fn names_of_types_and_sources() {
    assert_eq!(value_type_name(AtomValueType::Collection), "collection");
    assert_eq!(source_name(AtomSource::Observation), "observation");
}

#[test]
fn routing_drops_action_atoms() {
    let f = frame(vec![
        RelationAtom::RequestPhaseAtom { atom_id: 9 },
        RelationAtom::ActionFunction { value: "run".to_owned() },
        RelationAtom::TypedSlot {
            slot_id: 1,
            value_type: AtomValueType::String,
            source: AtomSource::Action,
            value_sha256: "6".repeat(64),
        },
        RelationAtom::UniqueSlot { slot_id: 1 },
        RelationAtom::RequestPhaseAtom { atom_id: 9 },
    ]);
    assert_eq!(relation_frame_routing_atom_ids(&f, &[30, 10, 20, 40, 30]), vec![30, 40]);
}

#[test]
fn hidden_wave_ids_pair_the_layers() {
    let f = frame(vec![
        RelationAtom::RequestPhaseAtom { atom_id: 9 },
        RelationAtom::CompletionState { value: "completed".to_owned() },
        RelationAtom::ToolKind { value: "shell".to_owned() },
        RelationAtom::ActionFunction { value: "run".to_owned() },
    ]);
    let ids = [1, 2, 3, 4];
    let hidden = relation_frame_hidden_wave_atom_ids(&f, &ids);
    let mut expected = vec![
        wave_hidden_atom_id(1, &[1, 2]),
        wave_hidden_atom_id(2, &[2, 3]),
        wave_hidden_atom_id(3, &[1, 3]),
        wave_hidden_atom_id(4, &[1, 2, 3]),
    ];
    expected.sort_unstable();
    assert_eq!(hidden, expected);
    assert!(relation_frame_hidden_wave_atom_ids(&frame(Vec::new()), &[]).is_empty());
}

#[test]
fn phase_ids_are_sorted_once() {
    let f = frame(vec![
        RelationAtom::RequestPhaseAtom { atom_id: 9 },
        RelationAtom::UniqueSlot { slot_id: 1 },
        RelationAtom::RequestPhaseAtom { atom_id: 9 },
    ]);
    assert_eq!(relation_frame_phase_atom_ids(&f, &[30, 10, 30]), vec![10, 30]);
}

#[test]
fn online_routing_keeps_completion_without_continuation() {
    let f = frame(vec![
        RelationAtom::CompletionState { value: "completed".to_owned() },
        RelationAtom::ToolKind { value: "shell".to_owned() },
        RelationAtom::ActionFunction { value: "run".to_owned() },
    ]);
    let atom_ids = [100, 200, 300];
    let kind_ids = [0, 777, 0];
    let mut expected = vec![100, 200, 777];
    expected.extend(relation_frame_hidden_wave_atom_ids(&f, &atom_ids));
    expected.sort_unstable();
    expected.dedup();
    assert_eq!(relation_frame_online_routing_atom_ids(&f, &atom_ids, &kind_ids, 100, 500), expected);
}

#[test]
fn online_routing_marks_continuation_pending() {
    let f = frame(vec![
        RelationAtom::CompletionState { value: "completed".to_owned() },
        RelationAtom::ObservationSelector {
            slot_id: 1,
            selector: ResponseValueSelector::ContinuationHandle { value_type: AtomValueType::String },
        },
    ]);
    let atom_ids = [100, 60];
    let kind_ids = [0, 0];
    let online = relation_frame_online_routing_atom_ids(&f, &atom_ids, &kind_ids, 100, 500);
    assert!(!online.contains(&100));
    assert!(online.contains(&500));
    assert!(online.contains(&60));
    assert!(online.windows(2).all(|w| w[0] < w[1]));
}

#[test]
fn hidden_wave_ids_ignore_atom_order_and_stay_bounded() {
    let atoms = vec![
        RelationAtom::RequestPhaseAtom { atom_id: 9 },
        RelationAtom::CompletionState { value: "completed".to_owned() },
        RelationAtom::ToolKind { value: "shell".to_owned() },
        RelationAtom::OutputStatus { value: "ok".to_owned() },
        RelationAtom::Cardinality { role: "row".to_owned(), count: 2 },
    ];
    let ids = [11, 22, 33, 44, 55];
    let hidden = relation_frame_hidden_wave_atom_ids(&frame(atoms.clone()), &ids);
    let mut reversed_atoms = atoms.clone();
    reversed_atoms.reverse();
    let mut reversed_ids = ids;
    reversed_ids.reverse();
    assert_eq!(relation_frame_hidden_wave_atom_ids(&frame(reversed_atoms), &reversed_ids), hidden);
    assert!(!hidden.is_empty());
    assert!(hidden.len() <= 24);
    let one_layer = vec![
        RelationAtom::ToolKind { value: "shell".to_owned() },
        RelationAtom::OutputStatus { value: "ok".to_owned() },
    ];
    assert!(relation_frame_hidden_wave_atom_ids(&frame(one_layer), &[1, 2]).is_empty());
}
