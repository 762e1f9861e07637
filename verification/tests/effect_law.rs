use nando_kernel::digest::sha256_hex;
use nando_kernel::effect_law::{
    accept_decoded_effect_law_v3, validate_canonical_effect_law_v3, CanonicalEffectLawV3, CanonicalEffectNodeV3,
    EffectLawV3Error, EffectSource, CANONICAL_EFFECT_LAW_SCHEMA_V3, EFFECT_LAW_IR_VERSION_V3,
};

fn root(c: char) -> String {
    c.to_string().repeat(64)
}

fn law() -> CanonicalEffectLawV3 {
    let invariant = root('3');
    let frame = root('4');
    let action = sha256_hex(format!("[[],\"{invariant}\",\"{frame}\"]").as_bytes());
    CanonicalEffectLawV3 {
        schema: CANONICAL_EFFECT_LAW_SCHEMA_V3.to_owned(),
        ir_version: EFFECT_LAW_IR_VERSION_V3,
        dictionary_root_sha256: root('1'),
        quotient_hypothesis_root_sha256: root('2'),
        topology_nodes: vec![CanonicalEffectNodeV3 {
            canonical_node: 0,
            source: EffectSource::Request,
            node_kind_code: 0x3001,
            value_type_code: 0x4001,
            unique: true,
            operation_code: None,
        }],
        topology_edges: Vec::new(),
        relation_program: Vec::new(),
        effect_invariant_root_sha256: invariant,
        preserved_frame_root_sha256: frame,
        action_equivalence_root_sha256: action,
    }
}

#[test]
fn decoded_laws_must_be_canonical_and_well_rooted() {
    let law = law();
    assert_eq!(validate_canonical_effect_law_v3(&law), Ok(()));
    let bytes = law.canonical_bytes().expect("bytes");
    assert!(bytes.starts_with(b"{\"action_equivalence_root_sha256\":\""));
    assert_eq!(accept_decoded_effect_law_v3(law.clone(), &bytes), Ok(law.clone()));
    let mut spaced = bytes.clone();
    spaced.push(b' ');
    assert_eq!(accept_decoded_effect_law_v3(law.clone(), &spaced), Err(EffectLawV3Error::InvalidCandidate));
    let mut other_schema = law.clone();
    other_schema.schema = "other".to_owned();
    let other_bytes = other_schema.canonical_bytes().expect("bytes");
    assert_eq!(accept_decoded_effect_law_v3(other_schema, &other_bytes), Err(EffectLawV3Error::InvalidCandidate));
    let mut zero_root = law;
    zero_root.dictionary_root_sha256 = root('0');
    let zero_bytes = zero_root.canonical_bytes().expect("bytes");
    assert_eq!(accept_decoded_effect_law_v3(zero_root, &zero_bytes), Err(EffectLawV3Error::InvalidCandidate));
}
