use nando_kernel::binding::BindingValueTypeV1;
use nando_kernel::bound_protocol_action::{
    build_bound_protocol_action_v3, valid_physical_name, BoundProtocolActionErrorV3, BoundProtocolActionInputV3,
    BoundProtocolArgumentInputV3, BoundProtocolValueV3,
};
use nando_kernel::bound_protocol_program::{
    compile_bound_protocol_program_v3, value_bytes, BoundProtocolProgramErrorV3,
    BOUND_PROTOCOL_PROGRAM_MAX_OUTPUT_BYTES_V3,
};
use nando_kernel::structural_context::RuntimeCapabilityKindV3;
use sha2::{Digest, Sha256};

fn digest(byte: char) -> String {
    byte.to_string().repeat(64)
}

fn hex_sha256(bytes: &[u8]) -> String {
    Sha256::digest(bytes).iter().map(|b| format!("{b:02x}")).collect()
}

fn argument(ordinal: u16, role: u16, name: &str, value: BoundProtocolValueV3) -> BoundProtocolArgumentInputV3 {
    BoundProtocolArgumentInputV3 {
        argument_ordinal: ordinal,
        source_role_id: role,
        physical_name: name.to_owned(),
        value,
    }
}

fn input(arguments: Vec<BoundProtocolArgumentInputV3>) -> BoundProtocolActionInputV3 {
    BoundProtocolActionInputV3 {
        index_sha256: digest('1'),
        artifact_root_sha256: digest('2'),
        mode_id_sha256: digest('3'),
        executable_mode_root_sha256: digest('4'),
        payload_root_sha256: digest('5'),
        effect_law_id_sha256: digest('6'),
        action_class_root_sha256: digest('7'),
        request_view_sha256: digest('8'),
        mapping_sha256: digest('9'),
        capability_id: 4,
        capability_kind: RuntimeCapabilityKindV3::Function,
        physical_symbol: "tools/exec".to_owned(),
        arguments,
    }
}

fn two_arguments() -> Vec<BoundProtocolArgumentInputV3> {
    vec![
        argument(1, 5, "session_id", BoundProtocolValueV3::Identifier("Ab12".to_owned())),
        argument(0, 3, "count", BoundProtocolValueV3::Integer(7)),
    ]
}

#[test]
fn action_orders_arguments_and_seals_its_digests() {
    let action = build_bound_protocol_action_v3(input(two_arguments())).expect("action");
    assert_eq!(action.arguments().len(), 2);
    assert_eq!(action.arguments()[0].physical_name(), "count");
    assert_eq!(action.arguments()[1].source_role_id(), 5);
    assert_eq!(action.capability_id(), 4);
    assert!(!action.execution_authority());
    let semantic = format!(
        "[\"nando.bound-protocol-semantic-action.v3\",\"{}\",\"{}\",\"function\",[{},{}]]",
        digest('6'),
        digest('7'),
        "{\"argument_ordinal\":0,\"source_role_id\":3,\"value\":{\"type\":\"integer\",\"value\":7}}",
        "{\"argument_ordinal\":1,\"source_role_id\":5,\"value\":{\"type\":\"identifier\",\"value\":\"Ab12\"}}"
    );
    assert_eq!(action.semantic_action_sha256(), hex_sha256(semantic.as_bytes()));
    let physical = format!(
        "[\"nando.bound-protocol-physical-action.v3\",\"{}\",\"function\",\"tools/exec\",[{},{}]]",
        action.semantic_action_sha256(),
        "{\"argument_ordinal\":0,\"physical_name\":\"count\",\"value\":{\"type\":\"integer\",\"value\":7}}",
        "{\"argument_ordinal\":1,\"physical_name\":\"session_id\",\"value\":{\"type\":\"identifier\",\"value\":\"Ab12\"}}"
    );
    assert_eq!(action.physical_action_sha256(), hex_sha256(physical.as_bytes()));
    let derivation = format!(
        "[\"nando.bound-protocol-action.v3\",\"{}\",\"{}\",\"{}\",\"{}\",\"{}\",\"{}\",\"{}\",4,\"{}\"]",
        digest('1'),
        digest('2'),
        digest('3'),
        digest('4'),
        digest('5'),
        digest('8'),
        digest('9'),
        action.physical_action_sha256()
    );
    assert_eq!(action.derivation_sha256(), hex_sha256(derivation.as_bytes()));
}

#[test]
fn action_is_independent_of_argument_order() {
    let mut reversed = two_arguments();
    reversed.reverse();
    let first = build_bound_protocol_action_v3(input(two_arguments())).expect("action");
    let second = build_bound_protocol_action_v3(input(reversed)).expect("action");
    assert_eq!(first, second);
}

#[test]
fn action_inputs_fail_closed() {
    let mut bad_commitment = input(two_arguments());
    bad_commitment.mapping_sha256 = digest('0');
    assert_eq!(build_bound_protocol_action_v3(bad_commitment), Err(BoundProtocolActionErrorV3::InvalidCommitment));
    let mut bad_symbol = input(two_arguments());
    bad_symbol.physical_symbol = "tools exec".to_owned();
    assert_eq!(build_bound_protocol_action_v3(bad_symbol), Err(BoundProtocolActionErrorV3::InvalidPhysicalSymbol));
    assert_eq!(build_bound_protocol_action_v3(input(Vec::new())), Err(BoundProtocolActionErrorV3::InvalidArgument));
    let gap = vec![
        argument(0, 3, "count", BoundProtocolValueV3::Integer(7)),
        argument(2, 5, "session_id", BoundProtocolValueV3::Boolean(true)),
    ];
    assert_eq!(build_bound_protocol_action_v3(input(gap)), Err(BoundProtocolActionErrorV3::InvalidArgument));
    let same_name = vec![
        argument(0, 3, "count", BoundProtocolValueV3::Integer(7)),
        argument(1, 5, "count", BoundProtocolValueV3::Boolean(true)),
    ];
    assert_eq!(build_bound_protocol_action_v3(input(same_name)), Err(BoundProtocolActionErrorV3::InvalidArgument));
    let same_role = vec![
        argument(0, 3, "count", BoundProtocolValueV3::Integer(7)),
        argument(1, 3, "limit", BoundProtocolValueV3::Boolean(true)),
    ];
    assert_eq!(build_bound_protocol_action_v3(input(same_role)), Err(BoundProtocolActionErrorV3::InvalidArgument));
    let too_many = (0..33).map(|i| argument(i, i, &format!("a{i}"), BoundProtocolValueV3::Integer(1))).collect();
    assert_eq!(build_bound_protocol_action_v3(input(too_many)), Err(BoundProtocolActionErrorV3::InvalidArgument));
}

#[test]
fn physical_names_are_short_and_plain() {
    assert!(valid_physical_name("a.b/c:d-e_f9"));
    assert!(!valid_physical_name(""));
    assert!(!valid_physical_name("a b"));
    assert!(!valid_physical_name("é"));
    assert!(valid_physical_name(&"x".repeat(128)));
    assert!(!valid_physical_name(&"x".repeat(129)));
}

#[test]
fn values_report_their_type_and_size() {
    assert_eq!(BoundProtocolValueV3::Integer(3).value_type(), BindingValueTypeV1::Integer);
    assert_eq!(BoundProtocolValueV3::Identifier("x".to_owned()).value_type(), BindingValueTypeV1::Identifier);
    assert_eq!(value_bytes(&BoundProtocolValueV3::Integer(3)), 8);
    assert_eq!(value_bytes(&BoundProtocolValueV3::Boolean(false)), 1);
    assert_eq!(value_bytes(&BoundProtocolValueV3::String("héllo".to_owned())), 6);
}

#[test]
fn program_compiles_from_a_function_action() {
    let action = build_bound_protocol_action_v3(input(two_arguments())).expect("action");
    let program = compile_bound_protocol_program_v3(&action).expect("program");
    assert_eq!(program.schema(), "nando.bound-protocol-program.v3");
    assert_eq!(program.action_derivation_sha256(), action.derivation_sha256());
    assert_eq!(program.max_output_bytes(), BOUND_PROTOCOL_PROGRAM_MAX_OUTPUT_BYTES_V3);
    assert_eq!(program.arguments().len(), 2);
    assert!(!program.execution_authority());
    let material = format!(
        "[\"nando.bound-protocol-program.v3\",\"{}\",\"{}\",\"{}\",\"{}\",\"{}\",\"function\",\"tools/exec\",[{},{}],16384]",
        action.derivation_sha256(),
        action.physical_action_sha256(),
        digest('3'),
        digest('8'),
        digest('9'),
        "{\"argument_ordinal\":0,\"physical_name\":\"count\",\"source_role_id\":3,\"value\":{\"type\":\"integer\",\"value\":7}}",
        "{\"argument_ordinal\":1,\"physical_name\":\"session_id\",\"source_role_id\":5,\"value\":{\"type\":\"identifier\",\"value\":\"Ab12\"}}"
    );
    assert_eq!(program.program_sha256(), hex_sha256(material.as_bytes()));
}

#[test]
fn program_refuses_custom_capabilities_and_large_values() {
    let mut custom = input(two_arguments());
    custom.capability_kind = RuntimeCapabilityKindV3::Custom;
    let action = build_bound_protocol_action_v3(custom).expect("action");
    assert_eq!(compile_bound_protocol_program_v3(&action), Err(BoundProtocolProgramErrorV3::UnsupportedCapability));
    let large = vec![argument(0, 3, "text", BoundProtocolValueV3::String("x".repeat(16385)))];
    let action = build_bound_protocol_action_v3(input(large)).expect("action");
    assert_eq!(compile_bound_protocol_program_v3(&action), Err(BoundProtocolProgramErrorV3::ValueBudget));
    let limit = vec![argument(0, 3, "text", BoundProtocolValueV3::String("x".repeat(16384)))];
    let action = build_bound_protocol_action_v3(input(limit)).expect("action");
    assert!(compile_bound_protocol_program_v3(&action).is_ok());
}

#[test]
fn refused_inputs_fail_alike_in_any_argument_order() {
    let gap = vec![
        argument(2, 5, "session_id", BoundProtocolValueV3::Boolean(true)),
        argument(0, 3, "count", BoundProtocolValueV3::Integer(7)),
    ];
    let mut reversed = gap.clone();
    reversed.reverse();
    assert_eq!(build_bound_protocol_action_v3(input(gap)), build_bound_protocol_action_v3(input(reversed)));
}
