use nando_kernel::contracts::{AtomValueType, ResponseValueSelector, SemanticRole};
use nando_kernel::program::{
    response_program_requires_semantic_applicability_guard, CollectionOutputRenderer,
    CollectionProgramStep, CollectionScalarType, ProjectStatusMapping, ProjectStatusValue,
    ResponseArgument, ResponseProgram, ResponseRenderSegment, ValueProjectionFormat,
    MAX_PROJECT_STATUS_CODE, MAX_RESPONSE_RENDER_SEGMENTS,
};
use nando_kernel::static_text::{collection_static_text_rejection_reason, MAX_RESPONSE_STATIC_TEXT_BYTES};

fn rendered_collection(prefix: &str, suffix: &str) -> ResponseProgram {
    ResponseProgram::compose_collection(
        vec![
            CollectionProgramStep::SelectOnlyArrayField,
            CollectionProgramStep::Count,
        ],
        ValueProjectionFormat::PlainText,
        "completed",
    )
    .with_collection_renderer(CollectionOutputRenderer::RenderTemplate {
        prefix: prefix.to_owned(),
        suffix: suffix.to_owned(),
    })
}

#[test]
fn request_derived_programs_require_semantic_applicability() {
    let request_projection = ResponseProgram::project_selected_value(
        ResponseValueSelector::RequestLastToken,
        ValueProjectionFormat::PlainText,
        "completed",
    );
    assert!(response_program_requires_semantic_applicability_guard(
        &request_projection
    ));

    let request_field_projection = ResponseProgram::project_selected_value(
        ResponseValueSelector::RequestReferencedJsonFieldOrdinal {
            ordinal: 0,
            value_type: AtomValueType::String,
        },
        ValueProjectionFormat::PlainText,
        "completed",
    );
    assert!(response_program_requires_semantic_applicability_guard(
        &request_field_projection
    ));

    let request_filtered_collection = ResponseProgram::compose_collection(
        vec![CollectionProgramStep::FilterUniqueFieldEqualsRequestValue {
            value_type: CollectionScalarType::String,
        }],
        ValueProjectionFormat::CanonicalJson,
        "completed",
    );
    assert!(!response_program_requires_semantic_applicability_guard(
        &request_filtered_collection
    ));

    let provider_projection = ResponseProgram::project_selected_value(
        ResponseValueSelector::UniqueScalar {
            value_type: AtomValueType::String,
        },
        ValueProjectionFormat::PlainText,
        "completed",
    );
    assert!(!response_program_requires_semantic_applicability_guard(
        &provider_projection
    ));
    assert!(!response_program_requires_semantic_applicability_guard(
        &ResponseProgram::wait_on_yielded_cell()
    ));

    let mutating_literal = ResponseProgram::function_call_from_roles(
        "write_stdin",
        ResponseValueSelector::ContentLinePrefix {
            prefix: "Process running with session ID ".to_owned(),
            value_type: AtomValueType::Identifier,
        },
        vec![
            ResponseArgument::Role {
                name: "session_id".to_owned(),
                role: SemanticRole::ContinuationHandle,
                value_type: Some(AtomValueType::Integer),
            },
            ResponseArgument::String {
                name: "chars".to_owned(),
                value: "\u{3}".to_owned(),
            },
        ],
    );
    assert!(response_program_requires_semantic_applicability_guard(
        &mutating_literal
    ));
}

#[test]
fn collection_renderer_validator_rejects_private_and_unbounded_static_text() {
    assert_eq!(
        rendered_collection("Selected values: ", ".").validate(),
        Ok(())
    );
    assert_eq!(rendered_collection("Результат: ", ".").validate(), Ok(()));
    assert_eq!(
        rendered_collection("line one\nline two ", "").validate(),
        Ok(())
    );
    for (prefix, suffix) in [
        ("Authorization: Bearer AbC123", ""),
        ("email=user@example.com ", ""),
        ("source=/tmp/private.json ", ""),
        ("source=C:\\private\\data.json ", ""),
        ("key=AbCdEfGhIjKlMnOpQrStUv123456 ", ""),
        ("digest=0123456789abcdef0123456789abcdef ", ""),
        ("Клиент Иван Иванов: ", ""),
        ("Телефон +7 999 123-45-67: ", ""),
        ("Адрес Невский проспект: ", ""),
        ("Client Acme Corporation: ", ""),
    ] {
        assert_eq!(
            rendered_collection(prefix, suffix).validate(),
            Err("invalid_collection_renderer"),
            "{prefix}{suffix}"
        );
    }
    assert_eq!(
        rendered_collection(&"x".repeat(MAX_RESPONSE_STATIC_TEXT_BYTES), "").validate(),
        Ok(())
    );
    assert_eq!(
        rendered_collection(&"x".repeat(MAX_RESPONSE_STATIC_TEXT_BYTES + 1), "").validate(),
        Err("invalid_collection_renderer")
    );
    assert_eq!(
        collection_static_text_rejection_reason("Authorization: Bearer AbC123", ""),
        Some("sensitive_keyword")
    );
    assert_eq!(
        collection_static_text_rejection_reason("source=/tmp/private.json ", ""),
        Some("unix_path")
    );
    assert_eq!(
        collection_static_text_rejection_reason("Selected values: ", "."),
        None
    );
}

#[test]
fn render_sequence_uses_the_single_bounded_segment_budget() {
    let base = ResponseProgram::project_selected_value(
        ResponseValueSelector::UniqueScalar {
            value_type: AtomValueType::Integer,
        },
        ValueProjectionFormat::PlainText,
        "completed",
    );
    let bounded = base
        .clone()
        .with_value_renderer(CollectionOutputRenderer::RenderSequence {
            segments: vec![ResponseRenderSegment::Primary; MAX_RESPONSE_RENDER_SEGMENTS],
        });
    assert_eq!(bounded.validate(), Ok(()));

    let oversized = base.with_value_renderer(CollectionOutputRenderer::RenderSequence {
        segments: vec![ResponseRenderSegment::Primary; MAX_RESPONSE_RENDER_SEGMENTS + 1],
    });
    assert_eq!(oversized.validate(), Err("invalid_render_sequence_length"));
}

#[test]
fn selected_value_projection_has_a_bounded_typed_contract() {
    let program = ResponseProgram::project_selected_value(
        ResponseValueSelector::JsonField {
            field: "status".to_owned(),
            value_type: AtomValueType::Identifier,
        },
        ValueProjectionFormat::PlainText,
        "completed",
    );
    assert_eq!(program.max_output_bytes, 4_096);
    assert_eq!(program.validate(), Ok(()));
}

#[test]
fn selected_value_projection_rejects_unknown_completion_state() {
    let program = ResponseProgram::project_selected_value(
        ResponseValueSelector::UniqueScalar {
            value_type: AtomValueType::Integer,
        },
        ValueProjectionFormat::CanonicalJson,
        "guessed",
    );
    assert_eq!(
        program.validate(),
        Err("invalid_projection_completion_state")
    );
}

#[test]
fn selectors_reject_private_or_high_entropy_material() {
    for selector in [
        ResponseValueSelector::JsonField {
            field: "customer@example_com".to_owned(),
            value_type: AtomValueType::String,
        },
        ResponseValueSelector::ContentLinePrefix {
            prefix: "https://private.example/value=".to_owned(),
            value_type: AtomValueType::String,
        },
        ResponseValueSelector::ContentLinePrefix {
            prefix: "TOKEN_0123456789abcdef0123456789abcdef=".to_owned(),
            value_type: AtomValueType::String,
        },
    ] {
        let program = ResponseProgram::project_selected_value(
            selector,
            ValueProjectionFormat::PlainText,
            "completed",
        );
        assert!(program.validate().is_err());
    }
}

#[test]
fn selector_privacy_matches_canonical_structural_names_without_blocking_session_id() {
    for field in [
        "password",
        "passwd_hash",
        "client_secret",
        "access_token",
        "api_key",
        "apikey",
        "private_key_id",
        "privatekey",
        "authorization",
        "cookie_jar",
        "credential_id",
    ] {
        let program = ResponseProgram::project_status(
            ResponseValueSelector::JsonField {
                field: field.to_owned(),
                value_type: AtomValueType::Integer,
            },
            ProjectStatusMapping::ZeroIsSuccess,
            "completed",
        );
        assert_eq!(program.validate(), Err("invalid_selector_field"), "{field}");
    }
    for prefix in ["API KEY=", "PRIVATE KEY=", "TOKEN="] {
        let program = ResponseProgram::project_status(
            ResponseValueSelector::ContentLinePrefix {
                prefix: prefix.to_owned(),
                value_type: AtomValueType::Integer,
            },
            ProjectStatusMapping::ZeroIsSuccess,
            "completed",
        );
        assert_eq!(
            program.validate(),
            Err("invalid_selector_prefix"),
            "{prefix}"
        );
    }
    let benign = ResponseProgram::project_status(
        ResponseValueSelector::JsonField {
            field: "session_id".to_owned(),
            value_type: AtomValueType::Integer,
        },
        ProjectStatusMapping::ZeroIsSuccess,
        "completed",
    );
    assert_eq!(benign.validate(), Ok(()));
}

#[test]
fn project_status_has_a_bounded_integer_only_contract() {
    let program = ResponseProgram::project_status(
        ResponseValueSelector::JsonField {
            field: "exit_code".to_owned(),
            value_type: AtomValueType::Integer,
        },
        ProjectStatusMapping::ZeroIsSuccess,
        "completed",
    );
    assert_eq!(program.max_output_bytes, "failure".len());
    assert_eq!(program.validate(), Ok(()));
    assert_eq!(ProjectStatusValue::Success.canonical_text(), "success");
    assert_eq!(ProjectStatusValue::Failure.canonical_text(), "failure");
    assert_eq!(MAX_PROJECT_STATUS_CODE, 1_000_000);
}

#[test]
fn project_status_rejects_non_integer_selectors_and_unknown_completion() {
    for value_type in [
        AtomValueType::String,
        AtomValueType::Boolean,
        AtomValueType::Identifier,
        AtomValueType::Collection,
    ] {
        let program = ResponseProgram::project_status(
            ResponseValueSelector::UniqueScalar { value_type },
            ProjectStatusMapping::ZeroIsSuccess,
            "completed",
        );
        assert_eq!(program.validate(), Err("status_selector_must_be_integer"));
    }
    let invalid_completion = ResponseProgram::project_status(
        ResponseValueSelector::UniqueScalar {
            value_type: AtomValueType::Integer,
        },
        ProjectStatusMapping::ZeroIsSuccess,
        "unknown",
    );
    assert_eq!(
        invalid_completion.validate(),
        Err("invalid_status_completion_state")
    );
}

#[test]
fn project_status_keeps_selector_privacy_validation() {
    let program = ResponseProgram::project_status(
        ResponseValueSelector::ContentLinePrefix {
            prefix: "https://private.example/exit_code=".to_owned(),
            value_type: AtomValueType::Integer,
        },
        ProjectStatusMapping::ZeroIsSuccess,
        "completed",
    );
    assert_eq!(program.validate(), Err("invalid_selector_prefix"));
}

#[test]
fn programs_clone_into_equal_copies() {
    let call = ResponseProgram::function_call_from_roles(
        "write_stdin",
        ResponseValueSelector::JsonField { field: "id".to_owned(), value_type: AtomValueType::Identifier },
        vec![ResponseArgument::String { name: "chars".to_owned(), value: "x".to_owned() }],
    );
    assert_eq!(call.clone(), call);
    let collection = ResponseProgram::compose_collection(
        vec![CollectionProgramStep::SelectField { field: "rows".to_owned() }, CollectionProgramStep::Count],
        ValueProjectionFormat::PlainText,
        "completed",
    )
    .with_collection_renderer(CollectionOutputRenderer::RenderSequence {
        segments: vec![ResponseRenderSegment::Static { text: "n=".to_owned() }, ResponseRenderSegment::Primary],
    });
    assert_eq!(collection.clone(), collection);
}
